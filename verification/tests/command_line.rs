use bibfetch::cli::{
    classify, split_identifiers, Args, CliError, HandlersPath, Meaning, PathError, Probe, Token,
};

fn raw(list: &[&str]) -> Vec<String> {
    list.iter().map(|arg| arg.to_string()).collect()
}

#[test]
fn identifiers_are_cut_at_commas() {
    assert_eq!(split_identifiers(&"a,b,c".to_string()), ["a", "b", "c"]);
    assert_eq!(split_identifiers(&"doi:10.1/x".to_string()), ["doi:10.1/x"]);
    assert_eq!(split_identifiers(&"".to_string()), [""]);
    assert_eq!(split_identifiers(&",".to_string()), ["", ""]);
    assert_eq!(split_identifiers(&"a,,b,".to_string()), ["a", "", "b", ""]);
    assert_eq!(split_identifiers(&"ä,ö ü".to_string()), ["ä", "ö ü"]);
}

#[test]
fn every_piece_has_its_meaning() {
    assert_eq!(classify(&Token::Short('p'), false), Meaning::HandlersPath);
    assert_eq!(classify(&Token::Short('H'), true), Meaning::Handler);
    assert_eq!(classify(&Token::Short('P'), false), Meaning::PluginsPath);
    assert_eq!(classify(&Token::Short('h'), false), Meaning::Unexpected);
    assert_eq!(classify(&Token::Long("handlers-path".to_string()), false), Meaning::HandlersPath);
    assert_eq!(classify(&Token::Long("handler".to_string()), false), Meaning::Handler);
    assert_eq!(classify(&Token::Long("plugins-path".to_string()), true), Meaning::PluginsPath);
    assert_eq!(classify(&Token::Long("handlers".to_string()), false), Meaning::Unexpected);
    assert_eq!(classify(&Token::Long("p".to_string()), false), Meaning::Unexpected);
    assert_eq!(classify(&Token::Value("x".to_string()), false), Meaning::Identifiers);
    assert_eq!(classify(&Token::Value("x".to_string()), true), Meaning::Unexpected);
}

#[test]
fn a_full_command_line_is_read() {
    let args = Args::parse(raw(&[
        "-p",
        "/etc/handlers",
        "--handler=crossref",
        "doi:1,isbn:2",
        "--plugins-path",
        "/opt/plugins",
    ]))
    .unwrap();
    assert_eq!(args.identifiers, ["doi:1", "isbn:2"]);
    assert_eq!(args.handler, Some("crossref".to_string()));
    assert_eq!(args.handlers_path, Some("/etc/handlers".to_string()));
    assert_eq!(args.plugins_path, Some("/opt/plugins".to_string()));
}

#[test]
fn options_are_optional_and_the_last_one_counts() {
    let args = Args::parse(raw(&["x"])).unwrap();
    assert_eq!(args.identifiers, ["x"]);
    assert_eq!(args.handler, None);
    assert_eq!(args.handlers_path, None);
    assert_eq!(args.plugins_path, None);
    let args = Args::parse(raw(&["-Hone", "-H", "two", "-P=p", "ids", "-pq"])).unwrap();
    assert_eq!(args.handler, Some("two".to_string()));
    assert_eq!(args.plugins_path, Some("p".to_string()));
    assert_eq!(args.handlers_path, Some("q".to_string()));
    let args = Args::parse(raw(&["--", "-p"])).unwrap();
    assert_eq!(args.identifiers, ["-p"]);
}

#[test]
fn missing_identifiers_are_an_error() {
    assert_eq!(Args::parse(raw(&[])).unwrap_err(), CliError::MissingIdentifiers);
    assert_eq!(Args::parse(raw(&["-H", "h"])).unwrap_err(), CliError::MissingIdentifiers);
}

#[test]
fn what_has_no_place_is_an_error() {
    assert_eq!(
        Args::parse(raw(&["a", "b"])).unwrap_err(),
        CliError::Unexpected(Token::Value("b".to_string()))
    );
    assert_eq!(
        Args::parse(raw(&["-x", "a"])).unwrap_err(),
        CliError::Unexpected(Token::Short('x'))
    );
    assert_eq!(
        Args::parse(raw(&["a", "--verbose"])).unwrap_err(),
        CliError::Unexpected(Token::Long("verbose".to_string()))
    );
}

#[test]
fn a_broken_option_is_an_error() {
    assert_eq!(Args::parse(raw(&["a", "-p"])).unwrap_err(), CliError::Syntax);
    assert_eq!(Args::parse(raw(&["--handler"])).unwrap_err(), CliError::Syntax);
}

#[test]
fn only_a_directory_is_accepted_as_a_path() {
    let accepted = HandlersPath::try_from("/tmp/handlers".to_string(), Probe::Directory).unwrap();
    assert_eq!(accepted.into(), "/tmp/handlers");
    assert_eq!(
        HandlersPath::try_from("/nowhere".to_string(), Probe::Absent).unwrap_err(),
        PathError::DoesNotExist
    );
    assert_eq!(
        HandlersPath::try_from("/etc/passwd".to_string(), Probe::NotADirectory).unwrap_err(),
        PathError::NotADirectory
    );
}

#[test]
fn reading_the_same_arguments_gives_the_same() {
    let line = ["-H", "a", "x,y", "--plugins-path=/p"];
    let first = Args::parse(raw(&line)).unwrap();
    let second = Args::parse(raw(&line)).unwrap();
    assert_eq!(first.identifiers, second.identifiers);
    assert_eq!(first.handler, second.handler);
    assert_eq!(first.handlers_path, second.handlers_path);
    assert_eq!(first.plugins_path, second.plugins_path);
    assert_eq!(first.identifiers, ["x", "y"]);
    assert_eq!(first.plugins_path, Some("/p".to_string()));
}
