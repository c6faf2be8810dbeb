//! The command line: which identifiers to fetch, with which handler, from
//! which directories.

use crate::text::collect;
use vstd::prelude::*;
use vstd::string::StrSliceExecFns;

verus! {

#[verifier::external_type_specification]
#[verifier::external_body]
pub struct ExParser(lexopt::Parser);

#[verifier::external_type_specification]
#[verifier::external_body]
pub struct ExSyntaxError(lexopt::Error);

/// How much of the command line a parser has not handed out yet: its bytes
/// and the ends of its arguments.
pub uninterp spec fn unread(parser: lexopt::Parser) -> nat;

/// The parser that `lexopt::Parser::from_args` makes of the arguments.
pub uninterp spec fn opened(raw: Seq<Seq<char>>) -> lexopt::Parser;

/// What `lexopt::Parser::next` does in a given state: the piece that it hands
/// out (`Some(None)` at the end of the command line, `None` where it reports
/// an error) and the state in which it leaves the parser.
pub uninterp spec fn token_step(parser: lexopt::Parser) -> (Option<Option<Lexeme>>, lexopt::Parser);

/// What `lexopt::Parser::value` does in a given state: the value that it
/// hands out (`None` where it reports an error) and the state in which it
/// leaves the parser.
pub uninterp spec fn value_step(parser: lexopt::Parser) -> (Option<Seq<char>>, lexopt::Parser);

/// One piece of the command line.
#[derive(Debug, PartialEq, Eq)]
pub enum Token {
    /// A short option, such as `-p`.
    Short(char),
    /// A long option, such as `--handler`, without its dashes.
    Long(String),
    /// A positional value.
    Value(String),
}

/// The content of a [`Token`].
pub enum Lexeme {
    Short(char),
    Long(Seq<char>),
    Value(Seq<char>),
}

impl View for Token {
    type V = Lexeme;

    open spec fn view(&self) -> Lexeme {
        match self {
            Token::Short(option) => Lexeme::Short(*option),
            Token::Long(option) => Lexeme::Long(option@),
            Token::Value(value) => Lexeme::Value(value@),
        }
    }
}

/// A parser over the arguments of the command line, the name of the program
/// left out.
///
/// Calls `lexopt::Parser::from_args`, which makes of the same arguments the
/// same parser.
#[verifier::external_body]
fn reader(raw: Vec<String>) -> (parser: lexopt::Parser)
    ensures
        parser == opened(texts(raw@)),
{
    lexopt::Parser::from_args(raw)
}

/// The next option or positional value, or `None` at the end of the command
/// line.
///
/// Calls `lexopt::Parser::next`, which reads nothing but the parser: what
/// it hands out and how it leaves the parser follow from the state of the
/// parser alone. Every piece that it hands out uses up a character of an
/// argument or a whole argument, so that less is left to read. The grammar
/// of options itself is not stated here.
#[verifier::external_body]
fn next_token(parser: &mut lexopt::Parser) -> (token: Result<Option<Token>, lexopt::Error>)
    ensures
        *final(parser) == token_step(*old(parser)).1,
        match token {
            Ok(Some(piece)) => token_step(*old(parser)).0 == Some(Some(piece@)),
            Ok(None) => token_step(*old(parser)).0 == Some(None::<Lexeme>),
            Err(_) => token_step(*old(parser)).0 is None,
        },
        token matches Ok(Some(_)) ==> unread(*final(parser)) < unread(*old(parser)),
{
    Ok(
        match parser.next()? {
            Some(lexopt::Arg::Short(option)) => Some(Token::Short(option)),
            Some(lexopt::Arg::Long(option)) => Some(Token::Long(option.to_owned())),
            Some(lexopt::Arg::Value(value)) => Some(Token::Value(lexopt::ValueExt::string(value)?)),
            None => None,
        },
    )
}

/// The value of the option that was just read.
///
/// Calls `lexopt::Parser::value`, which takes what is joined to the option
/// or else the next argument, and never hands anything back to be read
/// again. It reads nothing but the parser: what it hands out and how it
/// leaves the parser follow from the state of the parser alone.
#[verifier::external_body]
fn option_value(parser: &mut lexopt::Parser) -> (value: Result<String, lexopt::Error>)
    ensures
        *final(parser) == value_step(*old(parser)).1,
        match value {
            Ok(text) => value_step(*old(parser)).0 == Some(text@),
            Err(_) => value_step(*old(parser)).0 is None,
        },
        unread(*final(parser)) <= unread(*old(parser)),
{
    lexopt::ValueExt::string(parser.value()?)
}

/// What a directory path was found to be.
#[derive(Debug, Clone, Copy, PartialEq, Eq, Structural)]
pub enum Probe {
    Absent,
    NotADirectory,
    Directory,
}

/// Why a path cannot hold handlers or plugins.
#[derive(Debug, Clone, Copy, PartialEq, Eq, Structural)]
pub enum PathError {
    DoesNotExist,
    NotADirectory,
}

/// The path of a directory that was found to exist.
#[derive(Debug)]
pub struct HandlersPath {
    path: String,
}

impl View for HandlersPath {
    type V = Seq<char>;

    closed spec fn view(&self) -> Seq<char> {
        self.path@
    }
}

impl HandlersPath {
    /// Accepts `value` as the path of a directory, given what was found
    /// there: a path that does not exist is refused, and so is one that is
    /// no directory.
    pub fn try_from(value: String, found: Probe) -> (accepted: Result<HandlersPath, PathError>)
        ensures
            match accepted {
                Ok(path) => found == Probe::Directory && path@ == value@,
                Err(PathError::DoesNotExist) => found == Probe::Absent,
                Err(PathError::NotADirectory) => found == Probe::NotADirectory,
            },
    {
        match found {
            Probe::Absent => Err(PathError::DoesNotExist),
            Probe::NotADirectory => Err(PathError::NotADirectory),
            Probe::Directory => Ok(HandlersPath { path: value }),
        }
    }

    /// The path itself.
    pub fn into(self) -> (path: String)
        ensures
            path@ == self@,
    {
        self.path
    }
}

/// What went wrong on the command line.
#[derive(Debug, PartialEq, Eq)]
pub enum CliError {
    /// No identifiers were given.
    MissingIdentifiers,
    /// An option that is not known, or a second positional value.
    Unexpected(Token),
    /// An option lacks its value, or has one that it does not take.
    Syntax,
}

/// The content of a [`CliError`].
pub enum Refusal {
    MissingIdentifiers,
    Unexpected(Lexeme),
    Syntax,
}

impl View for CliError {
    type V = Refusal;

    open spec fn view(&self) -> Refusal {
        match self {
            CliError::MissingIdentifiers => Refusal::MissingIdentifiers,
            CliError::Unexpected(token) => Refusal::Unexpected(token@),
            CliError::Syntax => Refusal::Syntax,
        }
    }
}

/// The command line, read.
///
/// * `identifiers`: the identifiers to fetch.
/// * `handler`: the handler to use, if one is named.
/// * `handlers_path`: where the handlers are, if it is said.
/// * `plugins_path`: where the plugins are, if it is said.
#[derive(Debug)]
pub struct Args {
    pub identifiers: Vec<String>,
    pub handler: Option<String>,
    pub handlers_path: Option<String>,
    pub plugins_path: Option<String>,
}

/// The content of [`Args`].
pub struct Command {
    pub identifiers: Seq<Seq<char>>,
    pub handler: Option<Seq<char>>,
    pub handlers_path: Option<Seq<char>>,
    pub plugins_path: Option<Seq<char>>,
}

/// The text of a string that may be missing.
pub open spec fn text_of(text: Option<String>) -> Option<Seq<char>> {
    match text {
        Some(text) => Some(text@),
        None => None,
    }
}

impl View for Args {
    type V = Command;

    open spec fn view(&self) -> Command {
        Command {
            identifiers: texts(self.identifiers@),
            handler: text_of(self.handler),
            handlers_path: text_of(self.handlers_path),
            plugins_path: text_of(self.plugins_path),
        }
    }
}

/// What a piece of the command line asks for.
#[derive(Debug, Clone, Copy, PartialEq, Eq, Structural)]
pub enum Meaning {
    /// The value that follows is the directory of the handlers.
    HandlersPath,
    /// The value that follows is the name of the handler to use.
    Handler,
    /// The value that follows is the directory of the plugins.
    PluginsPath,
    /// The piece is the list of identifiers.
    Identifiers,
    /// The piece has no place.
    Unexpected,
}

/// What `token` asks for, given whether the identifiers were seen already:
/// `-p` and `--handlers-path`, `-H` and `--handler`, `-P` and
/// `--plugins-path` take a value; the first positional value is the list of
/// identifiers; anything else has no place.
pub open spec fn meaning(piece: Lexeme, seen: bool) -> Meaning {
    match piece {
        Lexeme::Short(option) => if option == 'p' {
            Meaning::HandlersPath
        } else if option == 'H' {
            Meaning::Handler
        } else if option == 'P' {
            Meaning::PluginsPath
        } else {
            Meaning::Unexpected
        },
        Lexeme::Long(option) => if option == "handlers-path"@ {
            Meaning::HandlersPath
        } else if option == "handler"@ {
            Meaning::Handler
        } else if option == "plugins-path"@ {
            Meaning::PluginsPath
        } else {
            Meaning::Unexpected
        },
        Lexeme::Value(_) => if seen {
            Meaning::Unexpected
        } else {
            Meaning::Identifiers
        },
    }
}

/// Says what a piece of the command line asks for.
pub fn classify(token: &Token, seen: bool) -> (asked: Meaning)
    ensures
        asked == meaning(token@, seen),
{
    match token {
        Token::Short(option) => if *option == 'p' {
            Meaning::HandlersPath
        } else if *option == 'H' {
            Meaning::Handler
        } else if *option == 'P' {
            Meaning::PluginsPath
        } else {
            Meaning::Unexpected
        },
        Token::Long(option) => if *option == "handlers-path".to_owned() {
            Meaning::HandlersPath
        } else if *option == "handler".to_owned() {
            Meaning::Handler
        } else if *option == "plugins-path".to_owned() {
            Meaning::PluginsPath
        } else {
            Meaning::Unexpected
        },
        Token::Value(_) => if seen {
            Meaning::Unexpected
        } else {
            Meaning::Identifiers
        },
    }
}

/// The pieces into which the commas cut a text. A text without a comma is
/// one piece; two commas in a row have an empty piece between them.
pub open spec fn pieces(text: Seq<char>) -> Seq<Seq<char>>
    decreases text.len(),
{
    if text.len() == 0 {
        seq![Seq::empty()]
    } else {
        let before = pieces(text.drop_last());
        if text.last() == ',' {
            before.push(Seq::empty())
        } else {
            before.drop_last().push(before.last().push(text.last()))
        }
    }
}

/// There is always at least one piece.
pub proof fn pieces_is_never_empty(text: Seq<char>)
    ensures
        pieces(text).len() >= 1,
    decreases text.len(),
{
    if text.len() > 0 {
        pieces_is_never_empty(text.drop_last());
    }
}

/// The text of each string.
pub open spec fn texts(strings: Seq<String>) -> Seq<Seq<char>> {
    Seq::new(strings.len(), |i: int| strings[i]@)
}

/// Cuts a list of identifiers at its commas.
pub fn split_identifiers(list: &String) -> (identifiers: Vec<String>)
    ensures
        texts(identifiers@) == pieces(list@),
        identifiers@.len() >= 1,
{
    let text = list.as_str();
    let length = text.unicode_len();
    let mut done: Vec<String> = Vec::new();
    let mut current: Vec<char> = Vec::new();
    let mut i: usize = 0;
    proof {
        assert(list@.take(0) =~= Seq::empty());
        assert(texts(done@).push(current@) =~= seq![Seq::<char>::empty()]);
    }
    while i < length
        invariant
            i <= length,
            length == list@.len(),
            text@ == list@,
            texts(done@).push(current@) == pieces(list@.take(i as int)),
        decreases length - i,
    {
        let c = text.get_char(i);
        proof {
            assert(list@.take(i + 1).drop_last() =~= list@.take(i as int));
            assert(list@.take(i + 1).last() == c);
        }
        let ghost before = texts(done@);
        let ghost gathered = current@;
        if c == ',' {
            done.push(collect(&current));
            current = Vec::new();
            proof {
                assert(texts(done@) =~= before.push(gathered));
            }
        } else {
            current.push(c);
        }
        proof {
            let old_pieces = pieces(list@.take(i as int));
            if c == ',' {
                assert(texts(done@).push(current@) =~= old_pieces.push(Seq::empty()));
            } else {
                assert(texts(done@).push(current@) =~= old_pieces.drop_last().push(
                    old_pieces.last().push(c),
                ));
            }
        }
        i += 1;
    }
    proof {
        assert(list@.take(i as int) =~= list@);
        pieces_is_never_empty(list@);
    }
    let ghost before = texts(done@);
    done.push(collect(&current));
    proof {
        assert(texts(done@) =~= before.push(current@));
    }
    done
}

/// What has been read of a command line so far.
pub struct Partial {
    pub identifiers: Option<Seq<Seq<char>>>,
    pub handler: Option<Seq<char>>,
    pub handlers_path: Option<Seq<char>>,
    pub plugins_path: Option<Seq<char>>,
}

/// Nothing read yet.
pub open spec fn nothing() -> Partial {
    Partial { identifiers: None, handler: None, handlers_path: None, plugins_path: None }
}

/// What has been read, with `value` put where the option says. A later value
/// of an option takes the place of an earlier one.
pub open spec fn stored(so_far: Partial, option: Meaning, value: Seq<char>) -> Partial {
    match option {
        Meaning::HandlersPath => Partial { handlers_path: Some(value), ..so_far },
        Meaning::Handler => Partial { handler: Some(value), ..so_far },
        Meaning::PluginsPath => Partial { plugins_path: Some(value), ..so_far },
        _ => so_far,
    }
}

/// The command that stands at the end of the command line: what has been
/// read, if the identifiers are among it.
pub open spec fn finished(so_far: Partial) -> Result<Command, Refusal> {
    match so_far.identifiers {
        Some(identifiers) => Ok(
            Command {
                identifiers,
                handler: so_far.handler,
                handlers_path: so_far.handlers_path,
                plugins_path: so_far.plugins_path,
            },
        ),
        None => Err(Refusal::MissingIdentifiers),
    }
}

/// What reading on from the state `parser`, with `so_far` read already,
/// comes to.
///
/// Each piece is taken by its meaning: an option takes the value that
/// follows it, the first positional value is cut at its commas into the
/// identifiers, and a piece without a place ends the reading, as does an
/// error of the parser. At the end of the command line the identifiers must
/// have been seen. (A parser that did not move on would be an error too; the
/// reader always moves on.)
pub open spec fn read(parser: lexopt::Parser, so_far: Partial) -> Result<Command, Refusal>
    decreases unread(parser),
{
    let (piece, rest) = token_step(parser);
    match piece {
        None => Err(Refusal::Syntax),
        Some(None) => finished(so_far),
        Some(Some(piece)) => if unread(rest) < unread(parser) {
            match meaning(piece, so_far.identifiers is Some) {
                Meaning::Unexpected => Err(Refusal::Unexpected(piece)),
                Meaning::Identifiers => read(
                    rest,
                    Partial { identifiers: Some(pieces(piece->Value_0)), ..so_far },
                ),
                option => {
                    let (value, after) = value_step(rest);
                    match value {
                        Some(value) => if unread(after) <= unread(rest) {
                            read(after, stored(so_far, option, value))
                        } else {
                            Err(Refusal::Syntax)
                        },
                        None => Err(Refusal::Syntax),
                    }
                },
            }
        } else {
            Err(Refusal::Syntax)
        },
    }
}

/// What reading a command line gave, by content.
pub open spec fn reading(parsed: Result<Args, CliError>) -> Result<Command, Refusal> {
    match parsed {
        Ok(args) => Ok(args@),
        Err(error) => Err(error@),
    }
}

/// The identifiers read so far, by content.
pub open spec fn seen(identifiers: Option<Vec<String>>) -> Option<Seq<Seq<char>>> {
    match identifiers {
        Some(list) => Some(texts(list@)),
        None => None,
    }
}

impl Args {
    /// Reads the arguments of the command line, the name of the program left
    /// out.
    ///
    /// The one positional value is the list of identifiers, cut at its
    /// commas; the options name a handler and the two directories. The
    /// outcome is what reading the pieces that the parser hands out comes
    /// to.
    pub fn parse(raw: Vec<String>) -> (parsed: Result<Args, CliError>)
        ensures
            reading(parsed) == read(opened(texts(raw@)), nothing()),
            parsed matches Ok(args) ==> args.identifiers@.len() >= 1,
    {
        let mut identifiers: Option<Vec<String>> = None;
        let mut handler: Option<String> = None;
        let mut handlers_path: Option<String> = None;
        let mut plugins_path: Option<String> = None;
        let ghost whole = read(opened(texts(raw@)), nothing());
        let mut parser = reader(raw);
        loop
            invariant_except_break
                whole == read(
                    parser,
                    Partial {
                        identifiers: seen(identifiers),
                        handler: text_of(handler),
                        handlers_path: text_of(handlers_path),
                        plugins_path: text_of(plugins_path),
                    },
                ),
            invariant
                identifiers matches Some(list) ==> list@.len() >= 1,
                whole == read(opened(texts(raw@)), nothing()),
            ensures
                identifiers matches Some(list) ==> list@.len() >= 1,
                whole == finished(
                    Partial {
                        identifiers: seen(identifiers),
                        handler: text_of(handler),
                        handlers_path: text_of(handlers_path),
                        plugins_path: text_of(plugins_path),
                    },
                ),
            decreases unread(parser),
        {
            let token = match next_token(&mut parser) {
                Ok(Some(token)) => token,
                Ok(None) => break,
                Err(_) => return Err(CliError::Syntax),
            };
            match classify(&token, identifiers.is_some()) {
                Meaning::HandlersPath => match option_value(&mut parser) {
                    Ok(value) => handlers_path = Some(value),
                    Err(_) => return Err(CliError::Syntax),
                },
                Meaning::Handler => match option_value(&mut parser) {
                    Ok(value) => handler = Some(value),
                    Err(_) => return Err(CliError::Syntax),
                },
                Meaning::PluginsPath => match option_value(&mut parser) {
                    Ok(value) => plugins_path = Some(value),
                    Err(_) => return Err(CliError::Syntax),
                },
                Meaning::Identifiers => match &token {
                    Token::Value(list) => identifiers = Some(split_identifiers(list)),
                    _ => return Err(CliError::Unexpected(token)),
                },
                Meaning::Unexpected => return Err(CliError::Unexpected(token)),
            }
        }
        match identifiers {
            Some(identifiers) => Ok(Args { identifiers, handler, handlers_path, plugins_path }),
            None => Err(CliError::MissingIdentifiers),
        }
    }
}

} // verus!
