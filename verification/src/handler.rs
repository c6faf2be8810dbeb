//! One unit that recognises identifiers and retrieves their metadata.

use crate::error::{Field, HandlerError, LoadError};
use crate::script::{
    as_boolean, byte_field, call, evaluate, function_field, into_table, into_text, is_nil,
    table_field, text_field, to_json, ScriptFunction, ScriptTable,
};
use std::cmp::Ordering;
use vstd::prelude::*;

verus! {

/// The metadata that a handler retrieved: a JSON document.
pub type Record = serde_json::Value;

/// The script of a handler: its environment, the table that it evaluated to
/// and the two functions of that table.
///
/// The environment lives as long as the handler and is used for every call.
pub struct Script {
    table: ScriptTable,
    parse: ScriptFunction,
    fetch: ScriptFunction,
}

/// A handler, loaded from one script. A lower `priority` is tried earlier.
pub struct Handler {
    pub name: String,
    pub priority: u8,
    pub script: Script,
}

/// What the table of a handler script was found to hold.
pub(crate) struct Exposed {
    pub parse: Option<ScriptFunction>,
    pub fetch: Option<ScriptFunction>,
    pub info: bool,
    pub name: Option<String>,
    pub priority: Option<u8>,
}

/// The first required field that is missing, in the order `parse`, `fetch`,
/// `info`, `name`, `priority`.
pub(crate) open spec fn first_missing(exposed: Exposed) -> Option<Field> {
    if exposed.parse is None {
        Some(Field::Parse)
    } else if exposed.fetch is None {
        Some(Field::Fetch)
    } else if !exposed.info {
        Some(Field::Info)
    } else if exposed.name is None {
        Some(Field::Name)
    } else if exposed.priority is None {
        Some(Field::Priority)
    } else {
        None
    }
}

/// What a handler's `parse` function replied to an identifier.
pub enum ParseReply {
    /// The script raised an error.
    Raised,
    Nil,
    Boolean(bool),
    /// A string, or a number written as one.
    Text(String),
    /// Any other value.
    Other,
}

/// What a reply to `parse` means: nil and `false` say that the identifier is
/// not this handler's, a text is the canonical identifier, and anything else
/// is a failure of the handler.
pub open spec fn identification(reply: ParseReply) -> Result<Option<String>, HandlerError> {
    match reply {
        ParseReply::Raised => Err(HandlerError::Script),
        ParseReply::Nil => Ok(None),
        ParseReply::Boolean(false) => Ok(None),
        ParseReply::Boolean(true) => Err(HandlerError::Reply),
        ParseReply::Text(canonical) => Ok(Some(canonical)),
        ParseReply::Other => Err(HandlerError::Reply),
    }
}

/// Reads a reply to `parse`.
pub fn identified(reply: ParseReply) -> (outcome: Result<Option<String>, HandlerError>)
    ensures
        outcome == identification(reply),
{
    match reply {
        ParseReply::Raised => Err(HandlerError::Script),
        ParseReply::Nil => Ok(None),
        ParseReply::Boolean(matched) => if matched {
            Err(HandlerError::Reply)
        } else {
            Ok(None)
        },
        ParseReply::Text(canonical) => Ok(Some(canonical)),
        ParseReply::Other => Err(HandlerError::Reply),
    }
}

/// What a handler's `fetch` function replied to a canonical identifier.
pub enum FetchReply {
    /// The script raised an error.
    Raised,
    /// Anything but a table.
    NotATable,
    /// A table that cannot be written as a record.
    Unwritable,
    /// A table, written as a record.
    Table(Record),
}

/// What a reply to `fetch` means: a table that can be written as a record is
/// the metadata, and anything else is a failure of the handler.
pub open spec fn retrieval(reply: FetchReply) -> Result<Record, HandlerError> {
    match reply {
        FetchReply::Raised => Err(HandlerError::Script),
        FetchReply::NotATable => Err(HandlerError::Reply),
        FetchReply::Unwritable => Err(HandlerError::Record),
        FetchReply::Table(record) => Ok(record),
    }
}

/// Reads a reply to `fetch`.
pub fn retrieved(reply: FetchReply) -> (outcome: Result<Record, HandlerError>)
    ensures
        outcome == retrieval(reply),
{
    match reply {
        FetchReply::Raised => Err(HandlerError::Script),
        FetchReply::NotATable => Err(HandlerError::Reply),
        FetchReply::Unwritable => Err(HandlerError::Record),
        FetchReply::Table(record) => Ok(record),
    }
}

impl Handler {
    /// Puts a handler together from what its script exposes: a handler where
    /// nothing is missing, and else the first field that is.
    fn assemble(table: ScriptTable, exposed: Exposed) -> (loaded: Result<Handler, LoadError>)
        ensures
            match loaded {
                Ok(handler) => {
                    &&& first_missing(exposed) is None
                    &&& handler.script.table == table
                    &&& exposed.parse == Some(handler.script.parse)
                    &&& exposed.fetch == Some(handler.script.fetch)
                    &&& exposed.name == Some(handler.name)
                    &&& exposed.priority == Some(handler.priority)
                },
                Err(error) => first_missing(exposed) matches Some(field) && error
                    == LoadError::Missing(field),
            },
    {
        let Exposed { parse, fetch, info, name, priority } = exposed;
        let parse = match parse {
            Some(parse) => parse,
            None => return Err(LoadError::Missing(Field::Parse)),
        };
        let fetch = match fetch {
            Some(fetch) => fetch,
            None => return Err(LoadError::Missing(Field::Fetch)),
        };
        if !info {
            return Err(LoadError::Missing(Field::Info));
        }
        let name = match name {
            Some(name) => name,
            None => return Err(LoadError::Missing(Field::Name)),
        };
        let priority = match priority {
            Some(priority) => priority,
            None => return Err(LoadError::Missing(Field::Priority)),
        };
        Ok(Handler { name, priority, script: Script { table, parse, fetch } })
    }

    /// Loads a handler from the text of its script, evaluated in `lua`.
    ///
    /// The script must evaluate to a table that holds the functions `parse`
    /// and `fetch` and a table `info` with a `name` and a `priority`. What
    /// the script evaluates to is the script's affair; a failure is either
    /// that it gave no table or the first field that its table lacks.
    pub fn load(lua: mlua::Lua, source: &str) -> (loaded: Result<Handler, LoadError>)
        ensures
            loaded matches Err(error) ==> error == LoadError::Evaluation || error is Missing,
    {
        let table = match evaluate(lua, source) {
            Ok(table) => table,
            Err(_) => return Err(LoadError::Evaluation),
        };
        let parse = match function_field(&table, "parse") {
            Ok(parse) => Some(parse),
            Err(_) => None,
        };
        let fetch = match function_field(&table, "fetch") {
            Ok(fetch) => Some(fetch),
            Err(_) => None,
        };
        let exposed = match table_field(&table, "info") {
            Ok(info) => {
                let name = match text_field(&info, "name") {
                    Ok(name) => Some(name),
                    Err(_) => None,
                };
                let priority = match byte_field(&info, "priority") {
                    Ok(priority) => Some(priority),
                    Err(_) => None,
                };
                Exposed { parse, fetch, info: true, name, priority }
            },
            Err(_) => Exposed { parse, fetch, info: false, name: None, priority: None },
        };
        Handler::assemble(table, exposed)
    }

    /// Asks the script whether `id` is one of its identifiers: the canonical
    /// identifier if it is, `None` if it is not.
    ///
    /// The environment of a script takes one call at a time: the runtime
    /// holds the lock of the environment for the length of each call, so that
    /// calls into one handler from several threads run one after the other.
    ///
    /// What the script replies is the script's affair; the outcome is the
    /// reading of that reply.
    pub fn parse(&self, id: String) -> (outcome: Result<Option<String>, HandlerError>)
        ensures
            exists|reply: ParseReply| outcome == #[trigger] identification(reply),
    {
        let reply = match call(&self.script.parse, id) {
            Err(_) => ParseReply::Raised,
            Ok(reply) => if is_nil(&reply) {
                ParseReply::Nil
            } else {
                match as_boolean(&reply) {
                    Some(boolean) => ParseReply::Boolean(boolean),
                    None => match into_text(reply) {
                        Ok(text) => ParseReply::Text(text),
                        Err(_) => ParseReply::Other,
                    },
                }
            },
        };
        identified(reply)
    }

    /// Asks the script for the metadata of the canonical identifier `id`.
    ///
    /// What the script replies is the script's affair, and every outcome can
    /// come of it; the outcome is the reading of that reply.
    pub fn fetch(&self, id: String) -> (outcome: Result<Record, HandlerError>) {
        let reply = match call(&self.script.fetch, id) {
            Err(_) => FetchReply::Raised,
            Ok(reply) => match into_table(reply) {
                Err(_) => FetchReply::NotATable,
                Ok(table) => match to_json(&table) {
                    Ok(record) => FetchReply::Table(record),
                    Err(_) => FetchReply::Unwritable,
                },
            },
        };
        retrieved(reply)
    }
}

/// How two priorities stand to each other: the lower one comes first.
pub open spec fn priority_order(left: u8, right: u8) -> Ordering {
    if left < right {
        Ordering::Less
    } else if left == right {
        Ordering::Equal
    } else {
        Ordering::Greater
    }
}

impl Handler {
    /// Orders handlers by priority, ascending. Handlers of one priority are
    /// equal in this order and still distinct.
    pub fn cmp(&self, other: &Self) -> (order: Ordering)
        ensures
            order == priority_order(self.priority, other.priority),
    {
        if self.priority < other.priority {
            Ordering::Less
        } else if self.priority == other.priority {
            Ordering::Equal
        } else {
            Ordering::Greater
        }
    }
}

impl PartialEq for Handler {
    fn eq(&self, other: &Self) -> (same: bool) {
        self.priority == other.priority
    }
}

impl vstd::std_specs::cmp::PartialEqSpecImpl for Handler {
    open spec fn obeys_eq_spec() -> bool {
        true
    }

    open spec fn eq_spec(&self, other: &Self) -> bool {
        self.priority == other.priority
    }
}

impl PartialOrd for Handler {
    fn partial_cmp(&self, other: &Self) -> (order: Option<Ordering>) {
        Some(self.cmp(other))
    }
}

impl vstd::std_specs::cmp::PartialOrdSpecImpl for Handler {
    open spec fn obeys_partial_cmp_spec() -> bool {
        true
    }

    open spec fn partial_cmp_spec(&self, other: &Self) -> Option<Ordering> {
        Some(priority_order(self.priority, other.priority))
    }
}

} // verus!
