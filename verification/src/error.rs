//! What can go wrong while handlers and plugins are loaded and called.

use vstd::prelude::*;

verus! {

/// A field that a handler script must expose.
#[derive(Debug, Clone, Copy, PartialEq, Eq, Structural)]
pub enum Field {
    Parse,
    Fetch,
    Info,
    Name,
    Priority,
}

/// A handler or plugin file is malformed. Discovery skips such a file.
#[derive(Debug, Clone, Copy, PartialEq, Eq, Structural)]
pub enum LoadError {
    /// The file could not be read.
    Unreadable,
    /// The script did not evaluate to a table.
    Evaluation,
    /// The table that the script evaluated to lacks a field.
    Missing(Field),
    /// No name could be derived from the path of the module.
    Unnamed,
    /// No engine could be set up for the module.
    Engine,
    /// The file is no valid module.
    InvalidModule,
    /// The module asks for more than a plugin is given.
    InterfaceMismatch,
}

/// A loaded handler failed during a call. The identifier is dropped.
#[derive(Debug, Clone, Copy, PartialEq, Eq, Structural)]
pub enum HandlerError {
    /// The script raised an error.
    Script,
    /// The script replied with a value of the wrong shape.
    Reply,
    /// The reply cannot be written as a record.
    Record,
}

/// A loaded plugin failed during a call.
#[derive(Debug, Clone, Copy, PartialEq, Eq, Structural)]
pub enum CallError {
    /// No fresh instance could be made.
    Instantiation,
    /// The module exports no function under the plugin's name.
    MissingEntryPoint,
    /// The call trapped or was refused.
    Trap,
}

} // verus!
