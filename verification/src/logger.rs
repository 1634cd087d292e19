//! The records that the supervisor logs, and the output lines of children.
use vstd::prelude::*;

verus! {

/// The severity of a log record.
#[derive(Debug, Clone, Copy, PartialEq, Eq, Structural)]
pub enum Level {
    Error,
    Warn,
    Info,
    Debug,
    Trace,
}

/// The actor that writes the log: children's output and the supervisor's own records.
#[derive(Debug)]
pub struct LoggerActor;

/// Which output stream of a child a line came from.
#[derive(Debug, Copy, Clone, PartialEq, Eq, Structural)]
pub enum IOType {
    Stdout,
    Stderr,
}

/// One line of a child's output.
#[derive(Debug)]
pub struct ChildOutput {
    pub name: String,
    pub ty: IOType,
    pub data: String,
}

/// Asks the logger to follow a stream of child output.
#[derive(Debug)]
pub struct RegisterStdio<S>(pub S);

/// A record to log under a program's name.
#[derive(Debug)]
pub struct Custom {
    pub level: Level,
    pub name: String,
    pub data: String,
}

impl Custom {
    /// A warning under `name`.
    pub fn new(name: String, data: String) -> (c: Self)
        ensures
            c.level == Level::Warn,
            c.name == name,
            c.data == data,
    {
        Self::new_with_level(Level::Warn, name, data)
    }

    /// A record of the given level under `name`.
    pub fn new_with_level(level: Level, name: String, data: String) -> (c: Self)
        ensures
            c.level == level,
            c.name == name,
            c.data == data,
    {
        Self { level, name, data }
    }
}

/// The level at which a line of child output is logged.
pub open spec fn output_level(ty: IOType) -> Level {
    match ty {
        IOType::Stdout => Level::Info,
        IOType::Stderr => Level::Warn,
    }
}

impl LoggerActor {
    /// The record under which a line of child output is logged: standard
    /// output as information, standard error as a warning.
    pub fn record_of(item: ChildOutput) -> (c: Custom)
        ensures
            c.level == output_level(item.ty),
            c.name == item.name,
            c.data == item.data,
    {
        let level = match item.ty {
            IOType::Stdout => Level::Info,
            IOType::Stderr => Level::Warn,
        };
        Custom::new_with_level(level, item.name, item.data)
    }
}

} // verus!
