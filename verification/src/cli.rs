use vstd::prelude::*;

verus! {

/// The command-line surface of the tool. Argument parsing itself is the
/// front end's business; these carry the parsed values.
#[derive(Debug, Clone)]
pub struct Cli {
    pub command: Commands,
}

#[derive(Debug, Clone)]
pub enum Commands {
    File(FileArgs),
    Todo(TodoArgs),
    Inspect(InspectArgs),
}

/// Arguments of the inspect command.
#[derive(Debug, Clone)]
pub struct InspectArgs {
    pub desc: bool,
    pub row_count: bool,
    pub null_count: Option<String>,
    pub file: String,
}

/// Arguments of the file command.
#[derive(Debug, Clone)]
pub struct FileArgs {
    pub info: bool,
    pub lines: bool,
    pub size: bool,
    pub head: Option<usize>,
    pub file: String,
}

/// Arguments of the todo command.
#[derive(Debug, Clone)]
pub struct TodoArgs {
    pub add: Option<String>,
    pub list: bool,
    pub done: Option<usize>,
    pub remove: Option<usize>,
}

} // verus!
