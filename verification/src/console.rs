//! The console session's decisions: the fixed menu text and the mapping from
//! one line of user input to the command it selects. Reading input and
//! printing stay outside the library; only the choices are made here.

use vstd::prelude::*;
use vstd::string::StringExecFns;
use crate::text::str_eq;

verus! {

/// One of the seven menu commands, or an invalid selection.
#[derive(Clone, Copy, PartialEq, Eq, Structural, Debug)]
pub enum Command {
    AddTask,
    FindTask,
    EditTask,
    RemoveTask,
    PrintAll,
    StoreToFile,
    ReadFromFile,
    Invalid,
}

/// Which command a trimmed input line selects: the 1-based menu indices `1`
/// through `7`, and anything else is invalid.
pub open spec fn spec_command(s: Seq<char>) -> Command {
    if s == "1"@ {
        Command::AddTask
    } else if s == "2"@ {
        Command::FindTask
    } else if s == "3"@ {
        Command::EditTask
    } else if s == "4"@ {
        Command::RemoveTask
    } else if s == "5"@ {
        Command::PrintAll
    } else if s == "6"@ {
        Command::StoreToFile
    } else if s == "7"@ {
        Command::ReadFromFile
    } else {
        Command::Invalid
    }
}

/// Reads a command selection from one line of input.
pub fn parse_command(s: &str) -> (c: Command)
    ensures
        c == spec_command(s@),
{
    if str_eq(s, "1") {
        Command::AddTask
    } else if str_eq(s, "2") {
        Command::FindTask
    } else if str_eq(s, "3") {
        Command::EditTask
    } else if str_eq(s, "4") {
        Command::RemoveTask
    } else if str_eq(s, "5") {
        Command::PrintAll
    } else if str_eq(s, "6") {
        Command::StoreToFile
    } else if str_eq(s, "7") {
        Command::ReadFromFile
    } else {
        Command::Invalid
    }
}

/// The menu, one numbered line per command, in the fixed order.
pub open spec fn spec_menu() -> Seq<char> {
    "1. Add task\n2. Find task\n3. Edit task\n4. Remove task\n5. Print all tasks\n6. Store tasks to file\n7. Read tasks from file\n"@
}

/// Renders the fixed menu text.
pub fn render_menu() -> (s: String)
    ensures
        s@ == spec_menu(),
{
    String::from_str(
        "1. Add task\n2. Find task\n3. Edit task\n4. Remove task\n5. Print all tasks\n6. Store tasks to file\n7. Read tasks from file\n",
    )
}

} // verus!
