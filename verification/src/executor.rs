//! The executor: says what carrying out a control command amounts to.

use crate::data_types::ControlCommand;
use crate::text::{decimal, push_decimal, push_ten_thousandths, ten_thousandths_text};
use vstd::prelude::*;
use vstd::string::StringExecFns;

verus! {

/// Carries out control commands.
#[derive(Debug, Clone, Copy, PartialEq, Eq, Structural)]
pub struct Executor {}

/// The line that announces a command, its value written with four places:
/// `[17] Executing PID_OUTPUT command with value: 3.0000`.
pub open spec fn announcement(command: ControlCommand) -> Seq<char> {
    "["@ + decimal(command.timestamp as nat) + "] Executing "@ + command.command_type@
        + " command with value: "@ + ten_thousandths_text(command.value as int)
}

/// The lines that record the execution of a command: the announcement, and
/// the payload if the command has one.
pub open spec fn execution_record(command: ControlCommand) -> Seq<Seq<char>> {
    match command.payload {
        Some(payload) => seq![announcement(command), "Payload: "@ + payload@],
        None => seq![announcement(command)],
    }
}

impl Executor {
    pub fn new() -> Self {
        Executor {  }
    }

    /// Carries out a command and returns the record of it, line by line.
    pub fn execute(&self, command: ControlCommand) -> (record: Vec<String>)
        ensures
            record@.map_values(|line: String| line@) == execution_record(command),
    {
        let mut line = String::from_str("[");
        push_decimal(&mut line, command.timestamp);
        line.append("] Executing ");
        line.append(command.command_type.as_str());
        line.append(" command with value: ");
        push_ten_thousandths(&mut line, command.value);
        let mut record: Vec<String> = Vec::new();
        record.push(line);
        if let Some(payload) = &command.payload {
            let mut second = String::from_str("Payload: ");
            second.append(payload.as_str());
            record.push(second);
        }
        proof {
            assert(record@.map_values(|line: String| line@) =~= execution_record(command));
        }
        record
    }
}

} // verus!
