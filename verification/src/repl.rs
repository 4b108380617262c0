//! The interactive command loop's core: the machine it drives, the history
//! it keeps, and the classification of a typed command line.  Reading and
//! printing stay with the caller; this module only decides.

use crate::vm::VM;
use crate::vm::initial_state;
use vstd::prelude::*;

verus! {

/// What a typed command line asks the shell to do.
#[derive(Debug, Clone, Copy, PartialEq, Eq, Structural)]
pub enum ReplCommand {
    /// Leave the shell.
    Quit,
    /// List every command entered so far.
    History,
    /// List the bytes of the loaded program.
    Program,
    /// List the register bank's contents.
    Registers,
    /// Anything else: not a recognised command.
    Unknown,
}

/// The bytes of the command word `.quit`.
pub open spec fn quit_word() -> Seq<u8> {
    seq![46u8, 113u8, 117u8, 105u8, 116u8]
}

/// The bytes of the command word `.history`.
pub open spec fn history_word() -> Seq<u8> {
    seq![46u8, 104u8, 105u8, 115u8, 116u8, 111u8, 114u8, 121u8]
}

/// The bytes of the command word `.program`.
pub open spec fn program_word() -> Seq<u8> {
    seq![46u8, 112u8, 114u8, 111u8, 103u8, 114u8, 97u8, 109u8]
}

/// The bytes of the command word `.registers`.
pub open spec fn registers_word() -> Seq<u8> {
    seq![46u8, 114u8, 101u8, 103u8, 105u8, 115u8, 116u8, 101u8, 114u8, 115u8]
}

/// Which command a trimmed line of input names, `Unknown` for all others.
pub open spec fn classify_spec(line: Seq<u8>) -> ReplCommand {
    if line == quit_word() {
        ReplCommand::Quit
    } else if line == history_word() {
        ReplCommand::History
    } else if line == program_word() {
        ReplCommand::Program
    } else if line == registers_word() {
        ReplCommand::Registers
    } else {
        ReplCommand::Unknown
    }
}

/// Classify a trimmed command line's bytes.
pub fn classify_command(line: &[u8]) -> (c: ReplCommand)
    ensures
        c == classify_spec(line@),
{
    if line.len() == 5 && line[0] == 46 && line[1] == 113 && line[2] == 117 && line[3] == 105
        && line[4] == 116 {
        proof {
            assert(line@ =~= quit_word());
        }
        return ReplCommand::Quit;
    }
    if line.len() == 8 && line[0] == 46 && line[1] == 104 && line[2] == 105 && line[3] == 115
        && line[4] == 116 && line[5] == 111 && line[6] == 114 && line[7] == 121 {
        proof {
            assert(line@ =~= history_word());
        }
        return ReplCommand::History;
    }
    if line.len() == 8 && line[0] == 46 && line[1] == 112 && line[2] == 114 && line[3] == 111
        && line[4] == 103 && line[5] == 114 && line[6] == 97 && line[7] == 109 {
        proof {
            assert(line@ =~= program_word());
        }
        return ReplCommand::Program;
    }
    if line.len() == 10 && line[0] == 46 && line[1] == 114 && line[2] == 101 && line[3] == 103
        && line[4] == 105 && line[5] == 115 && line[6] == 116 && line[7] == 101 && line[8] == 114
        && line[9] == 115 {
        proof {
            assert(line@ =~= registers_word());
        }
        return ReplCommand::Registers;
    }
    ReplCommand::Unknown
}

/// The interactive shell around a [`VM`]: the machine and the history of
/// commands typed so far.
pub struct REPL {
    /// Every line the user has entered, oldest first.
    pub command_buffer: Vec<String>,
    /// The machine the shell drives.
    pub vm: VM,
}

impl REPL {
    /// A fresh shell around a fresh machine, with an empty history.
    pub fn new() -> (r: REPL)
        ensures
            r.vm@ == initial_state(),
            r.command_buffer@.len() == 0,
    {
        REPL { vm: VM::new(), command_buffer: Vec::new() }
    }

    /// Record a typed line in the history.
    pub fn record_command(&mut self, line: String)
        ensures
            final(self).command_buffer@ == old(self).command_buffer@.push(line),
            final(self).vm == old(self).vm,
    {
        self.command_buffer.push(line);
    }
}

} // verus!
