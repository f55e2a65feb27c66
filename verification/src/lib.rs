//! Instruction engine for a polling remote-execution agent.
//!
//! The agent reads one textual instruction per connection: either a shell
//! command pipeline (`cmd ls -l | grep x`) or a runtime configuration change
//! (`set period 5 m`). This crate holds the verified core: decoding the
//! instruction, building the pipeline stages, validating and applying
//! settings to the configuration, and formatting the response text. The
//! surrounding process work (sockets, spawning, stream capture) stays
//! outside the library and acts only on the plain values exchanged here.

use vstd::prelude::*;

pub mod config;
pub mod instruction;
pub mod instruction_output;
pub mod received_command;
pub mod received_setting;
pub mod text;

use crate::instruction::{instruction_of, Executable};
use crate::received_command::ReceivedCommand;
use crate::received_setting::ReceivedSetting;
use crate::text::{str_eq, views_of};

verus! {

/// Decodes one raw instruction line into an [`Executable`].
///
/// The first whitespace token selects the mode: `cmd` yields a command built
/// from the remaining tokens rejoined with single spaces, `set` yields a
/// setting with the second token as key and the rest rejoined as value.
/// Anything else, an empty line, or a bare `set` degrades to the empty
/// command rather than failing.
pub fn instruction_factory(instruction: &str) -> (r: Executable)
    ensures
        r@ == instruction_of(instruction@),
{
    let parts = crate::text::split_whitespace_str(instruction);
    if parts.len() == 0 {
        return Executable::Command(ReceivedCommand::from_string(String::new()));
    }
    if str_eq(parts[0].as_str(), "cmd") {
        let rest = crate::text::join_with_spaces(&parts, 1);
        proof {
            assert(views_of(parts@).subrange(1, parts@.len() as int) =~= crate::text::split_tokens(
                instruction@,
            ).drop_first());
        }
        return Executable::Command(ReceivedCommand::from_string(rest));
    }
    if str_eq(parts[0].as_str(), "set") {
        if parts.len() >= 2 {
            let key = parts[1].clone();
            let value = crate::text::join_with_spaces(&parts, 2);
            proof {
                assert(views_of(parts@).subrange(2, parts@.len() as int)
                    =~= crate::text::split_tokens(instruction@).skip(2));
            }
            return Executable::Setting(ReceivedSetting::from_string(key, value));
        }
        return Executable::Command(ReceivedCommand::from_string(String::new()));
    }
    Executable::Command(ReceivedCommand::from_string(String::new()))
}

} // verus!
