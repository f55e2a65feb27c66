//! One parsed instruction and its dispatch: a command pipeline to run, or a
//! setting to apply to the configuration.

use vstd::prelude::*;

use crate::config::Config;
use crate::instruction_output::InstructionOutput;
use crate::received_command::{pipeline_of, stage_models_of, PipelineStage, ReceivedCommand};
use crate::received_setting::{
    applied_config, confirmation_of, setting_result, ReceivedSetting, SettingError, SettingModel,
};
use crate::text::{join_space, split_tokens};

verus! {

/// The spec-level image of an [`Executable`].
pub enum InstructionModel {
    Command(Seq<char>),
    Setting(SettingModel),
}

/// One instruction, ready to execute.
pub enum Executable {
    Command(ReceivedCommand),
    Setting(ReceivedSetting),
}

impl View for Executable {
    type V = InstructionModel;

    open spec fn view(&self) -> InstructionModel {
        match self {
            Executable::Command(c) => InstructionModel::Command(c@),
            Executable::Setting(s) => InstructionModel::Setting(s@),
        }
    }
}

/// The instruction a raw line decodes to: the first whitespace token selects
/// the mode, the rest are rejoined with single spaces; anything unrecognized,
/// an empty line, or a bare `set` degrades to the empty command.
pub open spec fn instruction_of(s: Seq<char>) -> InstructionModel {
    let parts = split_tokens(s);
    if parts.len() == 0 {
        InstructionModel::Command(Seq::empty())
    } else if parts[0] == "cmd"@ {
        InstructionModel::Command(join_space(parts.drop_first()))
    } else if parts[0] == "set"@ {
        if parts.len() >= 2 {
            InstructionModel::Setting(
                SettingModel { key: parts[1], value: join_space(parts.skip(2)) },
            )
        } else {
            InstructionModel::Command(Seq::empty())
        }
    } else {
        InstructionModel::Command(Seq::empty())
    }
}

/// What the agent must do next for one instruction: write a response that is
/// already complete, or run a pipeline and respond with its output.
pub enum DispatchAction {
    Respond(InstructionOutput),
    RunPipeline(Vec<PipelineStage>),
}

impl Executable {
    /// Decides one instruction. A setting is applied to the configuration
    /// here, yielding its confirmation or its rejection; a command leaves
    /// the configuration alone and yields the pipeline stages for the
    /// caller to spawn.
    pub fn execute(&self, config: &mut Config) -> (r: Result<DispatchAction, SettingError>)
        ensures
            self matches Executable::Command(c) ==> *final(config) == *old(config) && (r matches
                Ok(a) && a matches DispatchAction::RunPipeline(st) && stage_models_of(st@)
                == pipeline_of(c@) && st@.len() >= 1),
            self matches Executable::Setting(s) ==> {
                &&& final(config)@ == applied_config(s@.key, s@.value, old(config)@)
                &&& setting_result(s@.key, s@.value) is Ok ==> (r matches Ok(a) && a matches
                    DispatchAction::Respond(out) && out.output@ == confirmation_of(
                    s@.key,
                    s@.value,
                ))
                &&& setting_result(s@.key, s@.value) is Err ==> (r matches Err(e) && e
                    == setting_result(s@.key, s@.value)->Err_0 && *final(config) == *old(config))
            },
    {
        match self {
            Executable::Command(command) => Ok(DispatchAction::RunPipeline(command.parse())),
            Executable::Setting(setting) => match setting.apply(config) {
                Ok(out) => Ok(DispatchAction::Respond(out)),
                Err(e) => Err(e),
            },
        }
    }
}

} // verus!
