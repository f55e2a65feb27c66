use cute_rat::config::{Config, Period, ServerInfo, TimeUnit};
use cute_rat::instruction::{DispatchAction, Executable};
use cute_rat::instruction_factory;
use cute_rat::instruction_output::InstructionOutput;

fn default_config() -> Config {
    Config::new(
        ServerInfo::new("127.0.0.1", 6247),
        1000,
        Period::new(1, TimeUnit::Seconds),
        false,
    )
}

#[test]
fn test_factory_command_rejoins_tokens() {
    let executable = instruction_factory("cmd   ls    -l | grep  test");
    match executable {
        Executable::Command(command) => {
            let stages = command.parse();
            assert_eq!(stages.len(), 2);
            assert_eq!(stages[0].program, "ls");
            assert_eq!(stages[0].args, &["-l"]);
            assert_eq!(stages[1].program, "grep");
            assert_eq!(stages[1].args, &["test"]);
        }
        Executable::Setting(_) => panic!("a cmd line must decode to a command"),
    }
}

#[test]
fn test_factory_setting_key_and_value() {
    let mut config = default_config();
    let executable = instruction_factory("set period 5 m");
    match executable.execute(&mut config) {
        Ok(DispatchAction::Respond(output)) => {
            assert_eq!(output.output, "Setting period to 5 m\n");
            assert_eq!(config.request_period.to_duration().as_secs(), 300);
        }
        _ => panic!("a valid setting must yield its confirmation"),
    }
}

#[test]
fn test_factory_unknown_mode_degrades_to_empty_command() {
    for line in ["", "   ", "launch the rockets", "set"] {
        let executable = instruction_factory(line);
        match executable {
            Executable::Command(command) => {
                let stages = command.parse();
                assert_eq!(stages.len(), 1);
                assert_eq!(stages[0].program, "");
                assert_eq!(stages[0].args.len(), 0);
            }
            Executable::Setting(_) => panic!("these lines must degrade to the empty command"),
        }
    }
}

#[test]
fn test_factory_bare_set_key_gets_empty_value() {
    let mut config = default_config();
    let executable = instruction_factory("set timeout");
    match executable.execute(&mut config) {
        Err(_) => {
            assert_eq!(config.timeout, 1000);
        }
        Ok(_) => panic!("an empty timeout value must be rejected"),
    }
}

#[test]
fn test_execute_command_yields_stages_and_keeps_config() {
    let mut config = default_config();
    let executable = instruction_factory("cmd echo hi | wc -c");
    match executable.execute(&mut config) {
        Ok(DispatchAction::RunPipeline(stages)) => {
            assert_eq!(stages.len(), 2);
            assert_eq!(stages[0].program, "echo");
            assert_eq!(stages[0].args, &["hi"]);
            assert_eq!(stages[1].program, "wc");
            assert_eq!(stages[1].args, &["-c"]);
        }
        _ => panic!("a command must yield its pipeline"),
    }
    assert_eq!(config.timeout, 1000);
    assert_eq!(config.server.address, "127.0.0.1");
}

#[test]
fn test_factory_bare_cmd_gives_empty_command() {
    let executable = instruction_factory("cmd");
    match executable {
        Executable::Command(command) => {
            let stages = command.parse();
            assert_eq!(stages.len(), 1);
            assert_eq!(stages[0].program, "");
            assert_eq!(stages[0].args.len(), 0);
        }
        Executable::Setting(_) => panic!("a bare cmd must decode to the empty command"),
    }
}

#[test]
fn test_execute_setting_silent_through_dispatch() {
    let mut config = default_config();
    let executable = instruction_factory("set silent true");
    match executable.execute(&mut config) {
        Ok(DispatchAction::Respond(output)) => {
            assert_eq!(output.output, "Setting silent to true\n");
            assert!(config.silent_mode);
        }
        _ => panic!("a valid silent setting must yield its confirmation"),
    }
}

#[test]
fn test_execute_unknown_key_confirms_without_change() {
    let mut config = default_config();
    let executable = instruction_factory("set lights off");
    match executable.execute(&mut config) {
        Ok(DispatchAction::Respond(output)) => {
            assert_eq!(output.output, "Setting lights to off\n");
            assert_eq!(config.timeout, 1000);
            assert!(!config.silent_mode);
        }
        _ => panic!("an unrecognized key must be accepted as a no-op"),
    }
}

#[test]
fn test_success_output_format() {
    let output = InstructionOutput::from_streams("file_one\nfile_two\n", "");

    assert_eq!(output.output, "\nfile_one\nfile_two\n\n\n");

    let output = InstructionOutput::from_streams("out", "err");

    assert_eq!(output.output, "\nout\nerr\n");
}

#[test]
fn test_error_output_format() {
    let output = InstructionOutput::from_error_text("No such file or directory (os error 2)");

    assert_eq!(output.output, "No such file or directory (os error 2)\n");
}
