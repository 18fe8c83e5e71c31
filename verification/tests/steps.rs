use ropp::steps::{
    command_for, first_step, judge, next_step, Command, ExitStatus, RunStepError, StepAction,
    StepOutcome, ARTIFACT_VARIABLE,
};

/// Stands in for the launcher: says what comes of a command by its program.
fn launch(command: &Command) -> StepOutcome {
    match command.program.as_str() {
        "python" => {
            if command.arguments == vec!["./test/exit_42.py".to_string()] {
                StepOutcome::Exited(ExitStatus {
                    success: false,
                    code: Some(42),
                })
            } else {
                StepOutcome::Exited(ExitStatus {
                    success: true,
                    code: Some(0),
                })
            }
        }
        "thisprogramdefinitelydoesntexistalsodogeisfunny" => {
            StepOutcome::NotLaunched("No such file or directory (os error 2)".to_string())
        }
        _ => StepOutcome::Exited(ExitStatus {
            success: true,
            code: Some(0),
        }),
    }
}

/// Runs steps to their end, and keeps the commands that were launched.
fn run_steps(
    steps: &[Vec<&str>],
    relative_path: &str,
    tmp: &str,
    launched: &mut Vec<Command>,
) -> Result<(), RunStepError> {
    let steps: Vec<Vec<String>> = steps
        .iter()
        .map(|steps| steps.iter().map(|s| s.to_string()).collect())
        .collect();
    let mut index = 0;
    let mut action = first_step(&steps, relative_path, tmp);
    loop {
        match action {
            StepAction::Launch(command) => {
                let outcome = launch(&command);
                launched.push(command);
                action = next_step(&steps, index, outcome, relative_path, tmp);
                index += 1;
            }
            StepAction::Finished(result) => return result,
        }
    }
}

#[test]
fn test_run_steps() {
    match run_steps(&[vec!["python", "./test/exit_42.py"]], ".", ".", &mut Vec::new()) {
        Err(RunStepError::BadExit(status)) => {
            assert_eq!(status.code, Some(42))
        }
        _other => {
            panic!("{} test failed! Got {:?} instead", "BadExit", _other);
        }
    }

    match run_steps(
        &[vec!["thisprogramdefinitelydoesntexistalsodogeisfunny"]],
        ".",
        ".",
        &mut Vec::new(),
    ) {
        Err(RunStepError::ExecuteError(_)) => {}
        _other => {
            panic!("{} test failed! Got {:?} instead", "ExecuteError", _other);
        }
    }

    match run_steps(&[vec!["echo"]], ".", ".", &mut Vec::new()) {
        Ok(()) => {}
        _other => {
            panic!("{} test failed! Got {:?} instead", "OK", _other);
        }
    }
}

#[test]
fn artifact_variable_name() {
    assert_eq!(ARTIFACT_VARIABLE, "ROPP_RBXMX");
}

#[test]
fn command_of_a_step() {
    let step: Vec<String> = vec!["lua".into(), "build.lua".into(), "--release".into()];
    let command = command_for(&step, "project", "/tmp/place.rbxmx");
    assert_eq!(
        command,
        Command {
            program: "lua".to_string(),
            arguments: vec!["build.lua".to_string(), "--release".to_string()],
            working_directory: "project".to_string(),
            artifact_path: "/tmp/place.rbxmx".to_string(),
        }
    );

    let alone: Vec<String> = vec!["echo".into()];
    let command = command_for(&alone, ".", "x");
    assert_eq!(command.program, "echo");
    assert!(command.arguments.is_empty());
}

#[test]
fn judging_an_outcome() {
    assert_eq!(
        judge(StepOutcome::Exited(ExitStatus {
            success: true,
            code: Some(0)
        })),
        None
    );
    assert_eq!(
        judge(StepOutcome::Exited(ExitStatus {
            success: false,
            code: Some(42)
        })),
        Some(RunStepError::BadExit(ExitStatus {
            success: false,
            code: Some(42)
        }))
    );
    // Ended by a signal: no code, and no success.
    assert_eq!(
        judge(StepOutcome::Exited(ExitStatus {
            success: false,
            code: None
        })),
        Some(RunStepError::BadExit(ExitStatus {
            success: false,
            code: None
        }))
    );
    assert_eq!(
        judge(StepOutcome::NotLaunched("not found".to_string())),
        Some(RunStepError::ExecuteError("not found".to_string()))
    );
}

#[test]
fn steps_run_in_the_listed_order() {
    let mut launched = Vec::new();
    let result = run_steps(
        &[
            vec!["echo", "one"],
            vec!["echo", "two"],
            vec!["echo", "three"],
        ],
        "dir",
        "tmp",
        &mut launched,
    );
    assert_eq!(result, Ok(()));
    let arguments: Vec<Vec<String>> = launched.iter().map(|c| c.arguments.clone()).collect();
    assert_eq!(
        arguments,
        vec![
            vec!["one".to_string()],
            vec!["two".to_string()],
            vec!["three".to_string()]
        ]
    );
    for command in launched.iter() {
        assert_eq!(command.program, "echo");
        assert_eq!(command.working_directory, "dir");
        assert_eq!(command.artifact_path, "tmp");
    }
}

#[test]
fn no_step_is_launched_behind_a_failure() {
    let mut launched = Vec::new();
    let result = run_steps(
        &[
            vec!["echo", "one"],
            vec!["python", "./test/exit_42.py"],
            vec!["echo", "three"],
        ],
        ".",
        ".",
        &mut launched,
    );
    assert_eq!(
        result,
        Err(RunStepError::BadExit(ExitStatus {
            success: false,
            code: Some(42)
        }))
    );
    assert_eq!(launched.len(), 2);
    assert_eq!(launched[1].program, "python");

    let mut launched = Vec::new();
    let result = run_steps(
        &[
            vec!["thisprogramdefinitelydoesntexistalsodogeisfunny"],
            vec!["echo"],
        ],
        ".",
        ".",
        &mut launched,
    );
    assert_eq!(
        result,
        Err(RunStepError::ExecuteError(
            "No such file or directory (os error 2)".to_string()
        ))
    );
    assert_eq!(launched.len(), 1);
}

#[test]
fn an_empty_list_of_steps_is_done_at_once() {
    let mut launched = Vec::new();
    assert_eq!(run_steps(&[], ".", ".", &mut launched), Ok(()));
    assert!(launched.is_empty());
}

#[test]
fn going_on_behind_the_last_step_ends_the_run() {
    let steps: Vec<Vec<String>> = vec![vec!["echo".to_string()]];
    let ended = StepOutcome::Exited(ExitStatus {
        success: true,
        code: Some(0),
    });
    assert_eq!(
        next_step(&steps, 0, ended, ".", "."),
        StepAction::Finished(Ok(()))
    );
    let ended = StepOutcome::Exited(ExitStatus {
        success: true,
        code: Some(0),
    });
    assert_eq!(
        next_step(&steps, 5, ended, ".", "."),
        StepAction::Finished(Ok(()))
    );
    let ended = StepOutcome::Exited(ExitStatus {
        success: true,
        code: Some(0),
    });
    assert_eq!(
        next_step(&steps, usize::MAX, ended, ".", "."),
        StepAction::Finished(Ok(()))
    );
}
