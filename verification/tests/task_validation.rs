use meriadoc::task_spec::{AuditSpec, ConditionSpec, EnvMap, EnvVarSpec, TaskSpec, VarType};
use meriadoc::validation::{ConditionValidator, EnvironmentValidator, TaskValidator, ValidationError};

fn make_task(cmds: Vec<&str>) -> TaskSpec {
    TaskSpec {
        description: None,
        cmds: cmds.into_iter().map(|s| s.to_string()).collect(),
        workdir: None,
        env: EnvMap::new(),
        env_files: vec![],
        preconditions: vec![],
        on_failure: None,
        docs: None,
        agent: None,
        audit: None,
    }
}

#[test]
fn test_valid_task() {
    let task = make_task(vec!["echo hello", "echo world"]);
    let result = TaskValidator::validate("my_task", &task);
    assert!(result.is_ok());
}

#[test]
fn test_single_command_valid() {
    let task = make_task(vec!["echo hello"]);
    let result = TaskValidator::validate("my_task", &task);
    assert!(result.is_ok());
}

#[test]
fn test_empty_cmds_error() {
    let task = make_task(vec![]);
    let result = TaskValidator::validate("my_task", &task);

    assert!(!result.is_ok());
    let errors = result.errors();
    assert!(errors
        .iter()
        .any(|e| matches!(&e.error, ValidationError::EmptyTask { task } if task == "my_task")));
}

#[test]
fn test_empty_command_string_error() {
    let task = make_task(vec!["echo hello", "", "echo world"]);
    let result = TaskValidator::validate("my_task", &task);

    assert!(!result.is_ok());
    let errors = result.errors();
    assert!(errors.iter().any(
        |e| matches!(&e.error, ValidationError::EmptyCommandTask { task } if task == "my_task")
    ));
}

#[test]
fn test_whitespace_only_command_error() {
    let task = make_task(vec!["echo hello", "   ", "echo world"]);
    let result = TaskValidator::validate("my_task", &task);

    assert!(!result.is_ok());
}

#[test]
fn test_task_with_invalid_env() {
    let mut task = make_task(vec!["echo hello"]);
    task.env.insert(
        "BAD_VAR".to_string(),
        EnvVarSpec {
            var_type: VarType::Choice, // Choice without options is invalid
            default: None,
            options: vec![],
            required: false,
        },
    );

    let result = TaskValidator::validate("my_task", &task);
    assert!(!result.is_ok());
}

#[test]
fn test_task_with_valid_env() {
    let mut task = make_task(vec!["echo $MY_VAR"]);
    task.env.insert(
        "MY_VAR".to_string(),
        EnvVarSpec {
            var_type: VarType::String,
            default: Some("default".to_string()),
            options: vec![],
            required: false,
        },
    );

    let result = TaskValidator::validate("my_task", &task);
    assert!(result.is_ok());
}

#[test]
fn test_task_with_preconditions() {
    let mut task = make_task(vec!["echo main"]);
    task.preconditions.push(ConditionSpec {
        cmds: vec!["test -f file.txt".to_string()],
        on_failure: None,
    });

    let result = TaskValidator::validate("my_task", &task);
    assert!(result.is_ok());
}

#[test]
fn test_task_with_empty_precondition_cmd() {
    let mut task = make_task(vec!["echo main"]);
    task.preconditions.push(ConditionSpec {
        cmds: vec!["".to_string()], // Empty command in precondition
        on_failure: None,
    });

    let result = TaskValidator::validate("my_task", &task);
    assert!(!result.is_ok());
}

#[test]
fn test_audit_log_env_unknown_var_errors() {
    let mut task = make_task(vec!["echo hello"]);
    task.audit = Some(AuditSpec {
        log_env: vec!["NOT_DECLARED".to_string()],
    });

    let result = TaskValidator::validate("my_task", &task);
    assert!(!result.is_ok());
    let errors = result.errors();
    assert!(errors.iter().any(|e| matches!(
        &e.error,
        ValidationError::AuditLogEnvUnknownVar { task, var }
            if task == "my_task" && var == "NOT_DECLARED"
    )));
}

#[test]
fn test_audit_log_env_secret_var_errors() {
    let mut task = make_task(vec!["echo hello"]);
    task.env.insert(
        "API_KEY".to_string(),
        EnvVarSpec {
            var_type: VarType::Secret,
            default: None,
            options: vec![],
            required: true,
        },
    );
    task.audit = Some(AuditSpec {
        log_env: vec!["API_KEY".to_string()],
    });

    let result = TaskValidator::validate("my_task", &task);
    assert!(!result.is_ok());
    let errors = result.errors();
    assert!(errors.iter().any(|e| matches!(
        &e.error,
        ValidationError::AuditLogEnvIsSecret { task, var }
            if task == "my_task" && var == "API_KEY"
    )));
}

#[test]
fn test_audit_log_env_valid_var_ok() {
    let mut task = make_task(vec!["echo hello"]);
    task.env.insert(
        "QUERY".to_string(),
        EnvVarSpec {
            var_type: VarType::String,
            default: None,
            options: vec![],
            required: true,
        },
    );
    task.audit = Some(AuditSpec {
        log_env: vec!["QUERY".to_string()],
    });

    let result = TaskValidator::validate("my_task", &task);
    assert!(result.is_ok());
}

fn choice(options: Vec<&str>) -> EnvVarSpec {
    EnvVarSpec {
        var_type: VarType::Choice,
        default: None,
        options: options.into_iter().map(|s| s.to_string()).collect(),
        required: false,
    }
}

#[test]
fn reports_every_problem_in_order_with_its_context() {
    let mut task = make_task(vec!["", "echo ok", "\t \n"]);
    task.env.insert("MODE".to_string(), choice(vec![]));
    task.env.insert("LEVEL".to_string(), choice(vec!["a", "b"]));
    task.preconditions.push(ConditionSpec {
        cmds: vec!["true".to_string(), " ".to_string()],
        on_failure: None,
    });
    task.audit = Some(AuditSpec {
        log_env: vec!["MISSING".to_string(), "LEVEL".to_string()],
    });

    let issues = TaskValidator::validate("deploy", &task).into_errors();
    let contexts: Vec<&str> = issues.iter().map(|i| i.context.as_str()).collect();
    assert_eq!(
        contexts,
        vec![
            "task 'deploy'",
            "task 'deploy'",
            "task 'deploy'",
            "task 'deploy' precondition",
            "task 'deploy'",
        ]
    );
    assert!(matches!(&issues[0].error, ValidationError::EmptyCommandTask { task } if task == "deploy"));
    assert!(matches!(&issues[1].error, ValidationError::EmptyCommandTask { task } if task == "deploy"));
    assert!(matches!(&issues[2].error, ValidationError::ChoiceWithoutOptions { var } if var == "MODE"));
    assert!(matches!(&issues[3].error, ValidationError::EmptyConditionCommand));
    assert!(matches!(
        &issues[4].error,
        ValidationError::AuditLogEnvUnknownVar { task, var } if task == "deploy" && var == "MISSING"
    ));
}

#[test]
fn empty_task_reports_only_the_missing_commands() {
    let task = make_task(vec![]);
    let issues = TaskValidator::validate("t", &task).into_errors();
    assert_eq!(issues.len(), 1);
    assert_eq!(issues[0].context, "task 't'");
}

#[test]
fn unicode_whitespace_command_is_blank() {
    let task = make_task(vec!["\u{3000}\u{a0}"]);
    assert!(!TaskValidator::validate("x", &task).is_ok());
    let task = make_task(vec![" a "]);
    assert!(TaskValidator::validate("x", &task).is_ok());
}

#[test]
fn environment_validator_reports_choice_without_options() {
    let mut env = EnvMap::new();
    env.insert("A".to_string(), choice(vec![]));
    env.insert("B".to_string(), choice(vec!["x"]));
    env.insert("C".to_string(), choice(vec![]));
    let issues = EnvironmentValidator::validate_map(&env, &"ctx".to_string()).into_errors();
    assert_eq!(issues.len(), 2);
    assert!(matches!(&issues[0].error, ValidationError::ChoiceWithoutOptions { var } if var == "A"));
    assert!(matches!(&issues[1].error, ValidationError::ChoiceWithoutOptions { var } if var == "C"));
    assert_eq!(issues[1].context, "ctx");
}

#[test]
fn condition_validator_reports_each_blank_command() {
    let condition = ConditionSpec {
        cmds: vec!["".to_string(), "ok".to_string(), "  ".to_string()],
        on_failure: None,
    };
    let issues = ConditionValidator::validate(&condition).into_errors();
    assert_eq!(issues.len(), 2);
    assert_eq!(issues[0].context, "condition");
}

#[test]
fn env_map_insert_replaces_and_keeps_order() {
    let mut env = EnvMap::new();
    assert!(env.insert("A".to_string(), choice(vec![])).is_none());
    assert!(env.insert("B".to_string(), choice(vec!["x"])).is_none());
    let prev = env.insert("A".to_string(), choice(vec!["y", "z"]));
    assert_eq!(prev.map(|p| p.options.len()), Some(0));
    assert_eq!(env.len(), 2);
    assert_eq!(env.entry(0).0, "A");
    assert_eq!(env.get(&"A".to_string()).map(|s| s.options.len()), Some(2));
    assert!(env.get(&"C".to_string()).is_none());
}

#[test]
fn secret_type_is_sensitive() {
    assert!(VarType::Secret.is_sensitive());
    assert!(!VarType::String.is_sensitive());
    assert!(!VarType::Choice.is_sensitive());
}
