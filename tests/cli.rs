use rootasrole::cli::{CCommand, Cli, CliError};

#[test]
fn test_parse_args_new_role() {
    let args = Cli::try_parse_from(&[
        "rar", "newrole", "admin", "--user", "user1", "--group", "group1",
    ])
    .unwrap()
    .command;
    let expected_command = Some(CCommand::NewRole {
        role: "admin".to_string(),
        user: Some(["user1".to_string()].to_vec()),
        group: Some(["group1".to_string()].to_vec()),
    });
    assert_eq!(args, expected_command);
}

#[test]
fn test_parse_args_grant() {
    let args = Cli::try_parse_from(&[
        "rar", "grant", "admin", "--user", "user1", "--group", "group1",
    ])
    .unwrap()
    .command;
    let expected_command = Some(CCommand::Grant {
        role: "admin".to_string(),
        user: Some(["user1".to_string()].to_vec()),
        group: Some(["group1".to_string()].to_vec()),
    });
    assert_eq!(args, expected_command);
}

#[test]
fn test_parse_args_revoke() {
    let args = Cli::try_parse_from(&[
        "rar", "revoke", "admin", "--user", "user1", "--group", "group1",
    ])
    .unwrap()
    .command;
    let expected_command = Some(CCommand::Revoke {
        role: "admin".to_string(),
        user: Some(["user1".to_string()].to_vec()),
        group: Some(["group1".to_string()].to_vec()),
    });
    assert_eq!(args, expected_command);
}

#[test]
fn test_parse_args_add_task() {
    let args = Cli::try_parse_from(&[
        "rar", "addtask", "admin", "--withid", "task1", "--cmds", "cmd1", "--caps", "cap1",
    ])
    .unwrap()
    .command;
    let expected_command = Some(CCommand::AddTask {
        role: "admin".to_string(),
        withid: Some("task1".to_string()),
        cmds: Some(["cmd1".to_string()].to_vec()),
        caps: Some("cap1".to_string()),
    });
    assert_eq!(args, expected_command);
}

#[test]
fn test_parse_args_del_task() {
    let args = Cli::try_parse_from(&["rar", "deltask", "admin", "task1"]).unwrap().command;
    let expected_command = Some(CCommand::DelTask {
        role: "admin".to_string(),
        id: "task1".to_string(),
    });
    assert_eq!(args, expected_command);
}

#[test]
fn test_parse_args_del_role() {
    let args = Cli::try_parse_from(&["rar", "delrole", "admin"]).unwrap().command;
    let expected_command = Some(CCommand::DelRole {
        role: "admin".to_string(),
    });
    assert_eq!(args, expected_command);
}

#[test]
fn test_parse_args_list() {
    let args = Cli::try_parse_from(&["rar", "list", "--role", "admin", "--task", "task1"])
        .unwrap()
        .command;
    let expected_command = Some(CCommand::List {
        role: Some("admin".to_string()),
        task: Some("task1".to_string()),
    });
    assert_eq!(args, expected_command);
}

#[test]
fn test_parse_args_import() {
    let args = Cli::try_parse_from(&["rar", "import", "/path/to/file"]).unwrap().command;
    let expected_command = Some(CCommand::Import {
        file: "/path/to/file".to_string(),
    });
    assert_eq!(args, expected_command);
}

#[test]
fn test_parse_args_no_command() {
    let args = Cli::try_parse_from(&["rar"]).unwrap().command;
    let expected_command = None;
    assert_eq!(args, expected_command);
}

#[test]
fn test_parse_args_config() {
    // `--wildcard-denied` takes its value verbatim: the characters given, here `false`.
    let args = Cli::try_parse_from(&[
        "rar",
        "config",
        "--role",
        "admin",
        "--task",
        "task1",
        "--path",
        "/path/to/file",
        "--env-keep",
        "env1",
        "--env-check",
        "env2",
        "--allow-bounding",
        "true",
        "--wildcard-denied",
        "false",
    ])
    .unwrap()
    .command;
    let expected_command = Some(CCommand::Config {
        role: Some("admin".to_string()),
        task: Some("task1".to_string()),
        path: Some("/path/to/file".to_string()),
        env_keep: Some("env1".to_string()),
        env_check: Some("env2".to_string()),
        allow_bounding: Some(true),
        wildcard_denied: Some("false".to_string()),
    });
    assert_eq!(args, expected_command);
}

#[test]
fn config_takes_every_option() {
    let args = Cli::try_parse_from(&[
        "rar",
        "config",
        "-r",
        "admin",
        "-t",
        "task1",
        "--path",
        "/path/to/file",
        "--env-keep",
        "env1",
        "--env-check",
        "env2",
        "--allow-bounding",
        "true",
        "--wildcard-denied",
        ";;",
    ])
    .unwrap()
    .command;
    let expected_command = Some(CCommand::Config {
        role: Some("admin".to_string()),
        task: Some("task1".to_string()),
        path: Some("/path/to/file".to_string()),
        env_keep: Some("env1".to_string()),
        env_check: Some("env2".to_string()),
        allow_bounding: Some(true),
        wildcard_denied: Some(";;".to_string()),
    });
    assert_eq!(args, expected_command);
}

#[test]
fn repeated_multi_options_append() {
    let args = Cli::try_parse_from(&["rar", "newrole", "r", "-u", "a", "-u", "b"])
        .unwrap()
        .command;
    let expected_command = Some(CCommand::NewRole {
        role: "r".to_string(),
        user: Some(vec!["a".to_string(), "b".to_string()]),
        group: None,
    });
    assert_eq!(args, expected_command);
}

#[test]
fn refused_command_lines() {
    assert_eq!(Cli::try_parse_from(&["rar", "frobnicate"]).unwrap_err(), CliError::UnknownCommand);
    assert_eq!(Cli::try_parse_from(&["rar", "list", "--user", "x"]).unwrap_err(), CliError::UnknownArgument);
    assert_eq!(Cli::try_parse_from(&["rar", "list", "--role"]).unwrap_err(), CliError::MissingValue);
    assert_eq!(Cli::try_parse_from(&["rar", "delrole"]).unwrap_err(), CliError::WrongPositionals);
    assert_eq!(
        Cli::try_parse_from(&["rar", "list", "-r", "a", "-r", "b"]).unwrap_err(),
        CliError::Repeated
    );
    assert_eq!(
        Cli::try_parse_from(&["rar", "config", "--allow-bounding", "maybe"]).unwrap_err(),
        CliError::InvalidValue
    );
}

#[test]
fn long_options_take_inline_values() {
    let args = Cli::try_parse_from(&["rar", "list", "--role=admin", "--task", "t=1"])
        .unwrap()
        .command;
    let expected_command = Some(CCommand::List {
        role: Some("admin".to_string()),
        task: Some("t=1".to_string()),
    });
    assert_eq!(args, expected_command);
    assert_eq!(
        Cli::try_parse_from(&["rar", "list", "--user=x"]).unwrap_err(),
        CliError::UnknownArgument
    );
}
