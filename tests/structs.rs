use rootasrole::capabilities::Caps;
use rootasrole::options::{Level, Opt};
use rootasrole::structs::{Groups, IdTask, Role, Roles, Task};

#[test]
fn test_get_empty_description() {
    let role = Role::new("test_role".to_string());
    assert_eq!(role.get_description(), "Users:\n()\nGroups:\n()\nTasks:\n\n");
    let task = Task::new(IdTask::Number(0), 0);
    assert_eq!(task.get_description(), "Commands:\n\n");
}

#[test]
fn test_get_description() {
    let mut task = Task::new(IdTask::Number(0), 0);
    task.commands.push("ls".to_string());
    task.commands.push("another".to_string());
    task.purpose = Some("thepurpose".to_string());
    task.setuid = Some("thesetuid".to_string());
    task.setgid = Some(vec!["thesetgid".to_string(), "thesecondsetgid".to_string()].into());
    task.capabilities = Some(Caps::V2(3));
    let mut opt = Opt::new(Level::Task);
    opt.path = Some("thepath".to_string());
    opt.disable_bounding = Some(false);
    opt.allow_root = Some(true);
    opt.wildcard_denied = Some("thewildcard-denied".to_string());
    opt.env_checklist = Some("thechecklist".to_string());
    opt.env_whitelist = Some("thewhitelist".to_string());
    task.options = Some(opt);
    let desc = task.get_description();
    println!("{}", desc);
    assert!(desc.contains("ls\nanother\n"));
    assert!(desc.contains("thepurpose"));
    assert!(desc.contains("thesetuid"));
    assert!(desc.contains("thesetgid"));
    assert!(desc.contains("thesecondsetgid"));
    assert!(desc.contains(&Caps::V2(3).to_string()));
    assert!(desc.contains("Options"));
    assert!(desc.contains("thepath"));
    assert!(desc.contains("thewildcard-denied"));
    assert!(desc.contains("thechecklist"));
    assert!(desc.contains("thewhitelist"));
    assert!(desc.contains("No root: true"));
    assert!(desc.contains("Bounding: false"));
}

#[test]
fn test_idtask() {
    let id = IdTask::Number(0);
    assert_eq!(id.to_string(), "Task #0");
    let id = IdTask::Name("test".to_string());
    assert_eq!(id.to_string(), "test");
    let id: IdTask = "test".to_string().into();
    assert_eq!(id.into_string(), "test");
}

#[test]
fn idtask_numbers_and_names_never_equal() {
    assert!(IdTask::Number(12) != IdTask::Name("12".to_string()));
    assert!(IdTask::Number(12) == IdTask::Number(12));
    assert_eq!(IdTask::Number(120).unwrap(), "120");
    assert_eq!(IdTask::Number(7).to_string(), "Task #7");
}

#[test]
fn role_description_lists_actors_and_tasks() {
    let mut role = Role::new("r".to_string());
    role.users.push("alice".to_string());
    role.users.push("bob".to_string());
    role.groups.push(vec!["a".to_string(), "b".to_string()].into());
    role.groups.push(vec!["c".to_string()].into());
    role.tasks.push(Task::new(IdTask::Name("t".to_string()), 0));
    role.tasks.push(Task::new(IdTask::Number(2), 0));
    assert_eq!(role.get_users_info(), "Users:\n(alice, bob)\n");
    assert_eq!(role.get_groups_info(), "Groups:\n(a & b)\n(c)\n");
    assert_eq!(role.get_tasks_info(), "Tasks:\nt\nTask #2\n");
    assert_eq!(role.get_options_info(), "");
    let mut opt = Opt::new(Level::Role);
    opt.path = Some("/bin".to_string());
    role.options = Some(opt);
    assert_eq!(role.get_options_info(), "Options:\nPath: /bin\n");
}

#[test]
fn long_commands_are_cut_in_descriptions() {
    let mut task = Task::new(IdTask::Number(1), 0);
    let long = "x".repeat(70);
    task.commands.push(long);
    let expected = format!("Commands:\n{}...\n\n", "x".repeat(64));
    assert_eq!(task.get_description(), expected);
}

#[test]
fn remove_task_keeps_other_tasks_in_order() {
    let mut role = Role::new("r".to_string());
    role.tasks.push(Task::new(IdTask::Name("a".to_string()), 0));
    role.tasks.push(Task::new(IdTask::Number(1), 0));
    role.tasks.push(Task::new(IdTask::Name("a".to_string()), 0));
    role.tasks.push(Task::new(IdTask::Name("b".to_string()), 0));
    role.remove_task(IdTask::Name("a".to_string()));
    assert_eq!(role.tasks.len(), 2);
    assert!(role.tasks[0].id == IdTask::Number(1));
    assert!(role.tasks[1].id == IdTask::Name("b".to_string()));
}

#[test]
fn roles_lookup_by_name() {
    let mut roles = Roles::new("1.0");
    roles.roles.push(Role::new("a".to_string()));
    roles.roles.push(Role::new("b".to_string()));
    assert_eq!(roles.get_role("b"), Some(1));
    assert_eq!(roles.get_role("c"), None);
    assert_eq!(roles.get_roles_names(), vec!["a".to_string(), "b".to_string()]);
    assert!(roles.roles[0].get_task_from_index(&0).is_none());
}

#[test]
fn groups_join_in_order() {
    let g: Groups = vec!["x".to_string(), "y".to_string()].into();
    assert_eq!(g.join(","), "x,y");
}
