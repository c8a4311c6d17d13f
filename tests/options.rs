use rootasrole::options::{Level, Opt, OptStack, OptType, OptValue};
use rootasrole::structs::{IdTask, Role, Roles, Task};

#[test]
fn test_find_in_options() {
    let mut options = OptStack::default();
    options.set_at_level(
        OptType::Path,
        Some(OptValue::String("path1".to_string())),
        Level::Global,
    );
    options.set_at_level(
        OptType::Path,
        Some(OptValue::String("path2".to_string())),
        Level::Role,
    );

    let res = options.find_in_options(|opt| {
        if let Some(value) = opt.path.as_ref() {
            Some((opt.level, value.to_owned()))
        } else {
            None
        }
    });
    assert_eq!(res, Some((Level::Role, "path2".to_string())));
}

fn tree() -> Roles {
    let mut roles = Roles::new("1");
    let mut global = Opt::new(Level::Global);
    global.path = Some("/usr/bin:/bin".to_string());
    roles.options = Some(global);
    let mut role = Role::new("r".to_string());
    let mut task = Task::new(IdTask::Name("t".to_string()), 0);
    let mut topt = Opt::new(Level::Task);
    topt.path = Some("/opt/bin".to_string());
    task.options = Some(topt);
    role.tasks.push(task);
    roles.roles.push(role);
    roles
}

#[test]
fn path_resolves_per_position() {
    let roles = tree();
    let at_task = OptStack::from_task(&roles, &0, &0);
    assert_eq!(at_task.get_path(), (Level::Task, "/opt/bin".to_string()));
    let at_role = OptStack::from_role(&roles, &0);
    assert_eq!(at_role.get_path(), (Level::Global, "/usr/bin:/bin".to_string()));
}

#[test]
fn unset_fields_fall_back_to_the_builtin_block() {
    let roles = tree();
    let st = OptStack::from_task(&roles, &0, &0);
    assert_eq!(st.get_no_root(), (Level::Default, true));
    assert_eq!(st.get_bounding(), (Level::Default, true));
    assert_eq!(st.get_wildcard_denied(), (Level::Default, ";&|".to_string()));
    assert_eq!(st.get_env_checklist().1, "COLORTERM,LANG,LANGUAGE,LC_*,LINGUAS,TERM,TZ");
    assert_eq!(st.get_level(), Level::Task);
}

#[test]
fn set_value_writes_at_the_bound_level_and_reads_back() {
    let mut roles = tree();
    roles.roles[0].tasks[0].options = None;
    let mut st = OptStack::from_task(&roles, &0, &0);
    assert_eq!(st.get_level(), Level::Task);
    st.set_value(OptType::NoRoot, Some(OptValue::Bool(false)));
    assert_eq!(st.get_no_root(), (Level::Task, false));
    st.set_value(OptType::Path, Some(OptValue::String("/x".to_string())));
    let (level, value) = st.get_from_type(OptType::Path);
    assert_eq!(level, Level::Task);
    assert_eq!(value.to_string(), "/x");
    let v = st.get_from_level(Level::Global, OptType::Path).unwrap();
    assert_eq!(v.to_string(), "/usr/bin:/bin");
    st.set_value(OptType::Path, Some(OptValue::Bool(true)));
    assert_eq!(st.get_path().1, "/x");
}

#[test]
fn opt_type_indices() {
    for i in 0..6 {
        assert_eq!(OptType::from_index(i).as_index(), i);
    }
    let items = OptType::item_list_str();
    assert_eq!(items.len(), 6);
    assert_eq!(items[0].1, "Path");
    assert!(OptValue::Bool(true).as_bool());
}

#[test]
fn empty_stack_resolves_to_defaults_at_unset() {
    let mut st = OptStack::default();
    st.stack[1] = Some(Opt::new(Level::Default));
    assert_eq!(st.get_path(), (Level::Unset, String::new()));
    assert_eq!(st.get_no_root(), (Level::Unset, true));
}

#[test]
fn default_block_description() {
    let d = Opt::default();
    let text = d.get_description();
    assert!(text.starts_with("Path: /usr/local/sbin:"));
    assert!(text.contains("No root: true\n"));
    assert!(text.ends_with("Wildcard denied: ;&|\n"));
}

#[test]
fn global_stack_and_write_back() {
    let mut roles = tree();
    let global = OptStack::from_roles(&roles);
    assert_eq!(global.get_level(), Level::Global);
    assert_eq!(global.get_path(), (Level::Global, "/usr/bin:/bin".to_string()));
    let mut st = OptStack::from_task(&roles, &0, &0);
    st.set_value(OptType::Wildcard, Some(OptValue::String(";".to_string())));
    let top = st.stack[4].as_ref().unwrap().duplicate();
    roles.set_task_options(0, 0, &top);
    let again = OptStack::from_task(&roles, &0, &0);
    assert_eq!(again.get_wildcard_denied(), (Level::Task, ";".to_string()));
    assert_eq!(again.get_path(), (Level::Task, "/opt/bin".to_string()));
    assert!(roles.roles[0].tasks[0].id.is_name());
    assert!(!IdTask::Number(3).is_name());
}
