use rootasrole::capabilities::{Caps, CapsError};
use rootasrole::env::{check_var, filter_env_vars, final_env, list_names, tz_is_safe};
use rootasrole::finder::{glob_match, match_all, match_first, match_in_role, Cred, MatchError};
use rootasrole::options::{Level, Opt, OptStack};
use rootasrole::structs::{Groups, IdTask, Role, Roles, Task};
use rootasrole::text::chars_of;
use rootasrole::transition::{plan, Step};
use rootasrole::xml::{setuid_xml_str, sxd_sanitize, ToXml};

#[test]
fn caps_text_round_trip_is_canonical() {
    let a = Caps::parse("CAP_SYS_ADMIN,cap_chown").unwrap();
    let b = Caps::parse("cap_chown,Cap_Sys_Admin").unwrap();
    assert_eq!(a, b);
    assert_eq!(a.to_string(), "cap_chown,cap_sys_admin");
    assert_eq!(Caps::parse(&a.to_string()).unwrap(), a);
    assert_eq!(a.as_u64(), (1u64 << 21) | 1);
}

#[test]
fn caps_parse_edges() {
    assert_eq!(Caps::parse("").unwrap(), Caps::V2(0));
    assert_eq!(Caps::V2(0).to_string(), "");
    assert_eq!(Caps::parse("cap1"), Err(CapsError::UnknownCapability));
    assert_eq!(Caps::parse("cap_chown,,cap_kill"), Err(CapsError::UnknownCapability));
    assert_eq!(Caps::parse("cap_checkpoint_restore").unwrap(), Caps::V2(1u64 << 40));
    assert_eq!(Caps::V2(3).to_string(), "cap_chown,cap_dac_override");
    assert_eq!(Caps::parse("cap_dac_override").unwrap(), Caps::V2(2));
}

#[test]
fn caps_set_operations() {
    let a = Caps::V2(0b0110);
    let b = Caps::V2(0b0011);
    assert_eq!(a.union(&b), Caps::V2(0b0111));
    assert_eq!(a.difference(&b), Caps::V2(0b0100));
    assert!(a.contains(1));
    assert!(!a.contains(0));
    assert!(Caps::V2(0).is_empty());
    assert!(!a.is_empty());
    assert_eq!(Caps::V2(0).complement(), Caps::V2(0x1ff_ffff_ffff));
}

fn deploy_tree() -> Roles {
    let mut roles = Roles::new("1");
    let mut role = Role::new("deploy".to_string());
    role.groups.push(Groups { groups: vec!["ops".to_string()] });
    let mut t1 = Task::new(IdTask::Name("t1".to_string()), 0);
    t1.commands.push("/usr/bin/systemctl restart *".to_string());
    t1.capabilities = Some(Caps::parse("CAP_SYS_ADMIN").unwrap());
    let mut opt = Opt::new(Level::Task);
    opt.wildcard_denied = Some(";&|".to_string());
    t1.options = Some(opt);
    role.tasks.push(t1);
    roles.roles.push(role);
    roles
}

fn ops_cred() -> Cred {
    Cred { user: "carol".to_string(), uid: 1000, groups: vec!["ops".to_string()], tty: None, ppid: 1 }
}

fn words(ws: &[&str]) -> Vec<String> {
    ws.iter().map(|w| w.to_string()).collect()
}

#[test]
fn deploy_role_grants_restart() {
    let roles = deploy_tree();
    let d = match_in_role(&roles, 0, &ops_cred(), &words(&["/usr/bin/systemctl", "restart", "nginx"])).unwrap();
    assert_eq!(d.role, 0);
    assert_eq!(d.task, 0);
    assert!(roles.roles[0].tasks[d.task].id == IdTask::Name("t1".to_string()));
    assert_eq!(d.caps, Caps::parse("cap_sys_admin").unwrap());
    assert_eq!(d.caps.to_string(), "cap_sys_admin");
}

#[test]
fn deploy_role_refuses_injected_command() {
    let roles = deploy_tree();
    let r = match_in_role(&roles, 0, &ops_cred(), &words(&["/usr/bin/systemctl", "restart", "nginx;reboot"]));
    assert_eq!(r.err(), Some(MatchError::NoMatch));
}

#[test]
fn group_set_credential_matches_only_with_a_pattern() {
    let roles = deploy_tree();
    assert!(match_in_role(&roles, 0, &ops_cred(), &words(&["/usr/bin/systemctl", "restart", "x"])).is_ok());
    assert!(match_in_role(&roles, 0, &ops_cred(), &words(&["/usr/bin/ls"])).is_err());
    let stranger = Cred { user: "eve".to_string(), uid: 1001, groups: vec!["dev".to_string()], tty: None, ppid: 1 };
    assert!(match_in_role(&roles, 0, &stranger, &words(&["/usr/bin/systemctl", "restart", "x"])).is_err());
}

#[test]
fn first_matching_role_wins() {
    let mut roles = deploy_tree();
    let mut second = Role::new("all".to_string());
    second.users.push("carol".to_string());
    let mut t = Task::new(IdTask::Number(1), 1);
    t.commands.push("*".to_string());
    second.tasks.push(t);
    roles.roles.push(second);
    let cmd = words(&["/usr/bin/systemctl", "restart", "nginx"]);
    let all = match_all(&roles, &ops_cred(), &cmd);
    assert_eq!(all.len(), 2);
    assert_eq!(all[0].role, 0);
    assert_eq!(all[1].role, 1);
    assert_eq!(match_first(&roles, &ops_cred(), &cmd).unwrap().role, 0);
    let other = words(&["/bin/true"]);
    assert_eq!(match_first(&roles, &ops_cred(), &other).unwrap().role, 1);
    assert!(roles.roles[1].tasks[0].get_parent() == 1);
}

#[test]
fn glob_examples() {
    let excl = chars_of(";&|");
    assert!(glob_match(&chars_of("/bin/l?"), &chars_of("/bin/ls"), &excl));
    assert!(!glob_match(&chars_of("/bin/l?"), &chars_of("/bin/l;"), &excl));
    assert!(glob_match(&chars_of("a*b*c"), &chars_of("aXXbYc"), &excl));
    assert!(!glob_match(&chars_of("a*c"), &chars_of("ab"), &excl));
    assert!(glob_match(&chars_of("*"), &chars_of(""), &excl));
}

#[test]
fn task_path_overrides_global() {
    let mut roles = Roles::new("1");
    let mut g = Opt::new(Level::Global);
    g.path = Some("/usr/bin:/bin".to_string());
    roles.options = Some(g);
    let mut role = Role::new("r".to_string());
    let mut t = Task::new(IdTask::Number(1), 0);
    let mut o = Opt::new(Level::Task);
    o.path = Some("/opt/bin".to_string());
    t.options = Some(o);
    role.tasks.push(t);
    roles.roles.push(role);
    assert_eq!(OptStack::from_task(&roles, &0, &0).get_path().1, "/opt/bin");
    assert_eq!(OptStack::from_role(&roles, &0).get_path().1, "/usr/bin:/bin");
}

#[test]
fn tz_traversal_is_dropped_from_the_environment() {
    assert!(!check_var("TZ", "../../etc/passwd"));
    let mut st = OptStack::default();
    let mut o = Opt::new(Level::Global);
    o.env_checklist = Some("TZ,LANG".to_string());
    o.env_whitelist = Some("HOME".to_string());
    st.set_opt(o);
    let env = vec![
        ("TZ".to_string(), "../../etc/passwd".to_string()),
        ("HOME".to_string(), "/root".to_string()),
        ("LANG".to_string(), "C".to_string()),
        ("OTHER".to_string(), "x".to_string()),
    ];
    let out = final_env(&st, &env);
    assert_eq!(out, vec![("HOME".to_string(), "/root".to_string()), ("LANG".to_string(), "C".to_string())]);
}

#[test]
fn variable_checks() {
    assert!(tz_is_safe("Europe/Paris"));
    assert!(tz_is_safe(":Europe/Paris"));
    assert!(!tz_is_safe("/etc/localtime"));
    assert!(!tz_is_safe("Europe/../x"));
    assert!(tz_is_safe("a..b"));
    assert!(!tz_is_safe("Europe/Paris now"));
    assert!(!tz_is_safe(&"a".repeat(4096)));
    assert!(check_var("LANG", "C.UTF-8"));
    assert!(!check_var("LANG", "a/b"));
    assert!(!check_var("LANG", "100%"));
    assert!(!check_var("", "x"));
    assert!(!check_var("LANG", ""));
    let kept = filter_env_vars(
        &vec![("A".to_string(), "1/2".to_string()), ("B".to_string(), "1/2".to_string())],
        &vec!["A".to_string()],
        &vec!["B".to_string()],
    );
    assert_eq!(kept, vec![("B".to_string(), "1/2".to_string())]);
    assert_eq!(list_names("A,,B"), vec!["A".to_string(), String::new(), "B".to_string()]);
}

#[test]
fn empty_caps_plan_clears_everything() {
    let steps = plan(Caps::V2(0), true, false, &None, &None);
    assert_eq!(steps.len(), 4);
    assert!(matches!(steps[0], Step::RaiseEffective(8)));
    assert!(matches!(steps[1], Step::ClearBounding));
    assert!(matches!(steps[2], Step::SetCaps(Caps::V2(0), Caps::V2(0))));
    assert!(matches!(steps[3], Step::DropEffective(8)));
}

#[test]
fn full_plan_order() {
    let g: Groups = vec!["wheel".to_string(), "adm".to_string()].into();
    let steps = plan(Caps::V2(0b10), false, false, &Some("root".to_string()), &Some(g));
    assert!(matches!(steps[0], Step::SetNoNewPrivs));
    assert!(matches!(steps[1], Step::RaiseEffective(7)));
    assert!(matches!(&steps[2], Step::SetEuid(u) if u == "root"));
    assert!(matches!(steps[3], Step::DropEffective(7)));
    assert!(matches!(steps[4], Step::RaiseEffective(6)));
    assert!(matches!(&steps[5], Step::SetEgid(g) if g == "wheel"));
    assert!(matches!(&steps[6], Step::SetGroups(gs) if gs.len() == 2));
    assert!(matches!(steps[7], Step::DropEffective(6)));
    assert!(matches!(steps[8], Step::RaiseEffective(8)));
    // 40 bounding drops: every known capability but number 1
    assert!(matches!(steps[9], Step::DropBounding(0)));
    assert!(matches!(steps[10], Step::DropBounding(2)));
    assert!(matches!(steps[48], Step::DropBounding(40)));
    assert!(matches!(steps[49], Step::SetCaps(Caps::V2(2), Caps::V2(2))));
    assert!(matches!(steps[50], Step::RaiseAmbient(1)));
    assert!(matches!(steps[51], Step::DropEffective(8)));
    assert_eq!(steps.len(), 52);
    let kept = plan(Caps::V2(0b10), true, true, &None, &None);
    assert_eq!(kept.len(), 4);
}

#[test]
fn xml_pieces() {
    assert_eq!(sxd_sanitize("a<b>&\"'"), "a&lt;b&gt;&amp;&quot;&apos;");
    let u = (false, "root".to_string());
    let g = (false, "wheel".to_string());
    assert_eq!(
        setuid_xml_str(Some(&u), Some(&g)),
        "<setuid enforce=\"false\" user=\"root\" group=\"wheel\"/>"
    );
    let g2 = (true, "wheel".to_string());
    assert_eq!(
        setuid_xml_str(Some(&u), Some(&g2)),
        "<setuid enforce=\"false\" user=\"root\"/><setuid />"
    );
    assert_eq!(setuid_xml_str(None, None), "<setuid />");
}

#[test]
fn tree_renders_as_xml() {
    let mut roles = Roles::new("v1");
    let mut o = Opt::new(Level::Global);
    o.path = Some("/a&b".to_string());
    o.allow_root = Some(false);
    roles.options = Some(o);
    let mut role = Role::new("r".to_string());
    role.users.push("u".to_string());
    role.groups.push(vec!["g1".to_string(), "g2".to_string()].into());
    let mut t = Task::new(IdTask::Name("t".to_string()), 0);
    t.capabilities = Some(Caps::V2(1));
    t.purpose = Some("p".to_string());
    t.commands.push("/bin/ls".to_string());
    role.tasks.push(t);
    role.tasks.push(Task::new(IdTask::Number(2), 0));
    roles.roles.push(role);
    assert_eq!(
        roles.to_xml_string(),
        "<rootasrole version=\"v1\"><options><path>/a&amp;b</path><allow-root enforce=\"false\"/></options><roles><role name=\"r\" ><actors>\n<user name=\"u\"/>\n<groups names=\"g1,g2\"/>\n</actors>\n<task id=\"t\" capabilities=\"cap_chown\" ><purpose>p</purpose><command>/bin/ls</command></task><task ></task></role></roles></rootasrole>"
    );
}

#[test]
fn option_flags_are_written_as_set() {
    let mut o = Opt::new(Level::Role);
    o.allow_root = Some(true);
    o.disable_bounding = Some(false);
    o.wildcard_denied = Some(";".to_string());
    assert_eq!(
        o.to_xml_string(),
        "<options><allow-root enforce=\"true\"/><allow-bounding enforce=\"false\"/><wildcard-denied>;</wildcard-denied></options>"
    );
    assert_eq!(Opt::new(Level::Role).to_xml_string(), "<options></options>");
}

#[test]
fn group_sets_and_role_names_are_sets() {
    let g: Groups = vec!["a".to_string(), "b".to_string(), "a".to_string()].into();
    assert_eq!(g.join(","), "a,b");
    let mut roles = Roles::new("1");
    roles.roles.push(Role::new("x".to_string()));
    roles.roles.push(Role::new("y".to_string()));
    roles.roles.push(Role::new("x".to_string()));
    assert_eq!(roles.get_roles_names(), vec!["x".to_string(), "y".to_string()]);
}
