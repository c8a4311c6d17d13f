//! The credential/command matcher: which role and task authorize a request.
use vstd::prelude::*;
use crate::capabilities::Caps;
use crate::options::{field_model, is_builtin, resolve_from, resolved_text, OptModel, OptStack, OptType, Opt};
use crate::structs::{join_strings_chars, slot_matches, strings_view, Groups, Role, Roles};
use crate::text::{chars_of, join};

verus! {

/// The identity of the caller at decision time.
#[derive(Debug)]
pub struct Cred {
    /// The user name.
    pub user: String,
    /// The numeric user id.
    pub uid: u32,
    /// The names of the groups held, primary group first.
    pub groups: Vec<String>,
    /// The controlling terminal's device number, if any.
    pub tty: Option<u64>,
    /// The parent process id.
    pub ppid: i32,
}

/// `p` matches all of `s`: `*` stands for any run of characters and `?` for one
/// character, neither of them one of `excl`; any other character stands for itself.
pub open spec fn glob(p: Seq<char>, s: Seq<char>, excl: Seq<char>) -> bool
    decreases p.len() + s.len(),
{
    if p.len() == 0 {
        s.len() == 0
    } else if p[0] == '*' {
        glob(p.drop_first(), s, excl) || (s.len() > 0 && !excl.contains(s[0]) && glob(
            p,
            s.drop_first(),
            excl,
        ))
    } else if p[0] == '?' {
        s.len() > 0 && !excl.contains(s[0]) && glob(p.drop_first(), s.drop_first(), excl)
    } else {
        s.len() > 0 && s[0] == p[0] && glob(p.drop_first(), s.drop_first(), excl)
    }
}

fn contains_char(v: &Vec<char>, c: char) -> (r: bool)
    ensures
        r == v@.contains(c),
{
    let mut i: usize = 0;
    while i < v.len()
        invariant
            i <= v.len(),
            forall|k: int| 0 <= k < i ==> v@[k] != c,
        decreases v.len() - i,
    {
        if v[i] == c {
            return true;
        }
        i += 1;
    }
    false
}

fn glob_at(p: &Vec<char>, pi: usize, s: &Vec<char>, si: usize, excl: &Vec<char>) -> (r: bool)
    requires
        pi <= p.len(),
        si <= s.len(),
    ensures
        r == glob(p@.subrange(pi as int, p.len() as int), s@.subrange(si as int, s.len() as int), excl@),
    decreases (p.len() - pi) + (s.len() - si),
{
    let ghost ps = p@.subrange(pi as int, p.len() as int);
    let ghost ss = s@.subrange(si as int, s.len() as int);
    if pi == p.len() {
        return si == s.len();
    }
    assert(ps[0] == p@[pi as int]);
    if si < s.len() {
        assert(ss[0] == s@[si as int]);
        assert(ss.drop_first() =~= s@.subrange(si + 1, s.len() as int));
    }
    assert(ps.drop_first() =~= p@.subrange(pi + 1, p.len() as int));
    let c = p[pi];
    if c == '*' {
        if glob_at(p, pi + 1, s, si, excl) {
            return true;
        }
        si < s.len() && !contains_char(excl, s[si]) && glob_at(p, pi, s, si + 1, excl)
    } else if c == '?' {
        si < s.len() && !contains_char(excl, s[si]) && glob_at(p, pi + 1, s, si + 1, excl)
    } else {
        si < s.len() && s[si] == c && glob_at(p, pi + 1, s, si + 1, excl)
    }
}

/// Whether pattern `p` matches all of `s`, with `excl` barred from wildcards.
pub fn glob_match(p: &Vec<char>, s: &Vec<char>, excl: &Vec<char>) -> (r: bool)
    ensures
        r == glob(p@, s@, excl@),
{
    assert(p@.subrange(0, p.len() as int) =~= p@);
    assert(s@.subrange(0, s.len() as int) =~= s@);
    glob_at(p, 0, s, 0, excl)
}

/// The text of a request: its words joined by single spaces.
pub open spec fn request_text(command: Seq<String>) -> Seq<char> {
    join(strings_view(command), " "@)
}

/// The wildcard-denied text that block `o` sets, if it sets one.
pub open spec fn wildcard_of(o: Option<Opt>) -> Option<Seq<char>> {
    match o {
        Some(x) => match field_model(x, OptType::Wildcard) {
            Some(OptModel::Text(w)) => Some(w),
            _ => None,
        },
        None => None,
    }
}

/// The characters barred from wildcards for task `ti` of role `ri`: from the task's
/// options, else the role's, else the global ones, else the built-in `;&|`.
pub open spec fn wildcard_for(roles: Roles, ri: int, ti: int) -> Seq<char> {
    let role = roles.roles@[ri];
    match wildcard_of(role.tasks@[ti].options) {
        Some(w) => w,
        None => match wildcard_of(role.options) {
            Some(w) => w,
            None => match wildcard_of(roles.options) {
                Some(w) => w,
                None => ";&|"@,
            },
        },
    }
}

/// Some command pattern of task `ti` of role `ri` matches request text `req`.
pub open spec fn task_matches(roles: Roles, ri: int, ti: int, req: Seq<char>) -> bool {
    let t = roles.roles@[ri].tasks@[ti];
    exists|k: int|
        0 <= k < t.commands@.len() && glob(#[trigger] t.commands@[k]@, req, wildcard_for(roles, ri, ti))
}

/// The credential holds every group of group-set `g`.
pub open spec fn holds_groups(cred: Cred, g: Groups) -> bool {
    forall|k: int| 0 <= k < g@.len() ==> strings_view(cred.groups@).contains(#[trigger] g@[k])
}

/// The actor test: the user is listed, or the credential holds all groups of one of the
/// role's group-sets.
pub open spec fn actor_matches(role: Role, cred: Cred) -> bool {
    strings_view(role.users@).contains(cred.user@) || exists|g: int|
        0 <= g < role.groups@.len() && holds_groups(cred, #[trigger] role.groups@[g])
}

/// The first task of role `ri` (document order) below `n` whose patterns match `req`.
pub open spec fn first_task_upto(roles: Roles, ri: int, req: Seq<char>, n: int) -> Option<int>
    decreases n,
{
    if n <= 0 {
        None
    } else {
        match first_task_upto(roles, ri, req, n - 1) {
            Some(t) => Some(t),
            None => if task_matches(roles, ri, n - 1, req) {
                Some(n - 1)
            } else {
                None
            },
        }
    }
}

/// The task of role `ri` that authorizes `cred` to run `req`: none when the actor test
/// fails, else the first task whose patterns match.
pub open spec fn role_match(roles: Roles, ri: int, cred: Cred, req: Seq<char>) -> Option<int> {
    if actor_matches(roles.roles@[ri], cred) {
        first_task_upto(roles, ri, req, roles.roles@[ri].tasks@.len() as int)
    } else {
        None
    }
}

/// The roles below `n` (document order) that authorize `cred` to run `req`.
pub open spec fn matching_roles_upto(roles: Roles, cred: Cred, req: Seq<char>, n: int) -> Seq<int>
    decreases n,
{
    if n <= 0 {
        Seq::empty()
    } else if role_match(roles, n - 1, cred, req) is Some {
        matching_roles_upto(roles, cred, req, n - 1).push(n - 1)
    } else {
        matching_roles_upto(roles, cred, req, n - 1)
    }
}

/// Why no decision was reached.
#[derive(Clone, Copy, Debug, PartialEq, Eq, Structural)]
pub enum MatchError {
    /// No role authorizes the credential for the command.
    NoMatch,
}

/// The outcome of a match: the role and task that authorize the request, what the
/// process will run with, and the options bound to that task.
#[derive(Debug)]
pub struct Decision {
    pub role: usize,
    pub task: usize,
    pub caps: Caps,
    pub setuid: Option<String>,
    pub setgid: Option<Groups>,
    pub opt: OptStack,
}

/// `st` is the option stack bound to task `ti` of role `ri`.
pub open spec fn task_stack(roles: Roles, ri: int, ti: int, st: OptStack) -> bool {
    &&& st.wf()
    &&& st.stack@[0] is None
    &&& st.stack@[1] is Some && is_builtin(st.stack@[1].unwrap())
    &&& slot_matches(st.stack@[2], roles.options, false)
    &&& slot_matches(st.stack@[3], roles.roles@[ri].options, false)
    &&& slot_matches(st.stack@[4], roles.roles@[ri].tasks@[ti].options, true)
}

/// `d` is the decision for task `ti` of role `ri`: the task's capabilities (none when it
/// sets none), its forced identity, and its option stack.
pub open spec fn decision_for(roles: Roles, ri: int, ti: int, d: Decision) -> bool {
    let t = roles.roles@[ri].tasks@[ti];
    &&& d.role == ri
    &&& d.task == ti
    &&& d.caps == match t.capabilities {
        Some(c) => c,
        None => Caps::V2(0),
    }
    &&& d.setuid == t.setuid
    &&& match t.setgid {
        Some(g) => d.setgid is Some && d.setgid.unwrap()@ == g@,
        None => d.setgid is None,
    }
    &&& task_stack(roles, ri, ti, d.opt)
}

proof fn lemma_task_stack_wildcard(roles: Roles, ri: int, ti: int, st: OptStack)
    requires
        0 <= ri < roles.roles@.len(),
        0 <= ti < roles.roles@[ri].tasks@.len(),
        task_stack(roles, ri, ti, st),
    ensures
        resolved_text(st.stack@, OptType::Wildcard) == wildcard_for(roles, ri, ti),
{
    let s = st.stack@;
    let t = OptType::Wildcard;
    reveal_with_fuel(resolve_from, 6);
    if s[2] is Some {
        assert(field_model(s[2].unwrap(), t) == field_model(roles.options.unwrap(), t));
    }
    if s[3] is Some {
        assert(field_model(s[3].unwrap(), t) == field_model(roles.roles@[ri].options.unwrap(), t));
    }
    let to = roles.roles@[ri].tasks@[ti].options;
    if to is Some {
        assert(field_model(s[4].unwrap(), t) == field_model(to.unwrap(), t));
    } else {
        assert(field_model(s[4].unwrap(), t) is None);
    }
}

fn contains_string(v: &Vec<String>, s: &String) -> (r: bool)
    ensures
        r == strings_view(v@).contains(s@),
{
    let mut i: usize = 0;
    while i < v.len()
        invariant
            i <= v.len(),
            forall|k: int| 0 <= k < i ==> v@[k]@ != s@,
        decreases v.len() - i,
    {
        if v[i].eq(s) {
            assert(strings_view(v@)[i as int] == s@);
            return true;
        }
        i += 1;
    }
    proof {
        if strings_view(v@).contains(s@) {
            let k = choose|k: int| 0 <= k < strings_view(v@).len() && strings_view(v@)[k] == s@;
            assert(v@[k]@ == s@);
        }
    }
    false
}

fn holds_groups_exec(cred: &Cred, g: &Groups) -> (r: bool)
    ensures
        r == holds_groups(*cred, *g),
{
    let mut i: usize = 0;
    while i < g.groups.len()
        invariant
            i <= g.groups.len(),
            forall|k: int| 0 <= k < i ==> strings_view(cred.groups@).contains(#[trigger] g@[k]),
        decreases g.groups.len() - i,
    {
        if !contains_string(&cred.groups, &g.groups[i]) {
            assert(g@[i as int] == g.groups@[i as int]@);
            return false;
        }
        i += 1;
    }
    true
}

/// The actor test of role `role` against `cred`.
pub fn actor_test(role: &Role, cred: &Cred) -> (r: bool)
    ensures
        r == actor_matches(*role, *cred),
{
    if contains_string(&role.users, &cred.user) {
        return true;
    }
    let mut i: usize = 0;
    while i < role.groups.len()
        invariant
            i <= role.groups.len(),
            forall|g: int| 0 <= g < i ==> !holds_groups(*cred, #[trigger] role.groups@[g]),
        decreases role.groups.len() - i,
    {
        if holds_groups_exec(cred, &role.groups[i]) {
            return true;
        }
        i += 1;
    }
    false
}

/// Whether some pattern of `patterns` matches `req` with `excl` barred from wildcards.
fn any_pattern(patterns: &Vec<String>, req: &Vec<char>, excl: &Vec<char>) -> (r: bool)
    ensures
        r == exists|k: int| 0 <= k < patterns@.len() && glob(#[trigger] patterns@[k]@, req@, excl@),
{
    let mut i: usize = 0;
    while i < patterns.len()
        invariant
            i <= patterns.len(),
            forall|k: int| 0 <= k < i ==> !glob(#[trigger] patterns@[k]@, req@, excl@),
        decreases patterns.len() - i,
    {
        let p = chars_of(patterns[i].as_str());
        if glob_match(&p, req, excl) {
            return true;
        }
        i += 1;
    }
    false
}

proof fn lemma_first_task_none(roles: Roles, ri: int, req: Seq<char>, n: int)
    requires
        0 <= n,
        forall|t: int| 0 <= t < n ==> !task_matches(roles, ri, t, req),
    ensures
        first_task_upto(roles, ri, req, n) is None,
    decreases n,
{
    if n > 0 {
        lemma_first_task_none(roles, ri, req, n - 1);
    }
}

/// Copies a group-set option.
fn clone_groups(g: &Option<Groups>) -> (r: Option<Groups>)
    ensures
        match *g {
            Some(x) => r is Some && r.unwrap()@ == x@,
            None => r is None,
        },
{
    match g {
        Some(x) => Some(x.duplicate()),
        None => None,
    }
}

/// Searches role number `ri` for the task that authorizes `cred` to run `command`:
/// the role's actor test must pass, and then the first task (document order) with a
/// pattern matching the request text wins.
pub fn match_in_role(roles: &Roles, ri: usize, cred: &Cred, command: &Vec<String>) -> (r: Result<
    Decision,
    MatchError,
>)
    requires
        ri < roles.roles@.len(),
    ensures
        match role_match(*roles, ri as int, *cred, request_text(command@)) {
            Some(ti) => r is Ok && decision_for(*roles, ri as int, ti, r.unwrap()),
            None => r == Err::<Decision, MatchError>(MatchError::NoMatch),
        },
{
    let ghost req = request_text(command@);
    let role = &roles.roles[ri];
    if !actor_test(role, cred) {
        return Err(MatchError::NoMatch);
    }
    let reqc = join_strings_chars(command, " ");
    let mut ti: usize = 0;
    while ti < role.tasks.len()
        invariant
            ri < roles.roles@.len(),
            role == &roles.roles@[ri as int],
            reqc@ == req,
            req == request_text(command@),
            actor_matches(roles.roles@[ri as int], *cred),
            ti <= role.tasks@.len(),
            forall|t: int| 0 <= t < ti ==> !task_matches(*roles, ri as int, t, req),
        decreases role.tasks.len() - ti,
    {
        let st = OptStack::from_task(roles, &ri, &ti);
        let (_, w) = st.get_wildcard_denied();
        proof {
            lemma_task_stack_wildcard(*roles, ri as int, ti as int, st);
        }
        let excl = chars_of(w.as_str());
        let task = &role.tasks[ti];
        if any_pattern(&task.commands, &reqc, &excl) {
            proof {
                lemma_first_task_none(*roles, ri as int, req, ti as int);
                lemma_first_task_found(*roles, ri as int, req, ti as int, role.tasks@.len() as int);
            }
            let caps = match &task.capabilities {
                Some(c) => *c,
                None => Caps::V2(0),
            };
            let setuid = crate::options::clone_text(&task.setuid);
            let setgid = clone_groups(&task.setgid);
            return Ok(Decision { role: ri, task: ti, caps, setuid, setgid, opt: st });
        }
        ti += 1;
    }
    proof {
        lemma_first_task_none(*roles, ri as int, req, role.tasks@.len() as int);
    }
    Err(MatchError::NoMatch)
}

proof fn lemma_first_task_found(roles: Roles, ri: int, req: Seq<char>, ti: int, n: int)
    requires
        0 <= ti < n,
        first_task_upto(roles, ri, req, ti) is None,
        task_matches(roles, ri, ti, req),
    ensures
        first_task_upto(roles, ri, req, n) == Some(ti),
    decreases n,
{
    if n - 1 > ti {
        lemma_first_task_found(roles, ri, req, ti, n - 1);
    }
}

/// `d` is the decision of role `ri` for `cred` and request text `req`.
pub open spec fn role_decision(roles: Roles, ri: int, cred: Cred, req: Seq<char>, d: Decision) -> bool {
    &&& role_match(roles, ri, cred, req) is Some
    &&& decision_for(roles, ri, role_match(roles, ri, cred, req).unwrap(), d)
}

/// The decisions of every role that authorizes `cred` to run `command`, in document
/// order: one per role, each for that role's first matching task.
pub fn match_all(roles: &Roles, cred: &Cred, command: &Vec<String>) -> (r: Vec<Decision>)
    ensures
        r@.len() == matching_roles_upto(*roles, *cred, request_text(command@), roles.roles@.len() as int).len(),
        forall|k: int|
            0 <= k < r@.len() ==> (#[trigger] r@[k]).role == matching_roles_upto(
                *roles,
                *cred,
                request_text(command@),
                roles.roles@.len() as int,
            )[k] && role_decision(*roles, r@[k].role as int, *cred, request_text(command@), r@[k]),
{
    let ghost req = request_text(command@);
    let mut out: Vec<Decision> = Vec::new();
    let mut ri: usize = 0;
    while ri < roles.roles.len()
        invariant
            ri <= roles.roles@.len(),
            req == request_text(command@),
            out@.len() == matching_roles_upto(*roles, *cred, req, ri as int).len(),
            forall|k: int|
                0 <= k < out@.len() ==> (#[trigger] out@[k]).role == matching_roles_upto(
                    *roles,
                    *cred,
                    req,
                    ri as int,
                )[k] && role_decision(*roles, out@[k].role as int, *cred, req, out@[k]),
        decreases roles.roles.len() - ri,
    {
        let ghost prev = matching_roles_upto(*roles, *cred, req, ri as int);
        let ghost old_out = out@;
        let res = match_in_role(roles, ri, cred, command);
        match res {
            Ok(d) => {
                assert(role_decision(*roles, ri as int, *cred, req, d));
                out.push(d);
                assert(matching_roles_upto(*roles, *cred, req, ri + 1) == prev.push(ri as int));
                assert forall|k: int| 0 <= k < out@.len() implies (#[trigger] out@[k]).role
                    == matching_roles_upto(*roles, *cred, req, ri + 1)[k] && role_decision(
                    *roles,
                    out@[k].role as int,
                    *cred,
                    req,
                    out@[k],
                ) by {
                    if k < old_out.len() {
                        assert(out@[k] == old_out[k]);
                    }
                }
            },
            Err(_) => {
                assert(role_match(*roles, ri as int, *cred, req) is None);
                assert(matching_roles_upto(*roles, *cred, req, ri + 1) == prev);
            },
        }
        ri += 1;
    }
    out
}

/// The decision of the first role (document order) that authorizes `cred` to run
/// `command`; later roles are not consulted.
pub fn match_first(roles: &Roles, cred: &Cred, command: &Vec<String>) -> (r: Result<Decision, MatchError>)
    ensures
        match r {
            Ok(d) => role_match(*roles, d.role as int, *cred, request_text(command@)) is Some
                && decision_for(*roles, d.role as int, role_match(*roles, d.role as int, *cred, request_text(command@)).unwrap(), d)
                && forall|j: int| 0 <= j < d.role ==> role_match(*roles, j, *cred, request_text(command@)) is None,
            Err(e) => e == MatchError::NoMatch && forall|j: int|
                0 <= j < roles.roles@.len() ==> role_match(*roles, j, *cred, request_text(command@)) is None,
        },
{
    let mut ri: usize = 0;
    while ri < roles.roles.len()
        invariant
            ri <= roles.roles@.len(),
            forall|j: int| 0 <= j < ri ==> role_match(*roles, j, *cred, request_text(command@)) is None,
        decreases roles.roles.len() - ri,
    {
        match match_in_role(roles, ri, cred, command) {
            Ok(d) => {
                return Ok(d);
            },
            Err(_) => {},
        }
        ri += 1;
    }
    Err(MatchError::NoMatch)
}

} // verus!

verus! {

proof fn lemma_first_task_exists(roles: Roles, ri: int, req: Seq<char>, n: int)
    requires
        0 <= n,
    ensures
        first_task_upto(roles, ri, req, n) is Some <==> exists|t: int|
            0 <= t < n && task_matches(roles, ri, t, req),
    decreases n,
{
    if n > 0 {
        lemma_first_task_exists(roles, ri, req, n - 1);
    }
}

/// A credential whose groups are exactly one of a role's group-sets passes the role's
/// actor test, so the role grants a request exactly when a command pattern of one of its
/// tasks matches the request.
pub proof fn lemma_group_set_match(roles: Roles, ri: int, g: int, cred: Cred, req: Seq<char>)
    requires
        0 <= ri < roles.roles@.len(),
        0 <= g < roles.roles@[ri].groups@.len(),
        strings_view(cred.groups@).to_set() == roles.roles@[ri].groups@[g]@.to_set(),
    ensures
        role_match(roles, ri, cred, req) is Some <==> exists|ti: int|
            0 <= ti < roles.roles@[ri].tasks@.len() && task_matches(roles, ri, ti, req),
{
    let gs = roles.roles@[ri].groups@[g];
    assert forall|k: int| 0 <= k < gs@.len() implies strings_view(cred.groups@).contains(
        #[trigger] gs@[k],
    ) by {
        assert(gs@.to_set().contains(gs@[k]));
        assert(strings_view(cred.groups@).to_set().contains(gs@[k]));
    }
    assert(holds_groups(cred, gs));
    assert(actor_matches(roles.roles@[ri], cred));
    lemma_first_task_exists(roles, ri, req, roles.roles@[ri].tasks@.len() as int);
}

/// Searches the first role named `name` (document order) for the task that authorizes
/// `cred` to run `command`; no such role is no match.
pub fn match_named_role(roles: &Roles, name: &str, cred: &Cred, command: &Vec<String>) -> (r: Result<
    Decision,
    MatchError,
>)
    ensures
        match r {
            Ok(d) => d.role < roles.roles@.len() && roles.roles@[d.role as int].name@ == name@
                && (forall|j: int| 0 <= j < d.role ==> (#[trigger] roles.roles@[j]).name@ != name@)
                && role_decision(*roles, d.role as int, *cred, request_text(command@), d),
            Err(e) => e == MatchError::NoMatch && ((forall|j: int|
                0 <= j < roles.roles@.len() ==> (#[trigger] roles.roles@[j]).name@ != name@)
                || exists|i: int|
                0 <= i < roles.roles@.len() && roles.roles@[i].name@ == name@ && (forall|j: int|
                    0 <= j < i ==> (#[trigger] roles.roles@[j]).name@ != name@) && role_match(
                    *roles,
                    i,
                    *cred,
                    request_text(command@),
                ) is None),
        },
{
    match roles.get_role(name) {
        Some(i) => match_in_role(roles, i, cred, command),
        None => Err(MatchError::NoMatch),
    }
}

/// A pattern without `*` or `?` is literal: it matches exactly the identical text.
pub proof fn lemma_literal_pattern(p: Seq<char>, s: Seq<char>, excl: Seq<char>)
    requires
        forall|k: int| 0 <= k < p.len() ==> p[k] != '*' && p[k] != '?',
    ensures
        glob(p, s, excl) <==> p == s,
    decreases p.len(),
{
    if p.len() > 0 {
        assert(p[0] != '*' && p[0] != '?');
        lemma_literal_pattern(p.drop_first(), s.drop_first(), excl);
        if s.len() > 0 && s[0] == p[0] && p.drop_first() == s.drop_first() {
            assert forall|k: int| 0 < k < p.len() implies p[k] == s[k] by {
                assert(p[k] == p.drop_first()[k - 1]);
                assert(s[k] == s.drop_first()[k - 1]);
            }
            assert(p =~= s);
        }
        if p == s {
            assert(p.drop_first() =~= s.drop_first());
        }
    } else {
        if s.len() == 0 {
            assert(p =~= s);
        }
    }
}

} // verus!
