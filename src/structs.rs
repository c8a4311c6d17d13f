//! The configuration tree: the root owns its roles, each role owns its tasks, and a
//! task refers back to its role by position.
use vstd::prelude::*;
use crate::capabilities::{format_caps, Caps};
use crate::options::{field_model, is_builtin, opt_description, Level, Opt, OptStack, OptType};
use crate::text::{dedup, join, lemma_dedup, push_all, push_str, string_of};

verus! {

/// The texts held by a list of strings.
pub open spec fn strings_view(v: Seq<String>) -> Seq<Seq<char>> {
    Seq::new(v.len(), |i: int| v[i]@)
}

/// `parts` joined with `sep`.
pub fn join_strings(parts: &Vec<String>, sep: &str) -> (r: String)
    ensures
        r@ == join(strings_view(parts@), sep@),
{
    let out = join_strings_chars(parts, sep);
    string_of(&out)
}

/// `parts` joined with `sep`, as characters.
pub fn join_strings_chars(parts: &Vec<String>, sep: &str) -> (r: Vec<char>)
    ensures
        r@ == join(strings_view(parts@), sep@),
{
    let mut out: Vec<char> = Vec::new();
    let mut i: usize = 0;
    while i < parts.len()
        invariant
            i <= parts.len(),
            out@ == join(strings_view(parts@.subrange(0, i as int)), sep@),
        decreases parts.len() - i,
    {
        let ghost before = strings_view(parts@.subrange(0, i as int));
        if i > 0 {
            push_str(&mut out, sep);
        }
        push_str(&mut out, parts[i].as_str());
        let ghost after = strings_view(parts@.subrange(0, i + 1));
        assert(after.drop_last() =~= before);
        assert(after.last() == parts@[i as int]@);
        if i == 0 {
            assert(after =~= seq![parts@[0]@]);
        }
        i += 1;
    }
    assert(parts@.subrange(0, parts.len() as int) =~= parts@);
    out
}

/// Copies a list of strings.
pub fn clone_strings(v: &Vec<String>) -> (r: Vec<String>)
    ensures
        r@ == v@,
{
    let mut out: Vec<String> = Vec::new();
    let mut i: usize = 0;
    while i < v.len()
        invariant
            i <= v.len(),
            out@ == v@.subrange(0, i as int),
        decreases v.len() - i,
    {
        out.push(v[i].clone());
        i += 1;
        assert(out@ =~= v@.subrange(0, i as int));
    }
    assert(v@.subrange(0, v.len() as int) =~= v@);
    out
}

fn contains_text(v: &Vec<String>, s: &String) -> (r: bool)
    ensures
        r == strings_view(v@).contains(s@),
{
    let mut i: usize = 0;
    while i < v.len()
        invariant
            i <= v.len(),
            forall|k: int| 0 <= k < i ==> v@[k]@ != s@,
        decreases v.len() - i,
    {
        if v[i].eq(s) {
            assert(strings_view(v@)[i as int] == s@);
            return true;
        }
        i += 1;
    }
    proof {
        if strings_view(v@).contains(s@) {
            let k = choose|k: int| 0 <= k < strings_view(v@).len() && strings_view(v@)[k] == s@;
            assert(v@[k]@ == s@);
        }
    }
    false
}

/// The strings of `v`, each kept once, in order of first occurrence.
pub fn distinct_strings(v: &Vec<String>) -> (r: Vec<String>)
    ensures
        strings_view(r@) == dedup(strings_view(v@)),
{
    let mut out: Vec<String> = Vec::new();
    let mut i: usize = 0;
    while i < v.len()
        invariant
            i <= v.len(),
            strings_view(out@) == dedup(strings_view(v@.subrange(0, i as int))),
        decreases v.len() - i,
    {
        let ghost pre = strings_view(v@.subrange(0, i as int));
        let ghost post = strings_view(v@.subrange(0, i + 1));
        assert(post.drop_last() =~= pre);
        assert(post.last() == v@[i as int]@);
        if !contains_text(&out, &v[i]) {
            out.push(v[i].clone());
            assert(strings_view(out@) =~= dedup(pre).push(v@[i as int]@));
        }
        i += 1;
    }
    assert(v@.subrange(0, v.len() as int) =~= v@);
    out
}

/// A group-set: the names of groups that a credential must all hold.
#[derive(Debug)]
pub struct Groups {
    pub groups: Vec<String>,
}

impl View for Groups {
    type V = Seq<Seq<char>>;

    open spec fn view(&self) -> Seq<Seq<char>> {
        strings_view(self.groups@)
    }
}

impl Groups {
    /// The group names joined with `sep`, each name once, in order of first occurrence.
    pub fn join(&self, sep: &str) -> (r: String)
        ensures
            r@ == join(dedup(self@), sep@),
    {
        let names = distinct_strings(&self.groups);
        join_strings(&names, sep)
    }

    /// A copy of this group-set.
    pub fn duplicate(&self) -> (r: Groups)
        ensures
            r@ == self@,
    {
        Groups { groups: clone_strings(&self.groups) }
    }
}

impl From<Vec<String>> for Groups {
    fn from(groups: Vec<String>) -> (r: Groups) {
        Groups { groups }
    }
}

impl vstd::std_specs::convert::FromSpecImpl<Vec<String>> for Groups {
    open spec fn obeys_from_spec() -> bool {
        true
    }

    open spec fn from_spec(v: Vec<String>) -> Groups {
        Groups { groups: v }
    }
}

/// The decimal digit `d`.
pub open spec fn digit_char(d: int) -> char {
    if d == 0 {
        '0'
    } else if d == 1 {
        '1'
    } else if d == 2 {
        '2'
    } else if d == 3 {
        '3'
    } else if d == 4 {
        '4'
    } else if d == 5 {
        '5'
    } else if d == 6 {
        '6'
    } else if d == 7 {
        '7'
    } else if d == 8 {
        '8'
    } else {
        '9'
    }
}

/// The decimal text of `n`, without leading zeros.
pub open spec fn dec(n: nat) -> Seq<char>
    decreases n,
{
    if n < 10 {
        seq![digit_char(n as int)]
    } else {
        dec(n / 10) + seq![digit_char((n % 10) as int)]
    }
}

fn digit(d: usize) -> (r: char)
    requires
        d < 10,
    ensures
        r == digit_char(d as int),
{
    if d == 0 {
        '0'
    } else if d == 1 {
        '1'
    } else if d == 2 {
        '2'
    } else if d == 3 {
        '3'
    } else if d == 4 {
        '4'
    } else if d == 5 {
        '5'
    } else if d == 6 {
        '6'
    } else if d == 7 {
        '7'
    } else if d == 8 {
        '8'
    } else {
        '9'
    }
}

/// Appends the decimal text of `n`.
pub fn push_dec(out: &mut Vec<char>, n: usize)
    ensures
        final(out)@ == old(out)@ + dec(n as nat),
    decreases n,
{
    if n >= 10 {
        push_dec(out, n / 10);
    }
    out.push(digit(n % 10));
    assert(final(out)@ =~= old(out)@ + dec(n as nat));
}

/// How a task is identified: by a name, or by its position in its role.
#[derive(Debug)]
pub enum IdTask {
    Name(String),
    Number(usize),
}

/// The model of a task identity.
pub enum IdModel {
    Name(Seq<char>),
    Number(nat),
}

impl View for IdTask {
    type V = IdModel;

    open spec fn view(&self) -> IdModel {
        match self {
            IdTask::Name(s) => IdModel::Name(s@),
            IdTask::Number(n) => IdModel::Number(*n as nat),
        }
    }
}

/// The display text of a task identity: the name, or `Task #` and the number.
pub open spec fn id_text(id: IdModel) -> Seq<char> {
    match id {
        IdModel::Name(s) => s,
        IdModel::Number(n) => "Task #"@ + dec(n),
    }
}

/// The bare text of a task identity: the name, or the number.
pub open spec fn id_bare(id: IdModel) -> Seq<char> {
    match id {
        IdModel::Name(s) => s,
        IdModel::Number(n) => dec(n),
    }
}

impl IdTask {
    /// Whether the task is identified by name.
    pub fn is_name(&self) -> (r: bool)
        ensures
            r == (self is Name),
    {
        match self {
            IdTask::Name(_) => true,
            IdTask::Number(_) => false,
        }
    }

    /// This identity.
    pub fn as_ref(&self) -> (r: &IdTask)
        ensures
            r == self,
    {
        self
    }

    /// The name, or the number in decimal.
    pub fn unwrap(&self) -> (r: String)
        ensures
            r@ == id_bare(self@),
    {
        match self {
            IdTask::Name(s) => s.clone(),
            IdTask::Number(n) => {
                let mut out: Vec<char> = Vec::new();
                push_dec(&mut out, *n);
                assert(out@ =~= dec(*n as nat));
                string_of(&out)
            },
        }
    }

    /// The name, or `Task #` followed by the number.
    pub fn to_string(&self) -> (r: String)
        ensures
            r@ == id_text(self@),
    {
        match self {
            IdTask::Name(s) => s.clone(),
            IdTask::Number(n) => {
                let mut out: Vec<char> = Vec::new();
                push_str(&mut out, "Task #");
                push_dec(&mut out, *n);
                string_of(&out)
            },
        }
    }

    /// A copy of this identity.
    pub fn duplicate(&self) -> (r: IdTask)
        ensures
            r@ == self@,
    {
        match self {
            IdTask::Name(s) => IdTask::Name(s.clone()),
            IdTask::Number(n) => IdTask::Number(*n),
        }
    }

    /// The bare text of this identity (the name, or the number in decimal).
    pub fn into_string(self) -> (r: String)
        ensures
            r@ == id_bare(self@),
    {
        self.unwrap()
    }
}

impl PartialEq for IdTask {
    /// A name and a number are never equal.
    fn eq(&self, other: &IdTask) -> (r: bool) {
        match (self, other) {
            (IdTask::Name(a), IdTask::Name(b)) => a.eq(b),
            (IdTask::Number(a), IdTask::Number(b)) => a == b,
            _ => false,
        }
    }
}

impl vstd::std_specs::cmp::PartialEqSpecImpl for IdTask {
    open spec fn obeys_eq_spec() -> bool {
        true
    }

    open spec fn eq_spec(&self, other: &IdTask) -> bool {
        self@ == other@
    }
}

impl From<String> for IdTask {
    fn from(s: String) -> (r: IdTask) {
        IdTask::Name(s)
    }
}

impl vstd::std_specs::convert::FromSpecImpl<String> for IdTask {
    open spec fn obeys_from_spec() -> bool {
        true
    }

    open spec fn from_spec(s: String) -> IdTask {
        IdTask::Name(s)
    }
}

/// A grant inside a role: command patterns with the capabilities and identity they run with.
#[derive(Debug)]
pub struct Task {
    /// Position of the owning role in the tree.
    pub role: usize,
    pub id: IdTask,
    pub options: Option<Opt>,
    pub commands: Vec<String>,
    pub capabilities: Option<Caps>,
    pub setuid: Option<String>,
    pub setgid: Option<Groups>,
    pub purpose: Option<String>,
}

/// A named authorization unit: who may use it, and the tasks it grants.
#[derive(Debug)]
pub struct Role {
    pub name: String,
    pub users: Vec<String>,
    pub groups: Vec<Groups>,
    pub tasks: Vec<Task>,
    pub options: Option<Opt>,
}

/// The root of the configuration tree: roles in document order and the global options.
#[derive(Debug)]
pub struct Roles {
    pub roles: Vec<Role>,
    pub options: Option<Opt>,
    pub version: String,
}

impl Roles {
    /// An empty tree with the given version tag.
    pub fn new(version: &str) -> (r: Roles)
        ensures
            r.roles@.len() == 0,
            r.options is None,
            r.version@ == version@,
    {
        Roles { roles: Vec::new(), options: None, version: String::from_str(version) }
    }

    /// The position of the first role named `name`.
    pub fn get_role(&self, name: &str) -> (r: Option<usize>)
        ensures
            match r {
                Some(i) => i < self.roles@.len() && self.roles@[i as int].name@ == name@ && forall|j: int|
                    0 <= j < i ==> (#[trigger] self.roles@[j]).name@ != name@,
                None => forall|j: int|
                    0 <= j < self.roles@.len() ==> (#[trigger] self.roles@[j]).name@ != name@,
            },
    {
        let target = String::from_str(name);
        let mut i: usize = 0;
        while i < self.roles.len()
            invariant
                i <= self.roles.len(),
                target@ == name@,
                forall|j: int| 0 <= j < i ==> (#[trigger] self.roles@[j]).name@ != name@,
            decreases self.roles.len() - i,
        {
            if self.roles[i].name.eq(&target) {
                return Some(i);
            }
            i += 1;
        }
        None
    }

    /// The names of the roles, each once, in document order of first occurrence.
    pub fn get_roles_names(&self) -> (r: Vec<String>)
        ensures
            strings_view(r@) == dedup(role_names(self.roles@)),
            strings_view(r@).no_duplicates(),
            strings_view(r@).to_set() == role_names(self.roles@).to_set(),
    {
        let mut all: Vec<String> = Vec::new();
        let mut i: usize = 0;
        while i < self.roles.len()
            invariant
                i <= self.roles.len(),
                all@.len() == i,
                forall|k: int| 0 <= k < i ==> (#[trigger] all@[k])@ == self.roles@[k].name@,
            decreases self.roles.len() - i,
        {
            all.push(self.roles[i].name.clone());
            i += 1;
        }
        assert(strings_view(all@) =~= role_names(self.roles@));
        proof {
            lemma_dedup(role_names(self.roles@));
        }
        distinct_strings(&all)
    }
}

/// The names of a list of roles, in order.
pub open spec fn role_names(rs: Seq<Role>) -> Seq<Seq<char>> {
    Seq::new(rs.len(), |i: int| rs[i].name@)
}

/// `(` + the names joined by `, ` + `)`, after the `Users:` header.
pub open spec fn users_info(r: Role) -> Seq<char> {
    "Users:\n("@ + join(strings_view(r.users@), ", "@) + ")\n"@
}

/// The group-sets of a role, each joined with ` & `.
pub open spec fn group_texts(gs: Seq<Groups>) -> Seq<Seq<char>> {
    Seq::new(gs.len(), |i: int| join(dedup(gs[i]@), " & "@))
}

/// Each group-set in parentheses, one per line, after the `Groups:` header.
pub open spec fn groups_info(r: Role) -> Seq<char> {
    "Groups:\n("@ + join(group_texts(r.groups@), ")\n("@) + ")\n"@
}

/// The task identities of a role.
pub open spec fn task_ids(ts: Seq<Task>) -> Seq<Seq<char>> {
    Seq::new(ts.len(), |i: int| id_text(ts[i].id@))
}

/// The task identities, one per line, after the `Tasks:` header.
pub open spec fn tasks_info(r: Role) -> Seq<char> {
    "Tasks:\n"@ + join(task_ids(r.tasks@), "\n"@) + "\n"@
}

/// The role's option block after the `Options:` header, or nothing.
pub open spec fn options_info(r: Role) -> Seq<char> {
    match r.options {
        Some(o) => "Options:\n"@ + opt_description(o),
        None => Seq::<char>::empty(),
    }
}

/// One line of a task's command list: the command, cut to 64 characters and marked with
/// `...` when it has 64 or more.
pub open spec fn cmd_line(c: Seq<char>) -> Seq<char> {
    (if c.len() < 64 {
        c
    } else {
        c.take(64) + "..."@
    }) + "\n"@
}

/// The command lines of a task.
pub open spec fn cmd_lines(cs: Seq<Seq<char>>) -> Seq<char>
    decreases cs.len(),
{
    if cs.len() == 0 {
        Seq::<char>::empty()
    } else {
        cmd_lines(cs.drop_last()) + cmd_line(cs.last())
    }
}

/// The description of a task: purpose, capabilities, setuid, setgid and options when
/// present, then the commands.
pub open spec fn task_description(t: Task) -> Seq<char> {
    purpose_part(t.purpose) + caps_part(t.capabilities) + setuid_part(t.setuid) + setgid_part(
        t.setgid,
    ) + task_options_part(t.options) + "Commands:\n"@ + cmd_lines(strings_view(t.commands@))
        + "\n"@
}

/// The purpose section of a task description.
pub open spec fn purpose_part(p: Option<String>) -> Seq<char> {
    match p {
        Some(p) => "Purpose :\n"@ + p@ + "\n"@,
        None => Seq::<char>::empty(),
    }
}

/// The capabilities section of a task description.
pub open spec fn caps_part(c: Option<Caps>) -> Seq<char> {
    match c {
        Some(c) => "Capabilities:\n("@ + format_caps(c.bits()) + ")\n"@,
        None => Seq::<char>::empty(),
    }
}

/// The setuid section of a task description.
pub open spec fn setuid_part(u: Option<String>) -> Seq<char> {
    match u {
        Some(u) => "Setuid:\n("@ + u@ + ")\n"@,
        None => Seq::<char>::empty(),
    }
}

/// The setgid section of a task description.
pub open spec fn setgid_part(g: Option<Groups>) -> Seq<char> {
    match g {
        Some(g) => "Setgid:\n("@ + join(dedup(g@), " & "@) + ")\n"@,
        None => Seq::<char>::empty(),
    }
}

/// The options section of a task description.
pub open spec fn task_options_part(o: Option<Opt>) -> Seq<char> {
    match o {
        Some(o) => "Options:\n("@ + opt_description(o) + ")\n"@,
        None => Seq::<char>::empty(),
    }
}

fn push_section(out: &mut Vec<char>, head: &str, body: &str, tail: &str)
    ensures
        final(out)@ == old(out)@ + (head@ + body@ + tail@),
{
    push_str(out, head);
    push_str(out, body);
    push_str(out, tail);
    assert(final(out)@ =~= old(out)@ + (head@ + body@ + tail@));
}

/// `s` with the tasks identified by `id` left out, order kept.
pub open spec fn without_task(s: Seq<Task>, id: IdModel) -> Seq<Task>
    decreases s.len(),
{
    if s.len() == 0 {
        Seq::empty()
    } else if s.last().id@ == id {
        without_task(s.drop_last(), id)
    } else {
        without_task(s.drop_last(), id).push(s.last())
    }
}

proof fn lemma_without_task_step(s: Seq<Task>, k: int, id: IdModel)
    requires
        0 <= k < s.len(),
    ensures
        without_task(s.subrange(0, k + 1), id) == if s[k].id@ == id {
            without_task(s.subrange(0, k), id)
        } else {
            without_task(s.subrange(0, k), id).push(s[k])
        },
{
    assert(s.subrange(0, k + 1).drop_last() =~= s.subrange(0, k));
}

impl Role {
    /// A role with no actors, tasks or options.
    pub fn new(name: String) -> (r: Role)
        ensures
            r.name == name,
            r.users@.len() == 0,
            r.groups@.len() == 0,
            r.tasks@.len() == 0,
            r.options is None,
    {
        Role { name, users: Vec::new(), groups: Vec::new(), tasks: Vec::new(), options: None }
    }

    /// The task at position `index`, if there is one.
    pub fn get_task_from_index(&self, index: &usize) -> (r: Option<&Task>)
        ensures
            match r {
                Some(t) => *index < self.tasks@.len() && *t == self.tasks@[*index as int],
                None => *index >= self.tasks@.len(),
            },
    {
        if *index < self.tasks.len() {
            Some(&self.tasks[*index])
        } else {
            None
        }
    }

    /// `Users:` and the user names in parentheses.
    pub fn get_users_info(&self) -> (r: String)
        ensures
            r@ == users_info(*self),
    {
        let mut out: Vec<char> = Vec::new();
        push_str(&mut out, "Users:\n(");
        let names = join_strings_chars(&self.users, ", ");
        push_all(&mut out, &names);
        push_str(&mut out, ")\n");
        string_of(&out)
    }

    /// `Groups:` and each group-set in parentheses.
    pub fn get_groups_info(&self) -> (r: String)
        ensures
            r@ == groups_info(*self),
    {
        let mut texts: Vec<String> = Vec::new();
        let mut i: usize = 0;
        while i < self.groups.len()
            invariant
                i <= self.groups.len(),
                texts@.len() == i,
                forall|k: int| 0 <= k < i ==> (#[trigger] texts@[k])@ == join(dedup(self.groups@[k]@), " & "@),
            decreases self.groups.len() - i,
        {
            texts.push(self.groups[i].join(" & "));
            i += 1;
        }
        assert(strings_view(texts@) =~= group_texts(self.groups@));
        let mut out: Vec<char> = Vec::new();
        push_str(&mut out, "Groups:\n(");
        let joined = join_strings_chars(&texts, ")\n(");
        push_all(&mut out, &joined);
        push_str(&mut out, ")\n");
        string_of(&out)
    }

    /// `Tasks:` and the task identities, one per line.
    pub fn get_tasks_info(&self) -> (r: String)
        ensures
            r@ == tasks_info(*self),
    {
        let mut ids: Vec<String> = Vec::new();
        let mut i: usize = 0;
        while i < self.tasks.len()
            invariant
                i <= self.tasks.len(),
                ids@.len() == i,
                forall|k: int| 0 <= k < i ==> (#[trigger] ids@[k])@ == id_text(self.tasks@[k].id@),
            decreases self.tasks.len() - i,
        {
            ids.push(self.tasks[i].id.to_string());
            i += 1;
        }
        assert(strings_view(ids@) =~= task_ids(self.tasks@));
        let mut out: Vec<char> = Vec::new();
        push_str(&mut out, "Tasks:\n");
        let joined = join_strings_chars(&ids, "\n");
        push_all(&mut out, &joined);
        push_str(&mut out, "\n");
        string_of(&out)
    }

    /// `Options:` and the role's option block, or nothing when it has none.
    pub fn get_options_info(&self) -> (r: String)
        ensures
            r@ == options_info(*self),
    {
        match &self.options {
            Some(o) => {
                let mut out: Vec<char> = Vec::new();
                push_str(&mut out, "Options:\n");
                let d = o.get_description();
                push_str(&mut out, d.as_str());
                string_of(&out)
            },
            None => String::new(),
        }
    }

    /// Users, groups, tasks and options, in that order.
    pub fn get_description(&self) -> (r: String)
        ensures
            r@ == users_info(*self) + groups_info(*self) + tasks_info(*self) + options_info(*self),
    {
        let mut out: Vec<char> = Vec::new();
        push_str(&mut out, self.get_users_info().as_str());
        push_str(&mut out, self.get_groups_info().as_str());
        push_str(&mut out, self.get_tasks_info().as_str());
        push_str(&mut out, self.get_options_info().as_str());
        string_of(&out)
    }

    /// Removes every task identified by `id`, keeping the others in order.
    pub fn remove_task(&mut self, id: IdTask)
        ensures
            final(self).tasks@ == without_task(old(self).tasks@, id@),
            final(self).name == old(self).name,
            final(self).users == old(self).users,
            final(self).groups == old(self).groups,
            final(self).options == old(self).options,
    {
        let ghost orig = self.tasks@;
        let mut k: usize = 0;
        let mut i: usize = 0;
        let n = self.tasks.len();
        assert(orig.subrange(0, 0) =~= Seq::<Task>::empty());
        assert(orig.subrange(0, n as int) =~= orig);
        while i < self.tasks.len()
            invariant
                n == orig.len(),
                k <= n,
                i == without_task(orig.subrange(0, k as int), id@).len(),
                self.name == old(self).name,
                self.users == old(self).users,
                self.groups == old(self).groups,
                self.options == old(self).options,
                self.tasks@ == without_task(orig.subrange(0, k as int), id@) + orig.subrange(
                    k as int,
                    n as int,
                ),
            decreases self.tasks.len() - i,
        {
            proof {
                lemma_without_task_step(orig, k as int, id@);
            }
            assert(self.tasks@[i as int] == orig[k as int]);
            if self.tasks[i].id == id {
                self.tasks.remove(i);
                assert(self.tasks@ =~= without_task(orig.subrange(0, k + 1), id@) + orig.subrange(
                    k + 1,
                    n as int,
                ));
            } else {
                i += 1;
                assert(self.tasks@ =~= without_task(orig.subrange(0, k + 1), id@) + orig.subrange(
                    k + 1,
                    n as int,
                ));
            }
            k += 1;
        }
        assert(orig.subrange(k as int, n as int).len() == 0 ==> k == n);
        assert(self.tasks@ =~= without_task(orig, id@));
    }
}

/// Appends the command lines of `cmds`.
fn push_cmd_lines(out: &mut Vec<char>, cmds: &Vec<String>)
    ensures
        final(out)@ == old(out)@ + cmd_lines(strings_view(cmds@)),
{
    let mut i: usize = 0;
    while i < cmds.len()
        invariant
            i <= cmds.len(),
            out@ == old(out)@ + cmd_lines(strings_view(cmds@.subrange(0, i as int))),
        decreases cmds.len() - i,
    {
        let c = crate::text::chars_of(cmds[i].as_str());
        let ghost before = out@;
        if c.len() < 64 {
            push_all(out, &c);
        } else {
            let mut k: usize = 0;
            while k < 64
                invariant
                    k <= 64,
                    64 <= c@.len(),
                    out@ == before + c@.take(k as int),
                decreases 64 - k,
            {
                out.push(c[k]);
                k += 1;
                assert(out@ =~= before + c@.take(k as int));
            }
            push_str(out, "...");
        }
        push_str(out, "\n");
        let ghost pre = strings_view(cmds@.subrange(0, i as int));
        let ghost post = strings_view(cmds@.subrange(0, i + 1));
        assert(post.drop_last() =~= pre);
        assert(post.last() == c@);
        assert(out@ =~= old(out)@ + cmd_lines(post));
        i += 1;
    }
    assert(cmds@.subrange(0, cmds.len() as int) =~= cmds@);
}

impl Task {
    /// A task of role number `role` with no commands, grants or options.
    pub fn new(id: IdTask, role: usize) -> (r: Task)
        ensures
            r.id == id,
            r.role == role,
            r.options is None,
            r.commands@.len() == 0,
            r.capabilities is None,
            r.setuid is None,
            r.setgid is None,
            r.purpose is None,
    {
        Task {
            role,
            id,
            options: None,
            commands: Vec::new(),
            capabilities: None,
            setuid: None,
            setgid: None,
            purpose: None,
        }
    }

    /// The position of the owning role in the tree.
    pub fn get_parent(&self) -> (r: usize)
        ensures
            r == self.role,
    {
        self.role
    }

    /// Purpose, capabilities, setuid, setgid and options when present, then the commands,
    /// each cut to 64 characters.
    pub fn get_description(&self) -> (r: String)
        ensures
            r@ == task_description(*self),
    {
        let mut out: Vec<char> = Vec::new();
        match &self.purpose {
            Some(p) => push_section(&mut out, "Purpose :\n", p.as_str(), "\n"),
            None => {},
        }
        assert(out@ =~= purpose_part(self.purpose));
        let ghost a = out@;
        match &self.capabilities {
            Some(c) => push_section(&mut out, "Capabilities:\n(", c.to_string().as_str(), ")\n"),
            None => {},
        }
        assert(out@ =~= a + caps_part(self.capabilities));
        let ghost b = out@;
        match &self.setuid {
            Some(u) => push_section(&mut out, "Setuid:\n(", u.as_str(), ")\n"),
            None => {},
        }
        assert(out@ =~= b + setuid_part(self.setuid));
        let ghost c = out@;
        match &self.setgid {
            Some(g) => push_section(&mut out, "Setgid:\n(", g.join(" & ").as_str(), ")\n"),
            None => {},
        }
        assert(out@ =~= c + setgid_part(self.setgid));
        let ghost d = out@;
        match &self.options {
            Some(o) => push_section(&mut out, "Options:\n(", o.get_description().as_str(), ")\n"),
            None => {},
        }
        assert(out@ =~= d + task_options_part(self.options));
        push_str(&mut out, "Commands:\n");
        push_cmd_lines(&mut out, &self.commands);
        push_str(&mut out, "\n");
        assert(out@ =~= task_description(*self));
        string_of(&out)
    }
}

/// `after` holds the same option values as `before`.
pub open spec fn same_values(after: Opt, before: Opt) -> bool {
    forall|t: OptType| #[trigger] field_model(after, t) == field_model(before, t)
}

/// A copy of `o` (or an empty block) placed at `level`.
fn block_at(o: &Option<Opt>, level: Level) -> (r: Opt)
    ensures
        r.level == level,
        match o {
            Some(x) => same_values(r, *x),
            None => forall|t: OptType| #[trigger] field_model(r, t) is None,
        },
{
    match o {
        Some(x) => {
            let mut c = x.duplicate();
            c.level = level;
            c
        },
        None => Opt::new(level),
    }
}

/// `slot` holds a block with the values of `o`, or, when `o` is absent, holds a block
/// only if `create` asks for one, and then an empty one.
pub open spec fn slot_matches(slot: Option<Opt>, o: Option<Opt>, create: bool) -> bool {
    match o {
        Some(x) => slot is Some && same_values(slot.unwrap(), x),
        None => if create {
            slot is Some && forall|t: OptType| #[trigger] field_model(slot.unwrap(), t) is None
        } else {
            slot is None
        },
    }
}

impl OptStack {
    /// The stack bound to the global position: the built-in block and the global options
    /// (an empty global block when the tree has none).
    pub fn from_roles(roles: &Roles) -> (r: OptStack)
        ensures
            r.wf(),
            r.stack@[0] is None,
            r.stack@[1] is Some && is_builtin(r.stack@[1].unwrap()),
            slot_matches(r.stack@[2], roles.options, true),
            r.stack@[3] is None,
            r.stack@[4] is None,
    {
        let mut stack = OptStack::default();
        stack.set_opt(block_at(&roles.options, Level::Global));
        stack
    }

    /// The stack bound to role number `role`: the built-in block, the global options if
    /// any, and the role's options (an empty role block when it has none).
    pub fn from_role(roles: &Roles, role: &usize) -> (r: OptStack)
        requires
            *role < roles.roles@.len(),
        ensures
            r.wf(),
            r.stack@[0] is None,
            r.stack@[1] is Some && is_builtin(r.stack@[1].unwrap()),
            slot_matches(r.stack@[2], roles.options, false),
            slot_matches(r.stack@[3], roles.roles@[*role as int].options, true),
            r.stack@[4] is None,
    {
        let mut stack = OptStack::default();
        if roles.options.is_some() {
            stack.set_opt(block_at(&roles.options, Level::Global));
        }
        stack.set_opt(block_at(&roles.roles[*role].options, Level::Role));
        stack
    }

    /// The stack bound to task number `commands` of role number `role`: the built-in
    /// block, the global and role options if any, and the task's options (an empty task
    /// block when it has none).
    pub fn from_task(roles: &Roles, role: &usize, commands: &usize) -> (r: OptStack)
        requires
            *role < roles.roles@.len(),
            *commands < roles.roles@[*role as int].tasks@.len(),
        ensures
            r.wf(),
            r.stack@[0] is None,
            r.stack@[1] is Some && is_builtin(r.stack@[1].unwrap()),
            slot_matches(r.stack@[2], roles.options, false),
            slot_matches(r.stack@[3], roles.roles@[*role as int].options, false),
            slot_matches(
                r.stack@[4],
                roles.roles@[*role as int].tasks@[*commands as int].options,
                true,
            ),
    {
        let mut stack = OptStack::default();
        if roles.options.is_some() {
            stack.set_opt(block_at(&roles.options, Level::Global));
        }
        if roles.roles[*role].options.is_some() {
            stack.set_opt(block_at(&roles.roles[*role].options, Level::Role));
        }
        stack.set_opt(block_at(&roles.roles[*role].tasks[*commands].options, Level::Task));
        stack
    }
}

impl Roles {
    /// Stores `opt` as the option block of task `ti` of role `ri`, placed at the task level
    /// (write-back of an option stack bound to that task).
    pub fn set_task_options(&mut self, ri: usize, ti: usize, opt: &Opt)
        requires
            ri < old(self).roles@.len(),
            ti < old(self).roles@[ri as int].tasks@.len(),
        ensures
            final(self).roles@.len() == old(self).roles@.len(),
            final(self).roles@[ri as int].tasks@.len() == old(self).roles@[ri as int].tasks@.len(),
            final(self).roles@[ri as int].tasks@[ti as int].options is Some,
            same_values(final(self).roles@[ri as int].tasks@[ti as int].options.unwrap(), *opt),
            final(self).roles@[ri as int].tasks@[ti as int].options.unwrap().level == Level::Task,
            final(self).options == old(self).options,
            final(self).version == old(self).version,
            forall|j: int|
                0 <= j < old(self).roles@.len() && j != ri ==> #[trigger] final(self).roles@[j]
                    == old(self).roles@[j],
            final(self).roles@[ri as int].name == old(self).roles@[ri as int].name,
            final(self).roles@[ri as int].users == old(self).roles@[ri as int].users,
            final(self).roles@[ri as int].groups == old(self).roles@[ri as int].groups,
            final(self).roles@[ri as int].options == old(self).roles@[ri as int].options,
            forall|k: int|
                0 <= k < old(self).roles@[ri as int].tasks@.len() && k != ti
                    ==> #[trigger] final(self).roles@[ri as int].tasks@[k] == old(
                    self,
                ).roles@[ri as int].tasks@[k],
            ({
                let a = final(self).roles@[ri as int].tasks@[ti as int];
                let b = old(self).roles@[ri as int].tasks@[ti as int];
                a.role == b.role && a.id == b.id && a.commands == b.commands && a.capabilities
                    == b.capabilities && a.setuid == b.setuid && a.setgid == b.setgid && a.purpose
                    == b.purpose
            }),
    {
        let o = block_at(&Some(opt.duplicate()), Level::Task);
        self.roles[ri].tasks[ti].options = Some(o);
    }
}

} // verus!
