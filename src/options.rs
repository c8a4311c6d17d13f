//! The option blocks of the configuration tree and the resolution stack that finds
//! the effective value of each option, from the most specific level down.
use vstd::prelude::*;
use crate::text::{push_str, string_of};

verus! {

/// The levels of the override stack, least specific first; `Unset` stands for no level.
#[derive(Clone, Copy, Debug, PartialEq, Eq, Structural, Hash)]
pub enum Level {
    Unset,
    Default,
    Global,
    Role,
    Task,
}

/// How many levels the stack has.
pub const LEVEL_COUNT: usize = 5;

impl Level {
    /// The position of this level in the stack.
    pub open spec fn index(self) -> int {
        match self {
            Level::Unset => 0,
            Level::Default => 1,
            Level::Global => 2,
            Level::Role => 3,
            Level::Task => 4,
        }
    }

    /// The position of this level in the stack.
    pub fn as_usize(&self) -> (r: usize)
        ensures
            r == self.index(),
    {
        match self {
            Level::Unset => 0,
            Level::Default => 1,
            Level::Global => 2,
            Level::Role => 3,
            Level::Task => 4,
        }
    }
}

/// The level at stack position `i` (`i < 5`).
pub open spec fn level_at(i: int) -> Level {
    if i == 1 {
        Level::Default
    } else if i == 2 {
        Level::Global
    } else if i == 3 {
        Level::Role
    } else if i == 4 {
        Level::Task
    } else {
        Level::Unset
    }
}

/// The level at stack position `i`.
pub fn level_from_usize(i: usize) -> (r: Level)
    ensures
        r == level_at(i as int),
        i < LEVEL_COUNT ==> r.index() == i,
{
    if i == 1 {
        Level::Default
    } else if i == 2 {
        Level::Global
    } else if i == 3 {
        Level::Role
    } else if i == 4 {
        Level::Task
    } else {
        Level::Unset
    }
}

/// The tunable options.
#[derive(Clone, Copy, Debug, PartialEq, Eq, Structural)]
pub enum OptType {
    Path,
    EnvWhitelist,
    EnvChecklist,
    /// The root-allowed flag (`Opt::allow_root`): `true` lets the command run as a
    /// root-equivalent identity, `false` bars new privileges.
    NoRoot,
    /// The bounding-allowed flag (`Opt::disable_bounding`): `true` leaves the bounding set
    /// as it is, `false` restricts it to the granted capabilities.
    Bounding,
    Wildcard,
}

/// How many option kinds there are.
pub const OPT_TYPE_COUNT: usize = 6;

impl OptType {
    /// The position of this option kind in `item_list_str`.
    pub open spec fn index(self) -> int {
        match self {
            OptType::Path => 0,
            OptType::EnvWhitelist => 1,
            OptType::EnvChecklist => 2,
            OptType::NoRoot => 3,
            OptType::Bounding => 4,
            OptType::Wildcard => 5,
        }
    }

    /// Whether this option holds a flag rather than text.
    pub open spec fn is_flag(self) -> bool {
        self == OptType::NoRoot || self == OptType::Bounding
    }

    /// The option kind at position `index`.
    pub fn from_index(index: usize) -> (r: OptType)
        requires
            index < OPT_TYPE_COUNT,
        ensures
            r.index() == index,
    {
        match index {
            0 => OptType::Path,
            1 => OptType::EnvWhitelist,
            2 => OptType::EnvChecklist,
            3 => OptType::NoRoot,
            4 => OptType::Bounding,
            _ => OptType::Wildcard,
        }
    }

    /// The position of this option kind.
    pub fn as_index(&self) -> (r: usize)
        ensures
            r == self.index(),
    {
        match self {
            OptType::Path => 0,
            OptType::EnvWhitelist => 1,
            OptType::EnvChecklist => 2,
            OptType::NoRoot => 3,
            OptType::Bounding => 4,
            OptType::Wildcard => 5,
        }
    }

    /// Each option kind with its display name, in index order.
    pub fn item_list_str() -> (r: Vec<(OptType, String)>)
        ensures
            r@.len() == OPT_TYPE_COUNT,
            forall|i: int| 0 <= i < r@.len() ==> (#[trigger] r@[i]).0.index() == i,
            r@[0].1@ == "Path"@,
            r@[1].1@ == "Environment Whitelist"@,
            r@[2].1@ == "Environment Checklist"@,
            r@[3].1@ == "Allow Root"@,
            r@[4].1@ == "Allow Bounding"@,
            r@[5].1@ == "Wildcard Denied"@,
    {
        let mut v: Vec<(OptType, String)> = Vec::new();
        v.push((OptType::Path, String::from_str("Path")));
        v.push((OptType::EnvWhitelist, String::from_str("Environment Whitelist")));
        v.push((OptType::EnvChecklist, String::from_str("Environment Checklist")));
        v.push((OptType::NoRoot, String::from_str("Allow Root")));
        v.push((OptType::Bounding, String::from_str("Allow Bounding")));
        v.push((OptType::Wildcard, String::from_str("Wildcard Denied")));
        v
    }
}

/// The value of one option, as the model sees it.
pub enum OptModel {
    Text(Seq<char>),
    Flag(bool),
}

/// The value of one option.
#[derive(Debug)]
pub enum OptValue {
    String(String),
    Bool(bool),
}

impl View for OptValue {
    type V = OptModel;

    open spec fn view(&self) -> OptModel {
        match self {
            OptValue::String(s) => OptModel::Text(s@),
            OptValue::Bool(b) => OptModel::Flag(*b),
        }
    }
}

impl OptValue {
    /// The flag held by a flag value.
    pub fn as_bool(&self) -> (r: bool)
        requires
            self is Bool,
        ensures
            self@ == OptModel::Flag(r),
    {
        match self {
            OptValue::Bool(b) => *b,
            OptValue::String(_) => false,
        }
    }

    /// The value as text: the string itself, or `true` / `false`.
    pub fn to_string(&self) -> (r: String)
        ensures
            r@ == match self@ {
                OptModel::Text(s) => s,
                OptModel::Flag(b) => if b { "true"@ } else { "false"@ },
            },
    {
        match self {
            OptValue::String(s) => s.clone(),
            OptValue::Bool(b) => if *b {
                String::from_str("true")
            } else {
                String::from_str("false")
            },
        }
    }
}

/// The copy of an optional string.
pub fn clone_text(s: &Option<String>) -> (r: Option<String>)
    ensures
        r == *s,
{
    match s {
        Some(t) => Some(t.clone()),
        None => None,
    }
}

/// One option block: each field is unset (`None`) or overrides the levels below.
#[derive(Debug)]
pub struct Opt {
    /// The level this block belongs to.
    pub level: Level,
    /// Search PATH for the executed command.
    pub path: Option<String>,
    /// Comma-separated names of the variables kept verbatim.
    pub env_whitelist: Option<String>,
    /// Comma-separated names of the variables kept when their value is safe.
    pub env_checklist: Option<String>,
    /// Characters that a wildcard of a command pattern must not match.
    pub wildcard_denied: Option<String>,
    /// The root-allowed flag: when it resolves to false, the process is barred from
    /// gaining privileges before any identity change.
    pub allow_root: Option<bool>,
    /// The bounding-allowed flag (the configuration's `allow-bounding` element): `true`
    /// leaves the bounding set as it is; when it resolves to `false`, the bounding set is
    /// restricted to the granted capabilities (emptied when none are granted).
    pub disable_bounding: Option<bool>,
}

/// The value that block `o` sets for option `t`, if it sets one.
pub open spec fn field_model(o: Opt, t: OptType) -> Option<OptModel> {
    match t {
        OptType::Path => match o.path {
            Some(s) => Some(OptModel::Text(s@)),
            None => None,
        },
        OptType::EnvWhitelist => match o.env_whitelist {
            Some(s) => Some(OptModel::Text(s@)),
            None => None,
        },
        OptType::EnvChecklist => match o.env_checklist {
            Some(s) => Some(OptModel::Text(s@)),
            None => None,
        },
        OptType::Wildcard => match o.wildcard_denied {
            Some(s) => Some(OptModel::Text(s@)),
            None => None,
        },
        OptType::NoRoot => match o.allow_root {
            Some(b) => Some(OptModel::Flag(b)),
            None => None,
        },
        OptType::Bounding => match o.disable_bounding {
            Some(b) => Some(OptModel::Flag(b)),
            None => None,
        },
    }
}

/// Every field of `a` but option `t` equals that of `b`, and the level too.
pub open spec fn same_but(a: Opt, b: Opt, t: OptType) -> bool {
    &&& a.level == b.level
    &&& forall|u: OptType| u != t ==> field_model(a, u) == field_model(b, u)
}

impl Opt {
    /// A block at `level` with every option unset.
    pub fn new(level: Level) -> (r: Opt)
        ensures
            r.level == level,
            forall|t: OptType| field_model(r, t) is None,
    {
        Opt {
            level,
            path: None,
            env_whitelist: None,
            env_checklist: None,
            wildcard_denied: None,
            allow_root: None,
            disable_bounding: None,
        }
    }

    /// A copy of this block.
    pub fn duplicate(&self) -> (r: Opt)
        ensures
            r == *self,
    {
        Opt {
            level: self.level,
            path: clone_text(&self.path),
            env_whitelist: clone_text(&self.env_whitelist),
            env_checklist: clone_text(&self.env_checklist),
            wildcard_denied: clone_text(&self.wildcard_denied),
            allow_root: self.allow_root,
            disable_bounding: self.disable_bounding,
        }
    }

    /// The value this block sets for option `t`.
    pub fn get(&self, t: OptType) -> (r: Option<OptValue>)
        ensures
            match r {
                Some(v) => field_model(*self, t) == Some(v@),
                None => field_model(*self, t) is None,
            },
    {
        match t {
            OptType::Path => match &self.path {
                Some(s) => Some(OptValue::String(s.clone())),
                None => None,
            },
            OptType::EnvWhitelist => match &self.env_whitelist {
                Some(s) => Some(OptValue::String(s.clone())),
                None => None,
            },
            OptType::EnvChecklist => match &self.env_checklist {
                Some(s) => Some(OptValue::String(s.clone())),
                None => None,
            },
            OptType::Wildcard => match &self.wildcard_denied {
                Some(s) => Some(OptValue::String(s.clone())),
                None => None,
            },
            OptType::NoRoot => match self.allow_root {
                Some(b) => Some(OptValue::Bool(b)),
                None => None,
            },
            OptType::Bounding => match self.disable_bounding {
                Some(b) => Some(OptValue::Bool(b)),
                None => None,
            },
        }
    }

    /// Sets option `t` to `value` when the value has the option's kind (text or flag);
    /// otherwise leaves the block as it is.
    pub fn set(&mut self, t: OptType, value: OptValue)
        ensures
            same_but(*final(self), *old(self), t),
            field_model(*final(self), t) == if t.is_flag() == (value is Bool) {
                Some(value@)
            } else {
                field_model(*old(self), t)
            },
    {
        match (t, value) {
            (OptType::Path, OptValue::String(s)) => {
                self.path = Some(s);
            },
            (OptType::EnvWhitelist, OptValue::String(s)) => {
                self.env_whitelist = Some(s);
            },
            (OptType::EnvChecklist, OptValue::String(s)) => {
                self.env_checklist = Some(s);
            },
            (OptType::Wildcard, OptValue::String(s)) => {
                self.wildcard_denied = Some(s);
            },
            (OptType::NoRoot, OptValue::Bool(b)) => {
                self.allow_root = Some(b);
            },
            (OptType::Bounding, OptValue::Bool(b)) => {
                self.disable_bounding = Some(b);
            },
            _ => {},
        }
    }
}

/// `o` is the built-in block that `Opt::default` gives.
pub open spec fn is_builtin(o: Opt) -> bool {
    &&& o.level == Level::Default
    &&& o.path is Some && o.path.unwrap()@
        == "/usr/local/sbin:/usr/local/bin:/usr/sbin:/usr/bin:/sbin:/bin:/snap/bin"@
    &&& o.env_whitelist is Some && o.env_whitelist.unwrap()@
        == "HOME,USER,LOGNAME,COLORS,DISPLAY,HOSTNAME,KRB5CCNAME,LS_COLORS,PS1,PS2,XAUTHORY,XAUTHORIZATION,XDG_CURRENT_DESKTOP"@
    &&& o.env_checklist is Some && o.env_checklist.unwrap()@
        == "COLORTERM,LANG,LANGUAGE,LC_*,LINGUAS,TERM,TZ"@
    &&& o.wildcard_denied is Some && o.wildcard_denied.unwrap()@ == ";&|"@
    &&& o.allow_root == Some(true)
    &&& o.disable_bounding == Some(true)
}

impl Default for Opt {
    /// The built-in block: the standard search PATH, the usual kept and checked
    /// variables, root and bounding allowed, and `;&|` barred from wildcards.
    fn default() -> (r: Opt)
        ensures
            is_builtin(r),
    {
        Opt {
            level: Level::Default,
            path: Some(
                String::from_str(
                    "/usr/local/sbin:/usr/local/bin:/usr/sbin:/usr/bin:/sbin:/bin:/snap/bin",
                ),
            ),
            env_whitelist: Some(
                String::from_str(
                    "HOME,USER,LOGNAME,COLORS,DISPLAY,HOSTNAME,KRB5CCNAME,LS_COLORS,PS1,PS2,XAUTHORY,XAUTHORIZATION,XDG_CURRENT_DESKTOP",
                ),
            ),
            env_checklist: Some(String::from_str("COLORTERM,LANG,LANGUAGE,LC_*,LINGUAS,TERM,TZ")),
            wildcard_denied: Some(String::from_str(";&|")),
            allow_root: Some(true),
            disable_bounding: Some(true),
        }
    }
}

/// The text of a flag.
pub open spec fn flag_text(b: bool) -> Seq<char> {
    if b { "true"@ } else { "false"@ }
}

/// `label` followed by the value and a newline, or nothing when the value is unset.
pub open spec fn text_line(label: Seq<char>, v: Option<String>) -> Seq<char> {
    match v {
        Some(s) => label + s@ + "\n"@,
        None => Seq::<char>::empty(),
    }
}

/// `label` followed by the flag and a newline, or nothing when the flag is unset.
pub open spec fn flag_line(label: Seq<char>, v: Option<bool>) -> Seq<char> {
    match v {
        Some(b) => label + flag_text(b) + "\n"@,
        None => Seq::<char>::empty(),
    }
}

/// The human-readable description of a block: one line per set option.
pub open spec fn opt_description(o: Opt) -> Seq<char> {
    text_line("Path: "@, o.path) + text_line("Env whitelist: "@, o.env_whitelist) + text_line(
        "Env checklist: "@,
        o.env_checklist,
    ) + flag_line("No root: "@, o.allow_root) + flag_line("Bounding: "@, o.disable_bounding)
        + text_line("Wildcard denied: "@, o.wildcard_denied)
}

fn push_text_line(out: &mut Vec<char>, label: &str, v: &Option<String>)
    ensures
        final(out)@ == old(out)@ + text_line(label@, *v),
{
    match v {
        Some(s) => {
            push_str(out, label);
            push_str(out, s.as_str());
            push_str(out, "\n");
            assert(final(out)@ =~= old(out)@ + text_line(label@, *v));
        },
        None => {
            assert(old(out)@ + text_line(label@, *v) =~= old(out)@);
        },
    }
}

fn push_flag_line(out: &mut Vec<char>, label: &str, v: Option<bool>)
    ensures
        final(out)@ == old(out)@ + flag_line(label@, v),
{
    match v {
        Some(b) => {
            push_str(out, label);
            if b {
                push_str(out, "true");
            } else {
                push_str(out, "false");
            }
            push_str(out, "\n");
            assert(final(out)@ =~= old(out)@ + flag_line(label@, v));
        },
        None => {
            assert(old(out)@ + flag_line(label@, v) =~= old(out)@);
        },
    }
}

impl Opt {
    /// One line per set option: `Path: `, `Env whitelist: `, `Env checklist: `,
    /// `No root: `, `Bounding: `, `Wildcard denied: ` followed by the value.
    pub fn get_description(&self) -> (r: String)
        ensures
            r@ == opt_description(*self),
    {
        let mut out: Vec<char> = Vec::new();
        push_text_line(&mut out, "Path: ", &self.path);
        push_text_line(&mut out, "Env whitelist: ", &self.env_whitelist);
        push_text_line(&mut out, "Env checklist: ", &self.env_checklist);
        push_flag_line(&mut out, "No root: ", self.allow_root);
        push_flag_line(&mut out, "Bounding: ", self.disable_bounding);
        push_text_line(&mut out, "Wildcard denied: ", &self.wildcard_denied);
        assert(out@ =~= opt_description(*self));
        string_of(&out)
    }
}

/// The first value of option `t` found scanning positions `n - 1` down to `0`, with the
/// level of the block that holds it.
pub open spec fn resolve_from(s: Seq<Option<Opt>>, t: OptType, n: int) -> Option<(Level, OptModel)>
    decreases n,
{
    if n <= 0 {
        None
    } else {
        match s[n - 1] {
            Some(o) => match field_model(o, t) {
                Some(v) => Some((o.level, v)),
                None => resolve_from(s, t, n - 1),
            },
            None => resolve_from(s, t, n - 1),
        }
    }
}

/// The effective value of option `t`: the one of the most specific block that sets it.
pub open spec fn resolve(s: Seq<Option<Opt>>, t: OptType) -> Option<(Level, OptModel)> {
    resolve_from(s, t, LEVEL_COUNT as int)
}

/// The level that resolution reports for `t` (`Unset` when no block sets it).
pub open spec fn resolved_level(s: Seq<Option<Opt>>, t: OptType) -> Level {
    match resolve(s, t) {
        Some((l, _)) => l,
        None => Level::Unset,
    }
}

/// The effective text of `t`, the empty text when no block sets it.
pub open spec fn resolved_text(s: Seq<Option<Opt>>, t: OptType) -> Seq<char> {
    match resolve(s, t) {
        Some((_, OptModel::Text(v))) => v,
        _ => Seq::<char>::empty(),
    }
}

/// The effective flag of `t`, `true` when no block sets it.
pub open spec fn resolved_flag(s: Seq<Option<Opt>>, t: OptType) -> bool {
    match resolve(s, t) {
        Some((_, OptModel::Flag(b))) => b,
        _ => true,
    }
}

/// The value that `get_from_type` reports for `t`.
pub open spec fn resolved_value(s: Seq<Option<Opt>>, t: OptType) -> OptModel {
    if t.is_flag() {
        OptModel::Flag(resolved_flag(s, t))
    } else {
        OptModel::Text(resolved_text(s, t))
    }
}

/// The highest position below `n` that holds a block, or `-1`.
pub open spec fn top_from(s: Seq<Option<Opt>>, n: int) -> int
    decreases n,
{
    if n <= 0 {
        -1
    } else if s[n - 1] is Some {
        n - 1
    } else {
        top_from(s, n - 1)
    }
}

/// The override stack: one optional block per level, indexed by `Level::index`.
#[derive(Debug)]
pub struct OptStack {
    pub stack: [Option<Opt>; 5],
}

impl OptStack {
    /// Each block sits at its own level's position, and the built-in block is present.
    pub open spec fn wf(&self) -> bool {
        &&& forall|i: int|
            0 <= i < LEVEL_COUNT && (#[trigger] self.stack@[i]) is Some ==> self.stack@[i].unwrap().level
                == level_at(i)
        &&& self.stack@[1] is Some
    }

    /// The position of the most specific block.
    pub open spec fn top(&self) -> int {
        top_from(self.stack@, LEVEL_COUNT as int)
    }
}

proof fn lemma_top_from_bounds(s: Seq<Option<Opt>>, n: int)
    requires
        2 <= n <= 5,
        s.len() == 5,
        s[1] is Some,
    ensures
        1 <= top_from(s, n) < n,
        s[top_from(s, n)] is Some,
        forall|j: int| top_from(s, n) < j < n ==> s[j] is None,
    decreases n,
{
    if n > 2 && s[n - 1] is None {
        lemma_top_from_bounds(s, n - 1);
    }
}

impl Default for OptStack {
    /// A stack holding only the built-in block.
    fn default() -> (r: OptStack)
        ensures
            r.wf(),
            r.stack@[0] is None,
            r.stack@[1] is Some && is_builtin(r.stack@[1].unwrap()),
            r.stack@[2] is None,
            r.stack@[3] is None,
            r.stack@[4] is None,
    {
        let d = Opt::default();
        OptStack { stack: [None, Some(d), None, None, None] }
    }
}

/// `after` is `before` with `o` placed at position `i` and every other position kept.
pub open spec fn placed(before: OptStack, after: OptStack, i: int, o: Opt) -> bool {
    &&& after.stack@[i] == Some(o)
    &&& forall|j: int| 0 <= j < LEVEL_COUNT && j != i ==> #[trigger] after.stack@[j] == before.stack@[j]
}

/// What `set_at_level(t, value, level)` makes of a stack: the block at `level` (created
/// empty when absent) gets `value` for `t` when the kinds agree; nothing else changes.
pub open spec fn set_at_level_post(
    before: OptStack,
    after: OptStack,
    t: OptType,
    value: Option<OptModel>,
    level: Level,
) -> bool {
    let i = level.index();
    &&& after.stack@[i] is Some
    &&& forall|j: int| 0 <= j < LEVEL_COUNT && j != i ==> #[trigger] after.stack@[j] == before.stack@[j]
    &&& after.stack@[i].unwrap().level == level
    &&& forall|u: OptType|
        u != t ==> #[trigger] field_model(after.stack@[i].unwrap(), u) == match before.stack@[i] {
            Some(o) => field_model(o, u),
            None => None,
        }
    &&& field_model(after.stack@[i].unwrap(), t) == match value {
        Some(v) => if t.is_flag() == (v is Flag) {
            Some(v)
        } else {
            match before.stack@[i] {
                Some(o) => field_model(o, t),
                None => None,
            }
        },
        None => match before.stack@[i] {
            Some(o) => field_model(o, t),
            None => None,
        },
    }
}

impl OptStack {
    /// Places `opt` at its own level's position.
    pub fn set_opt(&mut self, opt: Opt)
        requires
            old(self).wf(),
            opt.level != Level::Unset,
        ensures
            final(self).wf(),
            placed(*old(self), *final(self), opt.level.index(), opt),
    {
        let i = opt.level.as_usize();
        self.stack[i] = Some(opt);
        assert(self.stack@[1] is Some);
    }

    /// The level of the most specific block.
    pub fn get_level(&self) -> (r: Level)
        requires
            self.wf(),
        ensures
            r == level_at(self.top()),
            r.index() == self.top(),
            1 <= self.top() < LEVEL_COUNT,
    {
        proof {
            lemma_top_from_bounds(self.stack@, 5);
        }
        let mut i: usize = LEVEL_COUNT;
        while i > 0
            invariant
                i <= LEVEL_COUNT,
                self.wf(),
                top_from(self.stack@, LEVEL_COUNT as int) == top_from(self.stack@, i as int),
                1 <= top_from(self.stack@, LEVEL_COUNT as int) < LEVEL_COUNT,
            decreases i,
        {
            if self.stack[i - 1].is_some() {
                return level_from_usize(i - 1);
            }
            i -= 1;
        }
        Level::Unset
    }

    /// The effective value of `t` with the level that supplies it, or `Unset` and no
    /// value when no block sets it.
    pub fn resolve(&self, t: OptType) -> (r: (Level, Option<OptValue>))
        ensures
            match resolve(self.stack@, t) {
                Some((l, v)) => r.0 == l && r.1 is Some && r.1.unwrap()@ == v,
                None => r.0 == Level::Unset && r.1 is None,
            },
    {
        let mut i: usize = LEVEL_COUNT;
        while i > 0
            invariant
                i <= LEVEL_COUNT,
                resolve(self.stack@, t) == resolve_from(self.stack@, t, i as int),
            decreases i,
        {
            match &self.stack[i - 1] {
                Some(o) => {
                    match o.get(t) {
                        Some(v) => {
                            return (o.level, Some(v));
                        },
                        None => {},
                    }
                },
                None => {},
            }
            i -= 1;
        }
        (Level::Unset, None)
    }

    /// Calls `f` on each block from the most specific down and returns the first result
    /// that is not `None`.
    pub fn find_in_options<T, F: Fn(&Opt) -> Option<(Level, T)>>(&self, f: F) -> (r: Option<
        (Level, T),
    >)
        requires
            forall|o: &Opt| f.requires((o,)),
        ensures
            r is Some ==> exists|i: int|
                0 <= i < LEVEL_COUNT && #[trigger] self.stack@[i] is Some && f.ensures(
                    (&self.stack@[i].unwrap(),),
                    r,
                ) && forall|j: int|
                    i < j < LEVEL_COUNT && #[trigger] self.stack@[j] is Some ==> f.ensures(
                        (&self.stack@[j].unwrap(),),
                        None,
                    ),
            r is None ==> forall|j: int|
                0 <= j < LEVEL_COUNT && #[trigger] self.stack@[j] is Some ==> f.ensures(
                    (&self.stack@[j].unwrap(),),
                    None,
                ),
    {
        let mut i: usize = LEVEL_COUNT;
        while i > 0
            invariant
                i <= LEVEL_COUNT,
                forall|o: &Opt| f.requires((o,)),
                forall|j: int|
                    i <= j < LEVEL_COUNT && #[trigger] self.stack@[j] is Some ==> f.ensures(
                        (&self.stack@[j].unwrap(),),
                        None,
                    ),
            decreases i,
        {
            match &self.stack[i - 1] {
                Some(o) => {
                    let res = f(o);
                    if res.is_some() {
                        assert(self.stack@[i - 1] is Some);
                        return res;
                    }
                },
                None => {},
            }
            i -= 1;
        }
        None
    }

    /// The effective value of `t` with its level; unset text resolves to the empty text
    /// and an unset flag to `true`, at level `Unset`.
    pub fn get_from_type(&self, opttype: OptType) -> (r: (Level, OptValue))
        ensures
            r.0 == resolved_level(self.stack@, opttype),
            r.1@ == resolved_value(self.stack@, opttype),
    {
        let (l, v) = self.resolve(opttype);
        match v {
            Some(OptValue::String(s)) => {
                if opttype == OptType::NoRoot || opttype == OptType::Bounding {
                    (l, OptValue::Bool(true))
                } else {
                    (l, OptValue::String(s))
                }
            },
            Some(OptValue::Bool(b)) => {
                if opttype == OptType::NoRoot || opttype == OptType::Bounding {
                    (l, OptValue::Bool(b))
                } else {
                    (l, OptValue::String(String::new()))
                }
            },
            None => {
                if opttype == OptType::NoRoot || opttype == OptType::Bounding {
                    (l, OptValue::Bool(true))
                } else {
                    (l, OptValue::String(String::new()))
                }
            },
        }
    }

    /// The value that the block at `level` sets for `t`, if that block exists and sets it.
    pub fn get_from_level(&self, level: Level, opttype: OptType) -> (r: Option<OptValue>)
        ensures
            match self.stack@[level.index()] {
                Some(o) => match r {
                    Some(v) => field_model(o, opttype) == Some(v@),
                    None => field_model(o, opttype) is None,
                },
                None => r is None,
            },
    {
        match &self.stack[level.as_usize()] {
            Some(o) => o.get(opttype),
            None => None,
        }
    }

    fn resolved_text_of(&self, t: OptType) -> (r: (Level, String))
        requires
            !t.is_flag(),
        ensures
            r.0 == resolved_level(self.stack@, t),
            r.1@ == resolved_text(self.stack@, t),
    {
        let (l, v) = self.get_from_type(t);
        match v {
            OptValue::String(s) => (l, s),
            OptValue::Bool(_) => (l, String::new()),
        }
    }

    fn resolved_flag_of(&self, t: OptType) -> (r: (Level, bool))
        requires
            t.is_flag(),
        ensures
            r.0 == resolved_level(self.stack@, t),
            r.1 == resolved_flag(self.stack@, t),
    {
        let (l, v) = self.get_from_type(t);
        match v {
            OptValue::Bool(b) => (l, b),
            OptValue::String(_) => (l, true),
        }
    }

    /// The effective search PATH and its level.
    pub fn get_path(&self) -> (r: (Level, String))
        ensures
            r.0 == resolved_level(self.stack@, OptType::Path),
            r.1@ == resolved_text(self.stack@, OptType::Path),
    {
        self.resolved_text_of(OptType::Path)
    }

    /// The effective list of variables kept verbatim, and its level.
    pub fn get_env_whitelist(&self) -> (r: (Level, String))
        ensures
            r.0 == resolved_level(self.stack@, OptType::EnvWhitelist),
            r.1@ == resolved_text(self.stack@, OptType::EnvWhitelist),
    {
        self.resolved_text_of(OptType::EnvWhitelist)
    }

    /// The effective list of variables kept when their value is safe, and its level.
    pub fn get_env_checklist(&self) -> (r: (Level, String))
        ensures
            r.0 == resolved_level(self.stack@, OptType::EnvChecklist),
            r.1@ == resolved_text(self.stack@, OptType::EnvChecklist),
    {
        self.resolved_text_of(OptType::EnvChecklist)
    }

    /// The effective characters that wildcards must not match, and their level.
    pub fn get_wildcard_denied(&self) -> (r: (Level, String))
        ensures
            r.0 == resolved_level(self.stack@, OptType::Wildcard),
            r.1@ == resolved_text(self.stack@, OptType::Wildcard),
    {
        self.resolved_text_of(OptType::Wildcard)
    }

    /// The effective root-allowed flag (`true`: root allowed) and its level.
    pub fn get_no_root(&self) -> (r: (Level, bool))
        ensures
            r.0 == resolved_level(self.stack@, OptType::NoRoot),
            r.1 == resolved_flag(self.stack@, OptType::NoRoot),
    {
        self.resolved_flag_of(OptType::NoRoot)
    }

    /// The effective bounding-allowed flag (`true`: bounding set left as it is) and its level.
    pub fn get_bounding(&self) -> (r: (Level, bool))
        ensures
            r.0 == resolved_level(self.stack@, OptType::Bounding),
            r.1 == resolved_flag(self.stack@, OptType::Bounding),
    {
        self.resolved_flag_of(OptType::Bounding)
    }

    /// Writes `value` for `opttype` into the block at `level`, creating that block when
    /// it is absent; a value of the wrong kind, or none, writes nothing.
    pub fn set_at_level(&mut self, opttype: OptType, value: Option<OptValue>, level: Level)
        requires
            old(self).wf(),
        ensures
            final(self).wf(),
            set_at_level_post(
                *old(self),
                *final(self),
                opttype,
                match value {
                    Some(v) => Some(v@),
                    None => None,
                },
                level,
            ),
    {
        let i = level.as_usize();
        let mut o = match &self.stack[i] {
            Some(o) => o.duplicate(),
            None => Opt::new(level),
        };
        proof {
            if self.stack@[i as int] is Some {
                assert(self.stack@[i as int].unwrap().level == level_at(i as int));
            }
        }
        match value {
            Some(v) => o.set(opttype, v),
            None => {},
        }
        self.stack[i] = Some(o);
    }

    /// Writes `value` for `opttype` at the most specific level of the stack.
    pub fn set_value(&mut self, opttype: OptType, value: Option<OptValue>)
        requires
            old(self).wf(),
        ensures
            final(self).wf(),
            set_at_level_post(
                *old(self),
                *final(self),
                opttype,
                match value {
                    Some(v) => Some(v@),
                    None => None,
                },
                level_at(old(self).top()),
            ),
    {
        let level = self.get_level();
        self.set_at_level(opttype, value, level);
    }
}

proof fn lemma_resolve_from_witness(s: Seq<Option<Opt>>, t: OptType, n: int)
    requires
        0 <= n <= s.len(),
    ensures
        match resolve_from(s, t, n) {
            Some((l, v)) => exists|i: int|
                0 <= i < n && s[i] is Some && s[i].unwrap().level == l && field_model(
                    #[trigger] s[i].unwrap(),
                    t,
                ) == Some(v) && forall|j: int|
                    i < j < n && #[trigger] s[j] is Some ==> field_model(s[j].unwrap(), t) is None,
            None => forall|j: int|
                0 <= j < n && #[trigger] s[j] is Some ==> field_model(s[j].unwrap(), t) is None,
        },
    decreases n,
{
    if n > 0 {
        lemma_resolve_from_witness(s, t, n - 1);
        match s[n - 1] {
            Some(o) => match field_model(o, t) {
                Some(v) => {
                    assert(s[n - 1] is Some && field_model(s[n - 1].unwrap(), t) == Some(v));
                },
                None => {},
            },
            None => {},
        }
    }
}

/// Resolution takes each option from the most specific block that sets it: the reported
/// value and level come from a block that sets the option, and no more specific block
/// sets it; when nothing is reported, no block sets it.
pub proof fn lemma_resolve_most_specific(st: OptStack, t: OptType)
    requires
        st.wf(),
    ensures
        match resolve(st.stack@, t) {
            Some((l, v)) => exists|i: int|
                0 <= i < LEVEL_COUNT && st.stack@[i] is Some && l == level_at(i) && field_model(
                    #[trigger] st.stack@[i].unwrap(),
                    t,
                ) == Some(v) && forall|j: int|
                    i < j < LEVEL_COUNT && #[trigger] st.stack@[j] is Some ==> field_model(
                        st.stack@[j].unwrap(),
                        t,
                    ) is None,
            None => forall|j: int|
                0 <= j < LEVEL_COUNT && #[trigger] st.stack@[j] is Some ==> field_model(
                    st.stack@[j].unwrap(),
                    t,
                ) is None,
        },
{
    lemma_resolve_from_witness(st.stack@, t, LEVEL_COUNT as int);
}

proof fn lemma_resolve_from_top(s: Seq<Option<Opt>>, t: OptType, n: int, i: int, o: Opt, v: OptModel)
    requires
        0 <= i < n <= s.len(),
        s[i] == Some(o),
        field_model(o, t) == Some(v),
        forall|j: int| i < j < n ==> s[j] is None,
    ensures
        resolve_from(s, t, n) == Some((o.level, v)),
    decreases n,
{
    if n - 1 > i {
        lemma_resolve_from_top(s, t, n - 1, i, o, v);
    }
}

/// Setting an option on a stack and resolving it again gives the written value, reported
/// at the stack's most specific level.
pub proof fn lemma_set_value_then_resolve(before: OptStack, after: OptStack, t: OptType, v: OptModel)
    requires
        before.wf(),
        t.is_flag() == (v is Flag),
        set_at_level_post(before, after, t, Some(v), level_at(before.top())),
    ensures
        resolve(after.stack@, t) == Some((level_at(before.top()), v)),
{
    let s = before.stack@;
    lemma_top_from_bounds(s, 5);
    let i = before.top();
    assert(level_at(i).index() == i);
    assert forall|j: int| i < j < LEVEL_COUNT implies after.stack@[j] is None by {
        assert(after.stack@[j] == s[j]);
    }
    lemma_resolve_from_top(after.stack@, t, 5, i, after.stack@[i].unwrap(), v);
}

} // verus!
