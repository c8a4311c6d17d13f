//! The command line of the role administration tool: subcommands, options and
//! positional arguments.
use vstd::prelude::*;
use crate::structs::strings_view;
use crate::text::{chars_eq, chars_of, string_of};

verus! {

/// How many subcommands there are.
pub const SUB_COUNT: usize = 9;

/// How many options there are, over all subcommands.
pub const OPT_COUNT: usize = 12;

/// The name of subcommand `k`: list, newrole, grant, revoke, addtask, deltask, delrole,
/// config, import.
pub open spec fn sub_name(k: int) -> Seq<char> {
    if k == 0 {
        seq!['l', 'i', 's', 't']
    } else if k == 1 {
        seq!['n', 'e', 'w', 'r', 'o', 'l', 'e']
    } else if k == 2 {
        seq!['g', 'r', 'a', 'n', 't']
    } else if k == 3 {
        seq!['r', 'e', 'v', 'o', 'k', 'e']
    } else if k == 4 {
        seq!['a', 'd', 'd', 't', 'a', 's', 'k']
    } else if k == 5 {
        seq!['d', 'e', 'l', 't', 'a', 's', 'k']
    } else if k == 6 {
        seq!['d', 'e', 'l', 'r', 'o', 'l', 'e']
    } else if k == 7 {
        seq!['c', 'o', 'n', 'f', 'i', 'g']
    } else if k == 8 {
        seq!['i', 'm', 'p', 'o', 'r', 't']
    } else {
        Seq::<char>::empty()
    }
}

fn sub_name_chars(k: usize) -> (r: Vec<char>)
    ensures
        r@ == sub_name(k as int),
{
    if k == 0 {
        vec!['l', 'i', 's', 't']
    } else if k == 1 {
        vec!['n', 'e', 'w', 'r', 'o', 'l', 'e']
    } else if k == 2 {
        vec!['g', 'r', 'a', 'n', 't']
    } else if k == 3 {
        vec!['r', 'e', 'v', 'o', 'k', 'e']
    } else if k == 4 {
        vec!['a', 'd', 'd', 't', 'a', 's', 'k']
    } else if k == 5 {
        vec!['d', 'e', 'l', 't', 'a', 's', 'k']
    } else if k == 6 {
        vec!['d', 'e', 'l', 'r', 'o', 'l', 'e']
    } else if k == 7 {
        vec!['c', 'o', 'n', 'f', 'i', 'g']
    } else if k == 8 {
        vec!['i', 'm', 'p', 'o', 'r', 't']
    } else {
        Vec::new()
    }
}

/// The long name of option `j`: role, task, user, group, withid, cmds, caps, path,
/// env-keep, env-check, allow-bounding, wildcard-denied.
pub open spec fn opt_long(j: int) -> Seq<char> {
    if j == 0 {
        seq!['r', 'o', 'l', 'e']
    } else if j == 1 {
        seq!['t', 'a', 's', 'k']
    } else if j == 2 {
        seq!['u', 's', 'e', 'r']
    } else if j == 3 {
        seq!['g', 'r', 'o', 'u', 'p']
    } else if j == 4 {
        seq!['w', 'i', 't', 'h', 'i', 'd']
    } else if j == 5 {
        seq!['c', 'm', 'd', 's']
    } else if j == 6 {
        seq!['c', 'a', 'p', 's']
    } else if j == 7 {
        seq!['p', 'a', 't', 'h']
    } else if j == 8 {
        seq!['e', 'n', 'v', '-', 'k', 'e', 'e', 'p']
    } else if j == 9 {
        seq!['e', 'n', 'v', '-', 'c', 'h', 'e', 'c', 'k']
    } else if j == 10 {
        seq!['a', 'l', 'l', 'o', 'w', '-', 'b', 'o', 'u', 'n', 'd', 'i', 'n', 'g']
    } else if j == 11 {
        seq!['w', 'i', 'l', 'd', 'c', 'a', 'r', 'd', '-', 'd', 'e', 'n', 'i', 'e', 'd']
    } else {
        Seq::<char>::empty()
    }
}

fn opt_long_chars(j: usize) -> (r: Vec<char>)
    ensures
        r@ == opt_long(j as int),
{
    if j == 0 {
        vec!['r', 'o', 'l', 'e']
    } else if j == 1 {
        vec!['t', 'a', 's', 'k']
    } else if j == 2 {
        vec!['u', 's', 'e', 'r']
    } else if j == 3 {
        vec!['g', 'r', 'o', 'u', 'p']
    } else if j == 4 {
        vec!['w', 'i', 't', 'h', 'i', 'd']
    } else if j == 5 {
        vec!['c', 'm', 'd', 's']
    } else if j == 6 {
        vec!['c', 'a', 'p', 's']
    } else if j == 7 {
        vec!['p', 'a', 't', 'h']
    } else if j == 8 {
        vec!['e', 'n', 'v', '-', 'k', 'e', 'e', 'p']
    } else if j == 9 {
        vec!['e', 'n', 'v', '-', 'c', 'h', 'e', 'c', 'k']
    } else if j == 10 {
        vec!['a', 'l', 'l', 'o', 'w', '-', 'b', 'o', 'u', 'n', 'd', 'i', 'n', 'g']
    } else if j == 11 {
        vec!['w', 'i', 'l', 'd', 'c', 'a', 'r', 'd', '-', 'd', 'e', 'n', 'i', 'e', 'd']
    } else {
        Vec::new()
    }
}

/// The short name of option `j`, if it has one.
pub open spec fn opt_short(j: int) -> Option<char> {
    if j == 0 {
        Some('r')
    } else if j == 1 {
        Some('t')
    } else if j == 2 {
        Some('u')
    } else if j == 3 {
        Some('g')
    } else if j == 4 {
        Some('w')
    } else if j == 5 {
        Some('c')
    } else if j == 6 {
        Some('p')
    } else {
        None
    }
}

fn opt_short_exec(j: usize) -> (r: Option<char>)
    ensures
        r == opt_short(j as int),
{
    if j == 0 {
        Some('r')
    } else if j == 1 {
        Some('t')
    } else if j == 2 {
        Some('u')
    } else if j == 3 {
        Some('g')
    } else if j == 4 {
        Some('w')
    } else if j == 5 {
        Some('c')
    } else if j == 6 {
        Some('p')
    } else {
        None
    }
}

/// Subcommand `k` accepts option `j`.
pub open spec fn allowed(k: int, j: int) -> bool {
    if k == 0 {
        j == 0 || j == 1
    } else if 1 <= k <= 3 {
        j == 2 || j == 3
    } else if k == 4 {
        4 <= j <= 6
    } else if k == 7 {
        j == 0 || j == 1 || (7 <= j <= 11)
    } else {
        false
    }
}

fn allowed_exec(k: usize, j: usize) -> (r: bool)
    ensures
        r == allowed(k as int, j as int),
{
    if k == 0 {
        j == 0 || j == 1
    } else if 1 <= k && k <= 3 {
        j == 2 || j == 3
    } else if k == 4 {
        4 <= j && j <= 6
    } else if k == 7 {
        j == 0 || j == 1 || (7 <= j && j <= 11)
    } else {
        false
    }
}

/// Option `j` may be given several times, each value kept.
pub open spec fn multi(j: int) -> bool {
    j == 2 || j == 3 || j == 5
}

/// How many positional arguments subcommand `k` takes.
pub open spec fn positional_count(k: int) -> int {
    if k == 0 || k == 7 {
        0
    } else if k == 5 {
        2
    } else {
        1
    }
}

/// The first subcommand from `k` on named `name`.
pub open spec fn find_sub_from(name: Seq<char>, k: int) -> Option<int>
    decreases SUB_COUNT - k,
{
    if k < 0 || k >= SUB_COUNT {
        None
    } else if sub_name(k) == name {
        Some(k)
    } else {
        find_sub_from(name, k + 1)
    }
}

/// The first option from `j` on that subcommand `k` accepts under long name `name`.
pub open spec fn find_long_from(k: int, name: Seq<char>, j: int) -> Option<int>
    decreases OPT_COUNT - j,
{
    if j < 0 || j >= OPT_COUNT {
        None
    } else if allowed(k, j) && opt_long(j) == name {
        Some(j)
    } else {
        find_long_from(k, name, j + 1)
    }
}

/// The first option from `j` on that subcommand `k` accepts under short name `c`.
pub open spec fn find_short_from(k: int, c: char, j: int) -> Option<int>
    decreases OPT_COUNT - j,
{
    if j < 0 || j >= OPT_COUNT {
        None
    } else if allowed(k, j) && opt_short(j) == Some(c) {
        Some(j)
    } else {
        find_short_from(k, c, j + 1)
    }
}

/// What token `t` is for subcommand `k`: `None` for a positional argument, `Some(None)`
/// for an unknown option, `Some(Some(j))` for option `j`.
pub open spec fn option_of(k: int, t: Seq<char>) -> Option<Option<int>> {
    if t.len() >= 2 && t[0] == '-' && t[1] == '-' {
        Some(find_long_from(k, t.subrange(2, t.len() as int), 0))
    } else if t.len() == 2 && t[0] == '-' {
        Some(find_short_from(k, t[1], 0))
    } else {
        None
    }
}

/// Why a command line was refused.
#[derive(Clone, Copy, Debug, PartialEq, Eq, Structural)]
pub enum CliError {
    /// The first argument names no subcommand.
    UnknownCommand,
    /// An option that the subcommand does not take.
    UnknownArgument,
    /// An option at the end, without its value.
    MissingValue,
    /// Too many or too few positional arguments.
    WrongPositionals,
    /// A single-valued option given more than once.
    Repeated,
    /// A flag value other than `true` or `false`.
    InvalidValue,
}

/// What a scan has collected: positional arguments, and the values of each option.
pub struct ScanModel {
    pub pos: Seq<Seq<char>>,
    pub vals: Seq<Seq<Seq<char>>>,
}

/// Nothing collected yet.
pub open spec fn scan_init() -> ScanModel {
    ScanModel { pos: Seq::empty(), vals: Seq::new(OPT_COUNT as nat, |j: int| Seq::<Seq<char>>::empty()) }
}

/// The position of the first `=` in `t` at or after `i`.
pub open spec fn first_eq_from(t: Seq<char>, i: int) -> Option<int>
    decreases t.len() - i,
{
    if i < 0 || i >= t.len() {
        None
    } else if t[i] == '=' {
        Some(i)
    } else {
        first_eq_from(t, i + 1)
    }
}

/// For a token `--name=value`, the position of the `=` that ends the name.
pub open spec fn inline_eq(t: Seq<char>) -> Option<int> {
    if t.len() >= 2 && t[0] == '-' && t[1] == '-' {
        first_eq_from(t, 2)
    } else {
        None
    }
}

/// Collects the arguments `toks[i..]` of subcommand `k` into `st`: a long option takes its
/// value after `=` in the same token, or from the next token.
pub open spec fn scan(k: int, toks: Seq<Seq<char>>, i: int, st: ScanModel) -> Result<ScanModel, CliError>
    decreases toks.len() - i,
{
    if i < 0 || i >= toks.len() {
        Ok(st)
    } else if let Some(e) = inline_eq(toks[i]) {
        match find_long_from(k, toks[i].subrange(2, e), 0) {
            None => Err(CliError::UnknownArgument),
            Some(j) => scan(
                k,
                toks,
                i + 1,
                ScanModel {
                    pos: st.pos,
                    vals: st.vals.update(j, st.vals[j].push(toks[i].subrange(e + 1, toks[i].len() as int))),
                },
            ),
        }
    } else {
        match option_of(k, toks[i]) {
            None => scan(k, toks, i + 1, ScanModel { pos: st.pos.push(toks[i]), vals: st.vals }),
            Some(None) => Err(CliError::UnknownArgument),
            Some(Some(j)) => if i + 1 >= toks.len() {
                Err(CliError::MissingValue)
            } else {
                scan(
                    k,
                    toks,
                    i + 2,
                    ScanModel { pos: st.pos, vals: st.vals.update(j, st.vals[j].push(toks[i + 1])) },
                )
            },
        }
    }
}

/// The checks made once all arguments are collected.
pub open spec fn check_scan(k: int, st: ScanModel) -> Result<ScanModel, CliError> {
    if st.pos.len() != positional_count(k) {
        Err(CliError::WrongPositionals)
    } else if exists|j: int| 0 <= j < OPT_COUNT && !multi(j) && #[trigger] st.vals[j].len() > 1 {
        Err(CliError::Repeated)
    } else if st.vals[10].len() == 1 && st.vals[10][0] != "true"@ && st.vals[10][0] != "false"@ {
        Err(CliError::InvalidValue)
    } else {
        Ok(st)
    }
}

/// The model of a subcommand with its arguments.
pub enum CModel {
    List { role: Option<Seq<char>>, task: Option<Seq<char>> },
    NewRole { role: Seq<char>, user: Option<Seq<Seq<char>>>, group: Option<Seq<Seq<char>>> },
    Grant { role: Seq<char>, user: Option<Seq<Seq<char>>>, group: Option<Seq<Seq<char>>> },
    Revoke { role: Seq<char>, user: Option<Seq<Seq<char>>>, group: Option<Seq<Seq<char>>> },
    AddTask {
        role: Seq<char>,
        withid: Option<Seq<char>>,
        cmds: Option<Seq<Seq<char>>>,
        caps: Option<Seq<char>>,
    },
    DelTask { role: Seq<char>, id: Seq<char> },
    DelRole { role: Seq<char> },
    Config {
        role: Option<Seq<char>>,
        task: Option<Seq<char>>,
        path: Option<Seq<char>>,
        env_keep: Option<Seq<char>>,
        env_check: Option<Seq<char>>,
        allow_bounding: Option<bool>,
        wildcard_denied: Option<Seq<char>>,
    },
    Import { file: Seq<char> },
}

/// The value of single-valued option `j`, if given.
pub open spec fn single(st: ScanModel, j: int) -> Option<Seq<char>> {
    if st.vals[j].len() == 0 {
        None
    } else {
        Some(st.vals[j][0])
    }
}

/// The values of multi-valued option `j`, if given at all.
pub open spec fn many(st: ScanModel, j: int) -> Option<Seq<Seq<char>>> {
    if st.vals[j].len() == 0 {
        None
    } else {
        Some(st.vals[j])
    }
}

/// The subcommand `k` built from what was collected.
pub open spec fn build(k: int, st: ScanModel) -> CModel {
    if k == 0 {
        CModel::List { role: single(st, 0), task: single(st, 1) }
    } else if k == 1 {
        CModel::NewRole { role: st.pos[0], user: many(st, 2), group: many(st, 3) }
    } else if k == 2 {
        CModel::Grant { role: st.pos[0], user: many(st, 2), group: many(st, 3) }
    } else if k == 3 {
        CModel::Revoke { role: st.pos[0], user: many(st, 2), group: many(st, 3) }
    } else if k == 4 {
        CModel::AddTask { role: st.pos[0], withid: single(st, 4), cmds: many(st, 5), caps: single(st, 6) }
    } else if k == 5 {
        CModel::DelTask { role: st.pos[0], id: st.pos[1] }
    } else if k == 6 {
        CModel::DelRole { role: st.pos[0] }
    } else if k == 7 {
        CModel::Config {
            role: single(st, 0),
            task: single(st, 1),
            path: single(st, 7),
            env_keep: single(st, 8),
            env_check: single(st, 9),
            allow_bounding: match single(st, 10) {
                Some(v) => Some(v == "true"@),
                None => None,
            },
            wildcard_denied: single(st, 11),
        }
    } else {
        CModel::Import { file: st.pos[0] }
    }
}

/// The meaning of a command line (program name first): no subcommand, a subcommand with
/// its arguments, or the reason it is refused.
pub open spec fn parse_model(toks: Seq<Seq<char>>) -> Result<Option<CModel>, CliError> {
    if toks.len() <= 1 {
        Ok(None)
    } else {
        match find_sub_from(toks[1], 0) {
            None => Err(CliError::UnknownCommand),
            Some(k) => match scan(k, toks, 2, scan_init()) {
                Err(e) => Err(e),
                Ok(st) => match check_scan(k, st) {
                    Err(e) => Err(e),
                    Ok(st) => Ok(Some(build(k, st))),
                },
            },
        }
    }
}

/// The texts of a list of character vectors.
pub open spec fn cseqs(v: Seq<Vec<char>>) -> Seq<Seq<char>> {
    Seq::new(v.len(), |i: int| v[i]@)
}

/// The model of an executable scan state.
pub open spec fn state_model(pos: Seq<Vec<char>>, vals: Seq<Vec<Vec<char>>>) -> ScanModel {
    ScanModel { pos: cseqs(pos), vals: Seq::new(OPT_COUNT as nat, |j: int| cseqs(vals[j]@)) }
}

fn find_sub(name: &Vec<char>) -> (r: Option<usize>)
    ensures
        match r {
            Some(k) => k < SUB_COUNT && find_sub_from(name@, 0) == Some(k as int),
            None => find_sub_from(name@, 0) is None,
        },
{
    let mut k: usize = 0;
    while k < SUB_COUNT
        invariant
            k <= SUB_COUNT,
            find_sub_from(name@, 0) == find_sub_from(name@, k as int),
        decreases SUB_COUNT - k,
    {
        let n = sub_name_chars(k);
        if chars_eq(&n, name) {
            return Some(k);
        }
        k += 1;
    }
    None
}

fn find_long(k: usize, name: &Vec<char>) -> (r: Option<usize>)
    ensures
        match r {
            Some(j) => j < OPT_COUNT && find_long_from(k as int, name@, 0) == Some(j as int),
            None => find_long_from(k as int, name@, 0) is None,
        },
{
    let mut j: usize = 0;
    while j < OPT_COUNT
        invariant
            j <= OPT_COUNT,
            find_long_from(k as int, name@, 0) == find_long_from(k as int, name@, j as int),
        decreases OPT_COUNT - j,
    {
        let n = opt_long_chars(j);
        if allowed_exec(k, j) && chars_eq(&n, name) {
            return Some(j);
        }
        j += 1;
    }
    None
}

fn find_short(k: usize, c: char) -> (r: Option<usize>)
    ensures
        match r {
            Some(j) => j < OPT_COUNT && find_short_from(k as int, c, 0) == Some(j as int),
            None => find_short_from(k as int, c, 0) is None,
        },
{
    let mut j: usize = 0;
    while j < OPT_COUNT
        invariant
            j <= OPT_COUNT,
            find_short_from(k as int, c, 0) == find_short_from(k as int, c, j as int),
        decreases OPT_COUNT - j,
    {
        if allowed_exec(k, j) && opt_short_exec(j) == Some(c) {
            return Some(j);
        }
        j += 1;
    }
    None
}

fn option_of_exec(k: usize, t: &Vec<char>) -> (r: Option<Option<usize>>)
    ensures
        match r {
            None => option_of(k as int, t@) is None,
            Some(None) => option_of(k as int, t@) == Some(None::<int>),
            Some(Some(j)) => j < OPT_COUNT && option_of(k as int, t@) == Some(Some(j as int)),
        },
{
    if t.len() >= 2 && t[0] == '-' && t[1] == '-' {
        let mut name: Vec<char> = Vec::new();
        let mut i: usize = 2;
        while i < t.len()
            invariant
                2 <= i <= t.len(),
                name@ == t@.subrange(2, i as int),
            decreases t.len() - i,
        {
            name.push(t[i]);
            i += 1;
            assert(name@ =~= t@.subrange(2, i as int));
        }
        match find_long(k, &name) {
            Some(j) => Some(Some(j)),
            None => Some(None),
        }
    } else if t.len() == 2 && t[0] == '-' {
        match find_short(k, t[1]) {
            Some(j) => Some(Some(j)),
            None => Some(None),
        }
    } else {
        None
    }
}

fn inline_eq_exec(t: &Vec<char>) -> (r: Option<usize>)
    ensures
        match r {
            Some(e) => 2 <= e < t@.len() && inline_eq(t@) == Some(e as int),
            None => inline_eq(t@) is None,
        },
{
    if !(t.len() >= 2 && t[0] == '-' && t[1] == '-') {
        return None;
    }
    let mut i: usize = 2;
    while i < t.len()
        invariant
            2 <= i <= t.len(),
            t@.len() >= 2 && t@[0] == '-' && t@[1] == '-',
            first_eq_from(t@, 2) == first_eq_from(t@, i as int),
        decreases t.len() - i,
    {
        if t[i] == '=' {
            return Some(i);
        }
        i += 1;
    }
    None
}

fn sub_chars(t: &Vec<char>, a: usize, b: usize) -> (r: Vec<char>)
    requires
        a <= b <= t.len(),
    ensures
        r@ == t@.subrange(a as int, b as int),
{
    let mut out: Vec<char> = Vec::new();
    let mut i: usize = a;
    while i < b
        invariant
            a <= i <= b,
            b <= t.len(),
            out@ == t@.subrange(a as int, i as int),
        decreases b - i,
    {
        out.push(t[i]);
        i += 1;
        assert(out@ =~= t@.subrange(a as int, i as int));
    }
    out
}

fn copy_chars(v: &Vec<char>) -> (r: Vec<char>)
    ensures
        r@ == v@,
{
    let mut out: Vec<char> = Vec::new();
    crate::text::push_all(&mut out, v);
    out
}

/// Collects the arguments of subcommand `k` from `toks[2..]`.
fn scan_exec(k: usize, toks: &Vec<Vec<char>>) -> (r: Result<(Vec<Vec<char>>, Vec<Vec<Vec<char>>>), CliError>)
    ensures
        match r {
            Ok((pos, vals)) => vals@.len() == OPT_COUNT && scan(k as int, cseqs(toks@), 2, scan_init())
                == Ok::<ScanModel, CliError>(state_model(pos@, vals@)),
            Err(e) => scan(k as int, cseqs(toks@), 2, scan_init()) == Err::<ScanModel, CliError>(e),
        },
{
    let ghost ts = cseqs(toks@);
    let mut pos: Vec<Vec<char>> = Vec::new();
    let mut vals: Vec<Vec<Vec<char>>> = Vec::new();
    let mut j: usize = 0;
    while j < OPT_COUNT
        invariant
            j <= OPT_COUNT,
            vals@.len() == j,
            forall|m: int| 0 <= m < j ==> (#[trigger] vals@[m])@.len() == 0,
        decreases OPT_COUNT - j,
    {
        vals.push(Vec::new());
        j += 1;
    }
    assert(state_model(pos@, vals@).pos =~= scan_init().pos);
    assert forall|m: int| 0 <= m < OPT_COUNT implies #[trigger] state_model(pos@, vals@).vals[m]
        =~= scan_init().vals[m] by {
        assert(vals@[m]@.len() == 0);
    }
    assert(state_model(pos@, vals@).vals =~= scan_init().vals);
    let mut i: usize = 2;
    while i < toks.len()
        invariant
            ts == cseqs(toks@),
            2 <= i,
            vals@.len() == OPT_COUNT,
            scan(k as int, ts, 2, scan_init()) == scan(k as int, ts, i as int, state_model(pos@, vals@)),
        decreases toks.len() - i,
    {
        let t = &toks[i];
        assert(ts[i as int] == t@);
        let inline = inline_eq_exec(t);
        if let Some(e) = inline {
            let n = t.len();
            assert(2 <= e < n);
            let name = sub_chars(t, 2, e);
            match find_long(k, &name) {
                None => {
                    return Err(CliError::UnknownArgument);
                },
                Some(oj) => {
                    let ghost before = state_model(pos@, vals@);
                    let v = sub_chars(t, e + 1, n);
                    let mut list = copy_list(&vals[oj]);
                    list.push(v);
                    vals.set(oj, list);
                    let ghost val = t@.subrange(e + 1, t@.len() as int);
                    assert(state_model(pos@, vals@).vals[oj as int] =~= before.vals[oj as int].push(val));
                    assert(state_model(pos@, vals@).vals =~= before.vals.update(oj as int, before.vals[oj as int].push(val)));
                    assert(state_model(pos@, vals@).pos =~= before.pos);
                    i += 1;
                    continue;
                },
            }
        }
        match option_of_exec(k, t) {
            None => {
                let ghost before = state_model(pos@, vals@);
                pos.push(copy_chars(t));
                assert(state_model(pos@, vals@).pos =~= before.pos.push(ts[i as int]));
                assert(state_model(pos@, vals@).vals =~= before.vals);
                i += 1;
            },
            Some(None) => {
                return Err(CliError::UnknownArgument);
            },
            Some(Some(oj)) => {
                if i + 1 >= toks.len() {
                    return Err(CliError::MissingValue);
                }
                let ghost before = state_model(pos@, vals@);
                let v = copy_chars(&toks[i + 1]);
                assert(ts[i + 1] == v@);
                let mut list = copy_list(&vals[oj]);
                list.push(v);
                vals.set(oj, list);
                assert(state_model(pos@, vals@).vals[oj as int] =~= before.vals[oj as int].push(ts[i + 1]));
                assert(state_model(pos@, vals@).vals =~= before.vals.update(oj as int, before.vals[oj as int].push(ts[i + 1])));
                assert(state_model(pos@, vals@).pos =~= before.pos);
                i += 2;
            },
        }
    }
    Ok((pos, vals))
}

fn copy_list(v: &Vec<Vec<char>>) -> (r: Vec<Vec<char>>)
    ensures
        cseqs(r@) == cseqs(v@),
{
    let mut out: Vec<Vec<char>> = Vec::new();
    let mut i: usize = 0;
    while i < v.len()
        invariant
            i <= v.len(),
            out@.len() == i,
            forall|m: int| 0 <= m < i ==> (#[trigger] out@[m])@ == v@[m]@,
        decreases v.len() - i,
    {
        out.push(copy_chars(&v[i]));
        i += 1;
    }
    assert(cseqs(out@) =~= cseqs(v@));
    out
}

/// A subcommand of the administration tool with its arguments.
#[derive(Debug, PartialEq)]
pub enum CCommand {
    /// Describe a role, or a task of it.
    List { role: Option<String>, task: Option<String> },
    /// Create a role with users and group-sets.
    NewRole { role: String, user: Option<Vec<String>>, group: Option<Vec<String>> },
    /// Grant a role to users or group-sets.
    Grant { role: String, user: Option<Vec<String>>, group: Option<Vec<String>> },
    /// Revoke a role from users or group-sets.
    Revoke { role: String, user: Option<Vec<String>>, group: Option<Vec<String>> },
    /// Add a task with commands and capabilities.
    AddTask {
        role: String,
        withid: Option<String>,
        cmds: Option<Vec<String>>,
        caps: Option<String>,
    },
    /// Delete a task from a role.
    DelTask { role: String, id: String },
    /// Delete a role.
    DelRole { role: String },
    /// Set options globally, on a role, or on a task.
    Config {
        role: Option<String>,
        task: Option<String>,
        path: Option<String>,
        env_keep: Option<String>,
        env_check: Option<String>,
        allow_bounding: Option<bool>,
        wildcard_denied: Option<String>,
    },
    /// Import a sudoers file.
    Import { file: String },
}

/// The text of an optional string.
pub open spec fn opt_text(o: Option<String>) -> Option<Seq<char>> {
    match o {
        Some(s) => Some(s@),
        None => None,
    }
}

/// The texts of an optional list of strings.
pub open spec fn opt_texts(o: Option<Vec<String>>) -> Option<Seq<Seq<char>>> {
    match o {
        Some(v) => Some(strings_view(v@)),
        None => None,
    }
}

impl View for CCommand {
    type V = CModel;

    open spec fn view(&self) -> CModel {
        match self {
            CCommand::List { role, task } => CModel::List { role: opt_text(*role), task: opt_text(*task) },
            CCommand::NewRole { role, user, group } => CModel::NewRole {
                role: role@,
                user: opt_texts(*user),
                group: opt_texts(*group),
            },
            CCommand::Grant { role, user, group } => CModel::Grant {
                role: role@,
                user: opt_texts(*user),
                group: opt_texts(*group),
            },
            CCommand::Revoke { role, user, group } => CModel::Revoke {
                role: role@,
                user: opt_texts(*user),
                group: opt_texts(*group),
            },
            CCommand::AddTask { role, withid, cmds, caps } => CModel::AddTask {
                role: role@,
                withid: opt_text(*withid),
                cmds: opt_texts(*cmds),
                caps: opt_text(*caps),
            },
            CCommand::DelTask { role, id } => CModel::DelTask { role: role@, id: id@ },
            CCommand::DelRole { role } => CModel::DelRole { role: role@ },
            CCommand::Config {
                role,
                task,
                path,
                env_keep,
                env_check,
                allow_bounding,
                wildcard_denied,
            } => CModel::Config {
                role: opt_text(*role),
                task: opt_text(*task),
                path: opt_text(*path),
                env_keep: opt_text(*env_keep),
                env_check: opt_text(*env_check),
                allow_bounding: *allow_bounding,
                wildcard_denied: opt_text(*wildcard_denied),
            },
            CCommand::Import { file } => CModel::Import { file: file@ },
        }
    }
}

fn check_exec(k: usize, pos: &Vec<Vec<char>>, vals: &Vec<Vec<Vec<char>>>) -> (r: Result<(), CliError>)
    requires
        vals@.len() == OPT_COUNT,
    ensures
        match r {
            Ok(()) => check_scan(k as int, state_model(pos@, vals@)) == Ok::<ScanModel, CliError>(
                state_model(pos@, vals@),
            ),
            Err(e) => check_scan(k as int, state_model(pos@, vals@)) == Err::<ScanModel, CliError>(e),
        },
{
    let ghost st = state_model(pos@, vals@);
    let need: usize = if k == 0 || k == 7 {
        0
    } else if k == 5 {
        2
    } else {
        1
    };
    if pos.len() != need {
        return Err(CliError::WrongPositionals);
    }
    let mut j: usize = 0;
    while j < OPT_COUNT
        invariant
            j <= OPT_COUNT,
            vals@.len() == OPT_COUNT,
            st == state_model(pos@, vals@),
            pos@.len() == positional_count(k as int),
            forall|m: int| 0 <= m < j ==> !(!multi(m) && #[trigger] st.vals[m].len() > 1),
        decreases OPT_COUNT - j,
    {
        assert(st.vals[j as int].len() == vals@[j as int]@.len());
        if !(j == 2 || j == 3 || j == 5) && vals[j].len() > 1 {
            return Err(CliError::Repeated);
        }
        j += 1;
    }
    if vals[10].len() == 1 {
        let t: Vec<char> = vec!['t', 'r', 'u', 'e'];
        let f: Vec<char> = vec!['f', 'a', 'l', 's', 'e'];
        proof {
            reveal_strlit("true");
            reveal_strlit("false");
            assert("true"@ =~= t@);
            assert("false"@ =~= f@);
            assert(st.vals[10][0] == vals@[10]@[0]@);
        }
        if !chars_eq(&vals[10][0], &t) && !chars_eq(&vals[10][0], &f) {
            return Err(CliError::InvalidValue);
        }
    }
    Ok(())
}

fn single_exec(vals: &Vec<Vec<Vec<char>>>, j: usize) -> (r: Option<String>)
    requires
        j < OPT_COUNT,
        vals@.len() == OPT_COUNT,
    ensures
        opt_text(r) == single(state_model(Seq::empty(), vals@), j as int),
{
    let ghost st = state_model(Seq::empty(), vals@);
    if vals[j].len() == 0 {
        None
    } else {
        assert(st.vals[j as int][0] == vals@[j as int]@[0]@);
        Some(string_of(&vals[j][0]))
    }
}

fn many_exec(vals: &Vec<Vec<Vec<char>>>, j: usize) -> (r: Option<Vec<String>>)
    requires
        j < OPT_COUNT,
        vals@.len() == OPT_COUNT,
    ensures
        opt_texts(r) == many(state_model(Seq::empty(), vals@), j as int),
{
    let ghost st = state_model(Seq::empty(), vals@);
    let list = &vals[j];
    if list.len() == 0 {
        return None;
    }
    let mut out: Vec<String> = Vec::new();
    let mut i: usize = 0;
    while i < list.len()
        invariant
            i <= list.len(),
            out@.len() == i,
            forall|m: int| 0 <= m < i ==> (#[trigger] out@[m])@ == list@[m]@,
        decreases list.len() - i,
    {
        out.push(string_of(&list[i]));
        i += 1;
    }
    assert(strings_view(out@) =~= st.vals[j as int]);
    Some(out)
}

fn build_exec(k: usize, pos: &Vec<Vec<char>>, vals: &Vec<Vec<Vec<char>>>) -> (r: CCommand)
    requires
        k < SUB_COUNT,
        vals@.len() == OPT_COUNT,
        pos@.len() == positional_count(k as int),
    ensures
        r@ == build(k as int, state_model(pos@, vals@)),
{
    let ghost st = state_model(pos@, vals@);
    assert(st.vals == state_model(Seq::empty(), vals@).vals);
    if k == 0 {
        CCommand::List { role: single_exec(vals, 0), task: single_exec(vals, 1) }
    } else if k == 1 {
        CCommand::NewRole {
            role: string_of(&pos[0]),
            user: many_exec(vals, 2),
            group: many_exec(vals, 3),
        }
    } else if k == 2 {
        CCommand::Grant {
            role: string_of(&pos[0]),
            user: many_exec(vals, 2),
            group: many_exec(vals, 3),
        }
    } else if k == 3 {
        CCommand::Revoke {
            role: string_of(&pos[0]),
            user: many_exec(vals, 2),
            group: many_exec(vals, 3),
        }
    } else if k == 4 {
        CCommand::AddTask {
            role: string_of(&pos[0]),
            withid: single_exec(vals, 4),
            cmds: many_exec(vals, 5),
            caps: single_exec(vals, 6),
        }
    } else if k == 5 {
        CCommand::DelTask { role: string_of(&pos[0]), id: string_of(&pos[1]) }
    } else if k == 6 {
        CCommand::DelRole { role: string_of(&pos[0]) }
    } else if k == 7 {
        let ab = single_exec(vals, 10);
        let allow_bounding = match &ab {
            Some(v) => {
                proof {
                    reveal_strlit("true");
                }
                let t = String::from_str("true");
                Some(v.eq(&t))
            },
            None => None,
        };
        CCommand::Config {
            role: single_exec(vals, 0),
            task: single_exec(vals, 1),
            path: single_exec(vals, 7),
            env_keep: single_exec(vals, 8),
            env_check: single_exec(vals, 9),
            allow_bounding,
            wildcard_denied: single_exec(vals, 11),
        }
    } else {
        CCommand::Import { file: string_of(&pos[0]) }
    }
}

/// A parsed command line of the administration tool.
#[derive(Debug)]
pub struct Cli {
    /// The subcommand, or `None` when only the program name was given.
    pub command: Option<CCommand>,
}

/// The texts of the arguments of a command line.
pub open spec fn args_view(args: Seq<&str>) -> Seq<Seq<char>> {
    Seq::new(args.len(), |i: int| args[i]@)
}

impl Cli {
    /// Parses a command line, program name first: `None` when no subcommand follows;
    /// otherwise the subcommand with its options (`--name value` or `-n value`) and
    /// positional arguments, or the reason the line is refused.
    pub fn try_parse_from(args: &[&str]) -> (r: Result<Cli, CliError>)
        ensures
            match parse_model(args_view(args@)) {
                Ok(None) => r is Ok && r.unwrap().command is None,
                Ok(Some(m)) => r is Ok && r.unwrap().command is Some && r.unwrap().command.unwrap()@ == m,
                Err(e) => r == Err::<Cli, CliError>(e),
            },
    {
        let mut toks: Vec<Vec<char>> = Vec::new();
        let mut i: usize = 0;
        while i < args.len()
            invariant
                i <= args@.len(),
                toks@.len() == i,
                forall|m: int| 0 <= m < i ==> (#[trigger] toks@[m])@ == args@[m]@,
            decreases args.len() - i,
        {
            toks.push(chars_of(args[i]));
            i += 1;
        }
        assert(cseqs(toks@) =~= args_view(args@));
        if toks.len() <= 1 {
            return Ok(Cli { command: None });
        }
        let k = match find_sub(&toks[1]) {
            Some(k) => k,
            None => {
                return Err(CliError::UnknownCommand);
            },
        };
        let (pos, vals) = match scan_exec(k, &toks) {
            Ok(pv) => pv,
            Err(e) => {
                return Err(e);
            },
        };
        match check_exec(k, &pos, &vals) {
            Ok(()) => {},
            Err(e) => {
                return Err(e);
            },
        }
        Ok(Cli { command: Some(build_exec(k, &pos, &vals)) })
    }
}

} // verus!
