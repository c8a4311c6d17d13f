//! The environment handed to the executed command: which variables are kept.
use vstd::prelude::*;
use crate::options::{resolved_text, OptStack, OptType};
use crate::structs::strings_view;
use crate::text::{chars_of, split, split_chars, string_of};

verus! {

/// The longest path the kernel accepts, terminating NUL included.
pub const PATH_MAX: usize = 4096;

/// A TZ value without the leading `:` that marks it as a path.
pub open spec fn tz_body(s: Seq<char>) -> Seq<char> {
    if s.len() > 0 && s[0] == ':' {
        s.drop_first()
    } else {
        s
    }
}

/// A printable ASCII character other than space.
pub open spec fn graphic(c: char) -> bool {
    '!' <= c && c <= '~'
}

/// `s` holds `..` as a whole path element.
pub open spec fn has_dotdot_element(s: Seq<char>) -> bool {
    exists|i: int|
        0 <= i && i + 1 < s.len() && #[trigger] s[i] == '.' && s[i + 1] == '.' && (i == 0 || s[i
            - 1] == '/') && (i + 2 == s.len() || s[i + 2] == '/')
}

/// A TZ value is safe: not an absolute path, printable without spaces, no `..` element,
/// and shorter than `PATH_MAX`.
pub open spec fn tz_safe(s: Seq<char>) -> bool {
    let t = tz_body(s);
    &&& !(t.len() > 0 && t[0] == '/')
    &&& forall|k: int| 0 <= k < t.len() ==> graphic(#[trigger] t[k])
    &&& !has_dotdot_element(t)
    &&& t.len() < PATH_MAX
}

/// The safety test of a checked variable: both key and value nonempty; a `TZ` value must
/// be a safe time zone, any other value must hold neither `/` nor `%`.
pub open spec fn var_safe(key: Seq<char>, value: Seq<char>) -> bool {
    if key.len() == 0 || value.len() == 0 {
        false
    } else if key == "TZ"@ {
        tz_safe(value)
    } else {
        !value.contains('/') && !value.contains('%')
    }
}

fn has_dotdot_exec(t: &Vec<char>) -> (r: bool)
    ensures
        r == has_dotdot_element(t@),
{
    let mut i: usize = 0;
    while i < t.len()
        invariant
            i <= t.len(),
            forall|j: int|
                0 <= j < i ==> !(j + 1 < t@.len() && #[trigger] t@[j] == '.' && t@[j + 1] == '.'
                    && (j == 0 || t@[j - 1] == '/') && (j + 2 == t@.len() || t@[j + 2] == '/')),
        decreases t.len() - i,
    {
        if i + 1 < t.len() && t[i] == '.' && t[i + 1] == '.' && (i == 0 || t[i - 1] == '/') && (i + 2 == t.len()
            || t[i + 2] == '/') {
            return true;
        }
        i += 1;
    }
    false
}

/// Whether a TZ value is safe to pass on.
pub fn tz_is_safe(tzval: &str) -> (r: bool)
    ensures
        r == tz_safe(tzval@),
{
    let all = chars_of(tzval);
    let mut t: Vec<char> = Vec::new();
    let start: usize = if all.len() > 0 && all[0] == ':' {
        1
    } else {
        0
    };
    let mut i: usize = start;
    while i < all.len()
        invariant
            start <= i <= all.len(),
            t@ == all@.subrange(start as int, i as int),
        decreases all.len() - i,
    {
        t.push(all[i]);
        i += 1;
        assert(t@ =~= all@.subrange(start as int, i as int));
    }
    assert(t@ =~= tz_body(tzval@));
    if t.len() > 0 && t[0] == '/' {
        return false;
    }
    let mut k: usize = 0;
    while k < t.len()
        invariant
            k <= t.len(),
            t@ == tz_body(tzval@),
            forall|j: int| 0 <= j < k ==> graphic(#[trigger] t@[j]),
        decreases t.len() - k,
    {
        if !('!' <= t[k] && t[k] <= '~') {
            return false;
        }
        k += 1;
    }
    if has_dotdot_exec(&t) {
        return false;
    }
    t.len() < PATH_MAX
}

fn contains_either(v: &Vec<char>, a: char, b: char) -> (r: bool)
    ensures
        r == (v@.contains(a) || v@.contains(b)),
{
    let mut i: usize = 0;
    while i < v.len()
        invariant
            i <= v.len(),
            forall|k: int| 0 <= k < i ==> v@[k] != a && v@[k] != b,
        decreases v.len() - i,
    {
        if v[i] == a || v[i] == b {
            assert(v@[i as int] == a || v@[i as int] == b);
            return true;
        }
        i += 1;
    }
    false
}

/// Whether variable `key` with `value` may be passed on when `key` is on the checklist.
pub fn check_var(key: &str, value: &str) -> (r: bool)
    ensures
        r == var_safe(key@, value@),
{
    let k = chars_of(key);
    let v = chars_of(value);
    if k.len() == 0 || v.len() == 0 {
        return false;
    }
    let tz: Vec<char> = vec!['T', 'Z'];
    proof {
        reveal_strlit("TZ");
        assert("TZ"@ =~= tz@);
    }
    if crate::text::chars_eq(&k, &tz) {
        tz_is_safe(value)
    } else {
        !contains_either(&v, '/', '%')
    }
}

/// Variable `key` = `value` is kept: on the checklist and safe, or on the whitelist.
pub open spec fn keep_var(key: Seq<char>, value: Seq<char>, check: Seq<Seq<char>>, white: Seq<Seq<char>>) -> bool {
    (check.contains(key) && var_safe(key, value)) || white.contains(key)
}

/// The variables of `env` that are kept, in their order.
pub open spec fn filter_env(env: Seq<(String, String)>, check: Seq<Seq<char>>, white: Seq<Seq<char>>) -> Seq<(String, String)>
    decreases env.len(),
{
    if env.len() == 0 {
        Seq::empty()
    } else {
        let prev = filter_env(env.drop_last(), check, white);
        if keep_var(env.last().0@, env.last().1@, check, white) {
            prev.push(env.last())
        } else {
            prev
        }
    }
}

fn contains_str(v: &Vec<String>, s: &String) -> (r: bool)
    ensures
        r == strings_view(v@).contains(s@),
{
    let mut i: usize = 0;
    while i < v.len()
        invariant
            i <= v.len(),
            forall|k: int| 0 <= k < i ==> v@[k]@ != s@,
        decreases v.len() - i,
    {
        if v[i].eq(s) {
            assert(strings_view(v@)[i as int] == s@);
            return true;
        }
        i += 1;
    }
    proof {
        if strings_view(v@).contains(s@) {
            let k = choose|k: int| 0 <= k < strings_view(v@).len() && strings_view(v@)[k] == s@;
            assert(v@[k]@ == s@);
        }
    }
    false
}

/// Keeps the variables on the checklist whose value is safe and those on the whitelist.
pub fn filter_env_vars(env: &Vec<(String, String)>, checklist: &Vec<String>, whitelist: &Vec<String>) -> (r: Vec<(String, String)>)
    ensures
        r@ == filter_env(env@, strings_view(checklist@), strings_view(whitelist@)),
{
    let ghost check = strings_view(checklist@);
    let ghost white = strings_view(whitelist@);
    let mut out: Vec<(String, String)> = Vec::new();
    let mut i: usize = 0;
    while i < env.len()
        invariant
            i <= env.len(),
            check == strings_view(checklist@),
            white == strings_view(whitelist@),
            out@ == filter_env(env@.subrange(0, i as int), check, white),
        decreases env.len() - i,
    {
        let (k, v) = &env[i];
        assert(env@.subrange(0, i + 1).drop_last() =~= env@.subrange(0, i as int));
        let keep = (contains_str(checklist, k) && check_var(k.as_str(), v.as_str())) || contains_str(
            whitelist,
            k,
        );
        if keep {
            out.push((k.clone(), v.clone()));
        }
        i += 1;
    }
    assert(env@.subrange(0, env.len() as int) =~= env@);
    out
}

/// The comma-separated names of a variable list.
pub fn list_names(list: &str) -> (r: Vec<String>)
    ensures
        strings_view(r@) == split(list@, ','),
{
    let chars = chars_of(list);
    let parts = split_chars(&chars, ',');
    let mut out: Vec<String> = Vec::new();
    let mut i: usize = 0;
    while i < parts.len()
        invariant
            i <= parts.len(),
            out@.len() == i,
            forall|k: int| 0 <= k < i ==> (#[trigger] out@[k])@ == parts@[k]@,
        decreases parts.len() - i,
    {
        out.push(string_of(&parts[i]));
        i += 1;
    }
    assert(strings_view(out@) =~= split(list@, ','));
    out
}

/// The environment of the executed command: the variables of `env` kept by the checklist
/// and whitelist that `opts` resolves.
pub fn final_env(opts: &OptStack, env: &Vec<(String, String)>) -> (r: Vec<(String, String)>)
    ensures
        r@ == filter_env(
            env@,
            split(resolved_text(opts.stack@, OptType::EnvChecklist), ','),
            split(resolved_text(opts.stack@, OptType::EnvWhitelist), ','),
        ),
{
    let (_, checklist) = opts.get_env_checklist();
    let (_, whitelist) = opts.get_env_whitelist();
    let check = list_names(checklist.as_str());
    let white = list_names(whitelist.as_str());
    filter_env_vars(env, &check, &white)
}

} // verus!
