//! The capability-set algebra: a bitmask over the named Linux capabilities, its text
//! form, and the set operations.
use vstd::prelude::*;
use crate::text::{chars_of, join, lacks, lemma_split_join, push_all, split, split_chars, string_of};

verus! {

/// How many capabilities the name table knows (bits `0..CAP_COUNT`).
pub const CAP_COUNT: usize = 41;

/// The largest bitmask whose bits all name a known capability.
pub const CAP_ALL: u64 = 0x1ff_ffff_ffff;

/// The canonical (lower-case) name of capability number `i`.
pub open spec fn cap_name(i: int) -> Seq<char> {
    if i == 0 {
        seq!['c', 'a', 'p', '_', 'c', 'h', 'o', 'w', 'n']
    } else if i == 1 {
        seq!['c', 'a', 'p', '_', 'd', 'a', 'c', '_', 'o', 'v', 'e', 'r', 'r', 'i', 'd', 'e']
    } else if i == 2 {
        seq!['c', 'a', 'p', '_', 'd', 'a', 'c', '_', 'r', 'e', 'a', 'd', '_', 's', 'e', 'a', 'r', 'c', 'h']
    } else if i == 3 {
        seq!['c', 'a', 'p', '_', 'f', 'o', 'w', 'n', 'e', 'r']
    } else if i == 4 {
        seq!['c', 'a', 'p', '_', 'f', 's', 'e', 't', 'i', 'd']
    } else if i == 5 {
        seq!['c', 'a', 'p', '_', 'k', 'i', 'l', 'l']
    } else if i == 6 {
        seq!['c', 'a', 'p', '_', 's', 'e', 't', 'g', 'i', 'd']
    } else if i == 7 {
        seq!['c', 'a', 'p', '_', 's', 'e', 't', 'u', 'i', 'd']
    } else if i == 8 {
        seq!['c', 'a', 'p', '_', 's', 'e', 't', 'p', 'c', 'a', 'p']
    } else if i == 9 {
        seq!['c', 'a', 'p', '_', 'l', 'i', 'n', 'u', 'x', '_', 'i', 'm', 'm', 'u', 't', 'a', 'b', 'l', 'e']
    } else if i == 10 {
        seq!['c', 'a', 'p', '_', 'n', 'e', 't', '_', 'b', 'i', 'n', 'd', '_', 's', 'e', 'r', 'v', 'i', 'c', 'e']
    } else if i == 11 {
        seq!['c', 'a', 'p', '_', 'n', 'e', 't', '_', 'b', 'r', 'o', 'a', 'd', 'c', 'a', 's', 't']
    } else if i == 12 {
        seq!['c', 'a', 'p', '_', 'n', 'e', 't', '_', 'a', 'd', 'm', 'i', 'n']
    } else if i == 13 {
        seq!['c', 'a', 'p', '_', 'n', 'e', 't', '_', 'r', 'a', 'w']
    } else if i == 14 {
        seq!['c', 'a', 'p', '_', 'i', 'p', 'c', '_', 'l', 'o', 'c', 'k']
    } else if i == 15 {
        seq!['c', 'a', 'p', '_', 'i', 'p', 'c', '_', 'o', 'w', 'n', 'e', 'r']
    } else if i == 16 {
        seq!['c', 'a', 'p', '_', 's', 'y', 's', '_', 'm', 'o', 'd', 'u', 'l', 'e']
    } else if i == 17 {
        seq!['c', 'a', 'p', '_', 's', 'y', 's', '_', 'r', 'a', 'w', 'i', 'o']
    } else if i == 18 {
        seq!['c', 'a', 'p', '_', 's', 'y', 's', '_', 'c', 'h', 'r', 'o', 'o', 't']
    } else if i == 19 {
        seq!['c', 'a', 'p', '_', 's', 'y', 's', '_', 'p', 't', 'r', 'a', 'c', 'e']
    } else if i == 20 {
        seq!['c', 'a', 'p', '_', 's', 'y', 's', '_', 'p', 'a', 'c', 'c', 't']
    } else if i == 21 {
        seq!['c', 'a', 'p', '_', 's', 'y', 's', '_', 'a', 'd', 'm', 'i', 'n']
    } else if i == 22 {
        seq!['c', 'a', 'p', '_', 's', 'y', 's', '_', 'b', 'o', 'o', 't']
    } else if i == 23 {
        seq!['c', 'a', 'p', '_', 's', 'y', 's', '_', 'n', 'i', 'c', 'e']
    } else if i == 24 {
        seq!['c', 'a', 'p', '_', 's', 'y', 's', '_', 'r', 'e', 's', 'o', 'u', 'r', 'c', 'e']
    } else if i == 25 {
        seq!['c', 'a', 'p', '_', 's', 'y', 's', '_', 't', 'i', 'm', 'e']
    } else if i == 26 {
        seq!['c', 'a', 'p', '_', 's', 'y', 's', '_', 't', 't', 'y', '_', 'c', 'o', 'n', 'f', 'i', 'g']
    } else if i == 27 {
        seq!['c', 'a', 'p', '_', 'm', 'k', 'n', 'o', 'd']
    } else if i == 28 {
        seq!['c', 'a', 'p', '_', 'l', 'e', 'a', 's', 'e']
    } else if i == 29 {
        seq!['c', 'a', 'p', '_', 'a', 'u', 'd', 'i', 't', '_', 'w', 'r', 'i', 't', 'e']
    } else if i == 30 {
        seq!['c', 'a', 'p', '_', 'a', 'u', 'd', 'i', 't', '_', 'c', 'o', 'n', 't', 'r', 'o', 'l']
    } else if i == 31 {
        seq!['c', 'a', 'p', '_', 's', 'e', 't', 'f', 'c', 'a', 'p']
    } else if i == 32 {
        seq!['c', 'a', 'p', '_', 'm', 'a', 'c', '_', 'o', 'v', 'e', 'r', 'r', 'i', 'd', 'e']
    } else if i == 33 {
        seq!['c', 'a', 'p', '_', 'm', 'a', 'c', '_', 'a', 'd', 'm', 'i', 'n']
    } else if i == 34 {
        seq!['c', 'a', 'p', '_', 's', 'y', 's', 'l', 'o', 'g']
    } else if i == 35 {
        seq!['c', 'a', 'p', '_', 'w', 'a', 'k', 'e', '_', 'a', 'l', 'a', 'r', 'm']
    } else if i == 36 {
        seq!['c', 'a', 'p', '_', 'b', 'l', 'o', 'c', 'k', '_', 's', 'u', 's', 'p', 'e', 'n', 'd']
    } else if i == 37 {
        seq!['c', 'a', 'p', '_', 'a', 'u', 'd', 'i', 't', '_', 'r', 'e', 'a', 'd']
    } else if i == 38 {
        seq!['c', 'a', 'p', '_', 'p', 'e', 'r', 'f', 'm', 'o', 'n']
    } else if i == 39 {
        seq!['c', 'a', 'p', '_', 'b', 'p', 'f']
    } else if i == 40 {
        seq!['c', 'a', 'p', '_', 'c', 'h', 'e', 'c', 'k', 'p', 'o', 'i', 'n', 't', '_', 'r', 'e', 's', 't', 'o', 'r', 'e']
    } else {
        Seq::<char>::empty()
    }
}

/// The canonical name of capability number `i`, as characters.
fn cap_name_chars(i: usize) -> (r: Vec<char>)
    requires
        i < CAP_COUNT,
    ensures
        r@ == cap_name(i as int),
{
    match i {
        0 => vec!['c', 'a', 'p', '_', 'c', 'h', 'o', 'w', 'n'],
        1 => vec!['c', 'a', 'p', '_', 'd', 'a', 'c', '_', 'o', 'v', 'e', 'r', 'r', 'i', 'd', 'e'],
        2 => vec!['c', 'a', 'p', '_', 'd', 'a', 'c', '_', 'r', 'e', 'a', 'd', '_', 's', 'e', 'a', 'r', 'c', 'h'],
        3 => vec!['c', 'a', 'p', '_', 'f', 'o', 'w', 'n', 'e', 'r'],
        4 => vec!['c', 'a', 'p', '_', 'f', 's', 'e', 't', 'i', 'd'],
        5 => vec!['c', 'a', 'p', '_', 'k', 'i', 'l', 'l'],
        6 => vec!['c', 'a', 'p', '_', 's', 'e', 't', 'g', 'i', 'd'],
        7 => vec!['c', 'a', 'p', '_', 's', 'e', 't', 'u', 'i', 'd'],
        8 => vec!['c', 'a', 'p', '_', 's', 'e', 't', 'p', 'c', 'a', 'p'],
        9 => vec!['c', 'a', 'p', '_', 'l', 'i', 'n', 'u', 'x', '_', 'i', 'm', 'm', 'u', 't', 'a', 'b', 'l', 'e'],
        10 => vec!['c', 'a', 'p', '_', 'n', 'e', 't', '_', 'b', 'i', 'n', 'd', '_', 's', 'e', 'r', 'v', 'i', 'c', 'e'],
        11 => vec!['c', 'a', 'p', '_', 'n', 'e', 't', '_', 'b', 'r', 'o', 'a', 'd', 'c', 'a', 's', 't'],
        12 => vec!['c', 'a', 'p', '_', 'n', 'e', 't', '_', 'a', 'd', 'm', 'i', 'n'],
        13 => vec!['c', 'a', 'p', '_', 'n', 'e', 't', '_', 'r', 'a', 'w'],
        14 => vec!['c', 'a', 'p', '_', 'i', 'p', 'c', '_', 'l', 'o', 'c', 'k'],
        15 => vec!['c', 'a', 'p', '_', 'i', 'p', 'c', '_', 'o', 'w', 'n', 'e', 'r'],
        16 => vec!['c', 'a', 'p', '_', 's', 'y', 's', '_', 'm', 'o', 'd', 'u', 'l', 'e'],
        17 => vec!['c', 'a', 'p', '_', 's', 'y', 's', '_', 'r', 'a', 'w', 'i', 'o'],
        18 => vec!['c', 'a', 'p', '_', 's', 'y', 's', '_', 'c', 'h', 'r', 'o', 'o', 't'],
        19 => vec!['c', 'a', 'p', '_', 's', 'y', 's', '_', 'p', 't', 'r', 'a', 'c', 'e'],
        20 => vec!['c', 'a', 'p', '_', 's', 'y', 's', '_', 'p', 'a', 'c', 'c', 't'],
        21 => vec!['c', 'a', 'p', '_', 's', 'y', 's', '_', 'a', 'd', 'm', 'i', 'n'],
        22 => vec!['c', 'a', 'p', '_', 's', 'y', 's', '_', 'b', 'o', 'o', 't'],
        23 => vec!['c', 'a', 'p', '_', 's', 'y', 's', '_', 'n', 'i', 'c', 'e'],
        24 => vec!['c', 'a', 'p', '_', 's', 'y', 's', '_', 'r', 'e', 's', 'o', 'u', 'r', 'c', 'e'],
        25 => vec!['c', 'a', 'p', '_', 's', 'y', 's', '_', 't', 'i', 'm', 'e'],
        26 => vec!['c', 'a', 'p', '_', 's', 'y', 's', '_', 't', 't', 'y', '_', 'c', 'o', 'n', 'f', 'i', 'g'],
        27 => vec!['c', 'a', 'p', '_', 'm', 'k', 'n', 'o', 'd'],
        28 => vec!['c', 'a', 'p', '_', 'l', 'e', 'a', 's', 'e'],
        29 => vec!['c', 'a', 'p', '_', 'a', 'u', 'd', 'i', 't', '_', 'w', 'r', 'i', 't', 'e'],
        30 => vec!['c', 'a', 'p', '_', 'a', 'u', 'd', 'i', 't', '_', 'c', 'o', 'n', 't', 'r', 'o', 'l'],
        31 => vec!['c', 'a', 'p', '_', 's', 'e', 't', 'f', 'c', 'a', 'p'],
        32 => vec!['c', 'a', 'p', '_', 'm', 'a', 'c', '_', 'o', 'v', 'e', 'r', 'r', 'i', 'd', 'e'],
        33 => vec!['c', 'a', 'p', '_', 'm', 'a', 'c', '_', 'a', 'd', 'm', 'i', 'n'],
        34 => vec!['c', 'a', 'p', '_', 's', 'y', 's', 'l', 'o', 'g'],
        35 => vec!['c', 'a', 'p', '_', 'w', 'a', 'k', 'e', '_', 'a', 'l', 'a', 'r', 'm'],
        36 => vec!['c', 'a', 'p', '_', 'b', 'l', 'o', 'c', 'k', '_', 's', 'u', 's', 'p', 'e', 'n', 'd'],
        37 => vec!['c', 'a', 'p', '_', 'a', 'u', 'd', 'i', 't', '_', 'r', 'e', 'a', 'd'],
        38 => vec!['c', 'a', 'p', '_', 'p', 'e', 'r', 'f', 'm', 'o', 'n'],
        39 => vec!['c', 'a', 'p', '_', 'b', 'p', 'f'],
        40 => vec!['c', 'a', 'p', '_', 'c', 'h', 'e', 'c', 'k', 'p', 'o', 'i', 'n', 't', '_', 'r', 'e', 's', 't', 'o', 'r', 'e'],
        _ => Vec::new(),
    }
}

/// A character of a canonical name: a lower-case ASCII letter or `_`.
pub open spec fn name_char(c: char) -> bool {
    ('a' <= c && c <= 'z') || c == '_'
}

pub proof fn lemma_cap_names_lower()
    ensures
        forall|i: int, k: int|
            0 <= i < CAP_COUNT && 0 <= k < cap_name(i).len() ==> name_char(#[trigger] cap_name(i)[k]),
{
}

pub proof fn lemma_cap_names_distinct()
    ensures
        forall|i: int, j: int|
            0 <= i < CAP_COUNT && 0 <= j < CAP_COUNT && #[trigger] cap_name(i) == #[trigger] cap_name(j) ==> i == j,
{
}

/// Bit `i` of `b` is set.
pub open spec fn has_bit(b: u64, i: int) -> bool {
    0 <= i < 64 && (b >> (i as u64)) & 1u64 == 1u64
}

/// The capability numbers whose bits are set in `b`.
pub open spec fn bit_set(b: u64) -> Set<int> {
    Set::new(|i: int| has_bit(b, i))
}

/// Every set bit of `b` names a known capability.
pub open spec fn caps_valid(b: u64) -> bool {
    b <= CAP_ALL
}

/// A capability set: bit `i` set means capability number `i` is granted.
#[derive(Clone, Copy, Debug, PartialEq, Eq, Structural)]
pub enum Caps {
    V2(u64),
}

/// Why a capability text was refused.
#[derive(Clone, Copy, Debug, PartialEq, Eq, Structural)]
pub enum CapsError {
    /// A comma-separated name is not in the capability table.
    UnknownCapability,
}

impl Caps {
    /// The raw bitmask.
    pub open spec fn bits(&self) -> u64 {
        match self {
            Caps::V2(b) => *b,
        }
    }
}

impl View for Caps {
    type V = Set<int>;

    open spec fn view(&self) -> Set<int> {
        bit_set(self.bits())
    }
}

/// `x` and `y` are the same letter up to ASCII case (`y` taken as the canonical one).
pub open spec fn char_ci(x: char, y: char) -> bool {
    x == y || ('A' <= x && x <= 'Z' && x as u32 + 32 == y as u32)
}

/// `a` spells `b` up to ASCII case.
pub open spec fn ci_eq(a: Seq<char>, b: Seq<char>) -> bool {
    a.len() == b.len() && forall|k: int| 0 <= k < a.len() ==> char_ci(a[k], b[k])
}

/// The capability number that token `tok` names, ignoring case.
pub open spec fn cap_index(tok: Seq<char>) -> Option<int> {
    if exists|i: int| 0 <= i < CAP_COUNT && ci_eq(tok, #[trigger] cap_name(i)) {
        Some(choose|i: int| 0 <= i < CAP_COUNT && ci_eq(tok, #[trigger] cap_name(i)))
    } else {
        None
    }
}

/// The set named by a list of tokens, or `None` when one of them is unknown.
pub open spec fn tokens_caps(toks: Seq<Seq<char>>) -> Option<Set<int>>
    decreases toks.len(),
{
    if toks.len() == 0 {
        Some(Set::empty())
    } else {
        match (tokens_caps(toks.drop_last()), cap_index(toks.last())) {
            (Some(s), Some(i)) => Some(s.insert(i)),
            _ => None,
        }
    }
}

/// The set that capability text `t` names: empty text is the empty set, otherwise each
/// comma-separated token must name a known capability.
pub open spec fn parse_caps(t: Seq<char>) -> Option<Set<int>> {
    if t.len() == 0 {
        Some(Set::empty())
    } else {
        tokens_caps(split(t, ','))
    }
}

/// The names of the set bits of `b` below `n`, in increasing bit order.
pub open spec fn names_upto(b: u64, n: int) -> Seq<Seq<char>>
    decreases n,
{
    if n <= 0 {
        Seq::empty()
    } else if has_bit(b, n - 1) {
        names_upto(b, n - 1).push(cap_name(n - 1))
    } else {
        names_upto(b, n - 1)
    }
}

/// The canonical text of `b`: the names of its bits in increasing order, joined by commas.
pub open spec fn format_caps(b: u64) -> Seq<char> {
    join(names_upto(b, CAP_COUNT as int), seq![','])
}

proof fn lemma_or_bit(b: u64, k: u64, i: u64)
    requires
        k < 64,
        i < 64,
    ensures
        ((b | (1u64 << k)) >> i) & 1u64 == 1u64 <==> ((b >> i) & 1u64 == 1u64 || i == k),
{
    assert(((b | (1u64 << k)) >> i) & 1u64 == 1u64 <==> ((b >> i) & 1u64 == 1u64 || i == k))
        by (bit_vector)
        requires
            k < 64,
            i < 64,
    ;
}

proof fn lemma_or_valid(b: u64, k: u64)
    requires
        b <= 0x1ff_ffff_ffffu64,
        k < 41,
    ensures
        (b | (1u64 << k)) <= 0x1ff_ffff_ffffu64,
{
    assert((b | (1u64 << k)) <= 0x1ff_ffff_ffffu64) by (bit_vector)
        requires
            b <= 0x1ff_ffff_ffffu64,
            k < 41,
    ;
}

proof fn lemma_valid_high_bits(b: u64, i: u64)
    requires
        b <= 0x1ff_ffff_ffffu64,
        41 <= i < 64,
    ensures
        (b >> i) & 1u64 == 0u64,
{
    assert((b >> i) & 1u64 == 0u64) by (bit_vector)
        requires
            b <= 0x1ff_ffff_ffffu64,
            41 <= i < 64,
    ;
}

proof fn lemma_bit_set_insert(b: u64, k: u64)
    requires
        k < 64,
    ensures
        bit_set(b | (1u64 << k)) == bit_set(b).insert(k as int),
{
    assert forall|i: int| #[trigger] bit_set(b | (1u64 << k)).contains(i) == bit_set(b).insert(
        k as int,
    ).contains(i) by {
        if 0 <= i < 64 {
            lemma_or_bit(b, k, i as u64);
        }
    }
    assert(bit_set(b | (1u64 << k)) =~= bit_set(b).insert(k as int));
}

proof fn lemma_bit_set_zero()
    ensures
        bit_set(0u64) == Set::<int>::empty(),
{
    assert forall|i: u64| i < 64 implies (0u64 >> i) & 1u64 == 0u64 by {
        assert((0u64 >> i) & 1u64 == 0u64) by (bit_vector);
    }
    assert(bit_set(0u64) =~= Set::<int>::empty());
}

/// Two tokens that both spell canonical names up to case spell the same name.
proof fn lemma_ci_unique(tok: Seq<char>, i: int, j: int)
    requires
        0 <= i < CAP_COUNT,
        0 <= j < CAP_COUNT,
        ci_eq(tok, cap_name(i)),
        ci_eq(tok, cap_name(j)),
    ensures
        i == j,
{
    lemma_cap_names_lower();
    assert forall|k: int| 0 <= k < tok.len() implies cap_name(i)[k] == cap_name(j)[k] by {
        assert(name_char(cap_name(i)[k]));
        assert(name_char(cap_name(j)[k]));
    }
    assert(cap_name(i) =~= cap_name(j));
    lemma_cap_names_distinct();
}

/// A canonical name reads back as its own number.
pub proof fn lemma_cap_index_name(i: int)
    requires
        0 <= i < CAP_COUNT,
    ensures
        cap_index(cap_name(i)) == Some(i),
{
    assert(ci_eq(cap_name(i), cap_name(i)));
    let j = choose|j: int| 0 <= j < CAP_COUNT && ci_eq(cap_name(i), #[trigger] cap_name(j));
    lemma_ci_unique(cap_name(i), i, j);
}

/// Whether `a` spells `b` up to case.
fn ci_eq_chars(a: &Vec<char>, b: &Vec<char>) -> (r: bool)
    ensures
        r == ci_eq(a@, b@),
{
    if a.len() != b.len() {
        return false;
    }
    let mut k: usize = 0;
    while k < a.len()
        invariant
            a.len() == b.len(),
            k <= a.len(),
            forall|m: int| 0 <= m < k ==> char_ci(a@[m], b@[m]),
        decreases a.len() - k,
    {
        let x = a[k];
        let y = b[k];
        if !(x == y || ('A' <= x && x <= 'Z' && (x as u32) + 32 == y as u32)) {
            return false;
        }
        k += 1;
    }
    true
}

/// The capability number that `tok` names, ignoring case.
fn cap_lookup(tok: &Vec<char>) -> (r: Option<usize>)
    ensures
        match r {
            Some(i) => i < CAP_COUNT && cap_index(tok@) == Some(i as int),
            None => cap_index(tok@) is None,
        },
{
    let mut i: usize = 0;
    while i < CAP_COUNT
        invariant
            i <= CAP_COUNT,
            forall|j: int| 0 <= j < i ==> !ci_eq(tok@, #[trigger] cap_name(j)),
        decreases CAP_COUNT - i,
    {
        let name = cap_name_chars(i);
        if ci_eq_chars(tok, &name) {
            proof {
                let j = choose|j: int| 0 <= j < CAP_COUNT && ci_eq(tok@, #[trigger] cap_name(j));
                lemma_ci_unique(tok@, i as int, j);
            }
            return Some(i);
        }
        i += 1;
    }
    None
}

proof fn lemma_tokens_prefix_none(toks: Seq<Seq<char>>, n: int)
    requires
        0 <= n <= toks.len(),
        tokens_caps(toks.subrange(0, n)) is None,
    ensures
        tokens_caps(toks) is None,
    decreases toks.len() - n,
{
    if n < toks.len() {
        assert(toks.subrange(0, n + 1).drop_last() =~= toks.subrange(0, n));
        lemma_tokens_prefix_none(toks, n + 1);
    } else {
        assert(toks.subrange(0, n) =~= toks);
    }
}

proof fn lemma_names_upto_tokens(b: u64, n: int)
    requires
        0 <= n <= CAP_COUNT,
    ensures
        tokens_caps(names_upto(b, n)) == Some(bit_set(b).filter(|i: int| i < n)),
        forall|k: int|
            0 <= k < names_upto(b, n).len() ==> lacks(#[trigger] names_upto(b, n)[k], ','),
    decreases n,
{
    if n == 0 {
        assert(bit_set(b).filter(|i: int| i < n) =~= Set::<int>::empty());
    } else {
        lemma_names_upto_tokens(b, n - 1);
        lemma_cap_names_lower();
        let prev = names_upto(b, n - 1);
        if has_bit(b, n - 1) {
            lemma_cap_index_name(n - 1);
            assert(prev.push(cap_name(n - 1)).drop_last() =~= prev);
            assert(bit_set(b).filter(|i: int| i < n) =~= bit_set(b).filter(|i: int| i < n - 1).insert(
                n - 1,
            ));
            assert forall|k: int| 0 <= k < names_upto(b, n).len() implies lacks(
                #[trigger] names_upto(b, n)[k],
                ',',
            ) by {
                if k == prev.len() {
                    assert(names_upto(b, n)[k] == cap_name(n - 1));
                    assert(lacks(cap_name(n - 1), ','));
                } else {
                    assert(names_upto(b, n)[k] == prev[k]);
                }
            }
        } else {
            assert(bit_set(b).filter(|i: int| i < n) =~= bit_set(b).filter(|i: int| i < n - 1));
        }
    }
}

/// The canonical text of a valid set reads back as the same set.
pub proof fn lemma_format_parse(b: u64)
    requires
        caps_valid(b),
    ensures
        parse_caps(format_caps(b)) == Some(bit_set(b)),
{
    let names = names_upto(b, CAP_COUNT as int);
    lemma_names_upto_tokens(b, CAP_COUNT as int);
    assert forall|i: int| 41 <= i < 64 implies !has_bit(b, i) by {
        lemma_valid_high_bits(b, i as u64);
    }
    assert(bit_set(b).filter(|i: int| i < CAP_COUNT) =~= bit_set(b));
    if names.len() == 0 {
        assert(format_caps(b) =~= Seq::<char>::empty());
    } else {
        lemma_split_join(names, ',');
        lemma_join_nonempty(names);
    }
}

/// A join of nonempty names is nonempty.
proof fn lemma_join_nonempty(parts: Seq<Seq<char>>)
    requires
        parts.len() >= 1,
        parts.last().len() >= 1,
    ensures
        join(parts, seq![',']).len() >= 1,
{
}

impl Caps {
    /// The empty set.
    pub fn empty() -> (r: Caps)
        ensures
            r.bits() == 0,
            r@ == Set::<int>::empty(),
    {
        proof {
            lemma_bit_set_zero();
        }
        Caps::V2(0)
    }

    /// The raw bitmask.
    pub fn as_u64(&self) -> (r: u64)
        ensures
            r == self.bits(),
    {
        match self {
            Caps::V2(b) => *b,
        }
    }

    /// Reads capability text: comma-separated names, case-insensitive; the empty text is
    /// the empty set. A name outside the table is refused.
    pub fn parse(text: &str) -> (r: Result<Caps, CapsError>)
        ensures
            match r {
                Ok(c) => parse_caps(text@) == Some(c@) && caps_valid(c.bits()),
                Err(e) => parse_caps(text@) is None && e == CapsError::UnknownCapability,
            },
    {
        let chars = chars_of(text);
        if chars.len() == 0 {
            return Ok(Caps::empty());
        }
        let toks = split_chars(&chars, ',');
        let ghost stoks = split(chars@, ',');
        let mut bits: u64 = 0;
        let mut i: usize = 0;
        proof {
            lemma_bit_set_zero();
            assert(stoks.subrange(0, 0) =~= Seq::<Seq<char>>::empty());
        }
        while i < toks.len()
            invariant
                chars@ == text@,
                chars@.len() > 0,
                stoks == split(chars@, ','),
                toks@.len() == stoks.len(),
                forall|k: int| 0 <= k < toks@.len() ==> (#[trigger] toks@[k])@ == stoks[k],
                i <= toks.len(),
                bits <= CAP_ALL,
                tokens_caps(stoks.subrange(0, i as int)) == Some(bit_set(bits)),
            decreases toks.len() - i,
        {
            let tok = &toks[i];
            assert(stoks.subrange(0, i + 1).drop_last() =~= stoks.subrange(0, i as int));
            assert(stoks.subrange(0, i + 1).last() == stoks[i as int]);
            match cap_lookup(tok) {
                Some(k) => {
                    proof {
                        lemma_bit_set_insert(bits, k as u64);
                        lemma_or_valid(bits, k as u64);
                    }
                    bits = bits | (1u64 << (k as u64));
                },
                None => {
                    proof {
                        assert(tok@ == stoks[i as int]);
                        assert(tokens_caps(stoks.subrange(0, i + 1)) is None);
                        lemma_tokens_prefix_none(stoks, i + 1);
                        assert(text@.len() > 0);
                    }
                    return Err(CapsError::UnknownCapability);
                },
            }
            i += 1;
        }
        assert(stoks.subrange(0, toks.len() as int) =~= stoks);
        Ok(Caps::V2(bits))
    }

    /// The canonical text: the names of the granted capabilities in increasing number
    /// order, lower case, joined by commas; the empty set gives the empty text.
    pub fn to_string(&self) -> (r: String)
        ensures
            r@ == format_caps(self.bits()),
    {
        let b = self.as_u64();
        let mut out: Vec<char> = Vec::new();
        let mut first = true;
        let mut i: usize = 0;
        while i < CAP_COUNT
            invariant
                i <= CAP_COUNT,
                b == self.bits(),
                out@ == join(names_upto(b, i as int), seq![',']),
                first == (names_upto(b, i as int).len() == 0),
            decreases CAP_COUNT - i,
        {
            if (b >> (i as u64)) & 1u64 == 1u64 {
                let name = cap_name_chars(i);
                let ghost prev = names_upto(b, i as int);
                assert(names_upto(b, i + 1) == prev.push(cap_name(i as int)));
                assert(prev.push(cap_name(i as int)).drop_last() =~= prev);
                if !first {
                    out.push(',');
                }
                push_all(&mut out, &name);
                proof {
                    if prev.len() == 0 {
                        assert(join(prev, seq![',']) =~= Seq::<char>::empty());
                        assert(out@ =~= join(names_upto(b, i + 1), seq![',']));
                    } else {
                        assert(out@ =~= join(names_upto(b, i + 1), seq![',']));
                    }
                }
                first = false;
            }
            i += 1;
        }
        string_of(&out)
    }

    /// Whether capability number `cap` is granted.
    pub fn contains(&self, cap: u64) -> (r: bool)
        requires
            cap < 64,
        ensures
            r == self@.contains(cap as int),
    {
        (self.as_u64() >> cap) & 1u64 == 1u64
    }

    /// Whether no capability is granted.
    pub fn is_empty(&self) -> (r: bool)
        ensures
            r == (self.bits() == 0),
            r ==> self@ == Set::<int>::empty(),
    {
        proof {
            lemma_bit_set_zero();
        }
        self.as_u64() == 0
    }

    /// Whether some capability is granted.
    pub fn is_not_empty(&self) -> (r: bool)
        ensures
            r == (self.bits() != 0),
    {
        self.as_u64() != 0
    }

    /// The capabilities granted by either set.
    pub fn union(&self, other: &Caps) -> (r: Caps)
        ensures
            r.bits() == self.bits() | other.bits(),
            r@ == self@ + other@,
    {
        let a = self.as_u64();
        let b = other.as_u64();
        proof {
            assert forall|i: int| #[trigger] bit_set(a | b).contains(i) == (bit_set(a) + bit_set(b)).contains(i) by {
                if 0 <= i < 64 {
                    let j = i as u64;
                    assert(((a | b) >> j) & 1u64 == 1u64 <==> ((a >> j) & 1u64 == 1u64 || (b >> j) & 1u64 == 1u64)) by (bit_vector);
                }
            }
            assert(bit_set(a | b) =~= bit_set(a) + bit_set(b));
        }
        Caps::V2(a | b)
    }

    /// The capabilities granted by `self` and not by `other`.
    pub fn difference(&self, other: &Caps) -> (r: Caps)
        ensures
            r.bits() == self.bits() & !other.bits(),
            r@ == self@ - other@,
    {
        let a = self.as_u64();
        let b = other.as_u64();
        proof {
            assert forall|i: int| #[trigger] bit_set(a & !b).contains(i) == (bit_set(a) - bit_set(b)).contains(i) by {
                if 0 <= i < 64 {
                    let j = i as u64;
                    assert(((a & !b) >> j) & 1u64 == 1u64 <==> ((a >> j) & 1u64 == 1u64 && (b >> j) & 1u64 != 1u64)) by (bit_vector);
                }
            }
            assert(bit_set(a & !b) =~= bit_set(a) - bit_set(b));
        }
        Caps::V2(a & !b)
    }

    /// The known capabilities that `self` does not grant.
    pub fn complement(&self) -> (r: Caps)
        ensures
            r.bits() == CAP_ALL & !self.bits(),
            caps_valid(r.bits()),
    {
        let a = self.as_u64();
        assert((0x1ff_ffff_ffffu64 & !a) <= 0x1ff_ffff_ffffu64) by (bit_vector);
        Caps::V2(CAP_ALL & !a)
    }
}

/// Reading back the canonical text of a parsed set gives the set that the input text
/// named, and that canonical text is lower case: only canonical name characters and commas.
pub proof fn lemma_caps_text_round_trip(t: Seq<char>, c: Caps)
    requires
        parse_caps(t) == Some(c@),
        caps_valid(c.bits()),
    ensures
        parse_caps(format_caps(c.bits())) == parse_caps(t),
        forall|k: int|
            0 <= k < format_caps(c.bits()).len() ==> name_char(#[trigger] format_caps(c.bits())[k])
                || format_caps(c.bits())[k] == ',',
{
    lemma_format_parse(c.bits());
    lemma_names_upto_lower(c.bits(), CAP_COUNT as int);
}

/// The canonical text depends on the set alone: two texts naming the same set, in any
/// order or case, are written the same way.
pub proof fn lemma_caps_text_canonical(c1: Caps, c2: Caps)
    requires
        c1@ == c2@,
    ensures
        format_caps(c1.bits()) == format_caps(c2.bits()),
{
    lemma_names_upto_same(c1.bits(), c2.bits(), CAP_COUNT as int);
}

proof fn lemma_names_upto_same(a: u64, b: u64, n: int)
    requires
        bit_set(a) == bit_set(b),
    ensures
        names_upto(a, n) == names_upto(b, n),
    decreases n,
{
    if n > 0 {
        assert(bit_set(a).contains(n - 1) == has_bit(a, n - 1));
        assert(bit_set(b).contains(n - 1) == has_bit(b, n - 1));
        lemma_names_upto_same(a, b, n - 1);
    }
}

proof fn lemma_join_chars(parts: Seq<Seq<char>>)
    requires
        forall|i: int, k: int|
            0 <= i < parts.len() && 0 <= k < parts[i].len() ==> name_char(#[trigger] parts[i][k]),
    ensures
        forall|k: int|
            0 <= k < join(parts, seq![',']).len() ==> name_char(#[trigger] join(parts, seq![','])[k])
                || join(parts, seq![','])[k] == ',',
    decreases parts.len(),
{
    if parts.len() > 1 {
        let init = parts.drop_last();
        assert forall|i: int, k: int|
            0 <= i < init.len() && 0 <= k < init[i].len() implies name_char(#[trigger] init[i][k]) by {
            assert(init[i] == parts[i]);
        }
        lemma_join_chars(init);
        let j = join(parts, seq![',']);
        let ji = join(init, seq![',']);
        assert(j == ji + seq![','] + parts.last());
        assert forall|k: int| 0 <= k < j.len() implies name_char(#[trigger] j[k]) || j[k] == ',' by {
            if k < ji.len() {
                assert(j[k] == ji[k]);
            } else if k > ji.len() {
                assert(j[k] == parts.last()[k - ji.len() - 1]);
                assert(name_char(parts[parts.len() - 1][k - ji.len() - 1]));
            }
        }
    } else if parts.len() == 1 {
        assert forall|k: int| 0 <= k < parts[0].len() implies name_char(#[trigger] parts[0][k]) by {}
    }
}

proof fn lemma_names_upto_lower(b: u64, n: int)
    requires
        0 <= n <= CAP_COUNT,
    ensures
        forall|k: int|
            0 <= k < format_caps(b).len() ==> name_char(#[trigger] format_caps(b)[k])
                || format_caps(b)[k] == ',',
{
    let names = names_upto(b, CAP_COUNT as int);
    lemma_names_upto_in_table(b, CAP_COUNT as int);
    lemma_cap_names_lower();
    assert forall|i: int, k: int|
        0 <= i < names.len() && 0 <= k < names[i].len() implies name_char(#[trigger] names[i][k]) by {
        let m = choose|m: int| 0 <= m < CAP_COUNT && names[i] == #[trigger] cap_name(m);
        assert(name_char(cap_name(m)[k]));
    }
    lemma_join_chars(names);
}

proof fn lemma_names_upto_in_table(b: u64, n: int)
    requires
        0 <= n <= CAP_COUNT,
    ensures
        forall|i: int|
            0 <= i < names_upto(b, n).len() ==> exists|m: int|
                0 <= m < CAP_COUNT && #[trigger] names_upto(b, n)[i] == #[trigger] cap_name(m),
    decreases n,
{
    if n > 0 {
        lemma_names_upto_in_table(b, n - 1);
        let prev = names_upto(b, n - 1);
        assert forall|i: int| 0 <= i < names_upto(b, n).len() implies exists|m: int|
            0 <= m < CAP_COUNT && #[trigger] names_upto(b, n)[i] == #[trigger] cap_name(m) by {
            if i < prev.len() {
                assert(names_upto(b, n)[i] == prev[i]);
            } else {
                assert(names_upto(b, n)[i] == cap_name(n - 1));
            }
        }
    }
}

proof fn lemma_shift_step(a: u64, n: u64)
    requires
        n < 63,
    ensures
        a >> n == ((a >> ((n + 1) as u64)) << 1u64) | ((a >> n) & 1u64),
{
    assert(a >> n == ((a >> ((n + 1) as u64)) << 1u64) | ((a >> n) & 1u64)) by (bit_vector)
        requires
            n < 63,
    ;
}

proof fn lemma_shift_ends(a: u64)
    ensures
        a >> 63u64 == (a >> 63u64) & 1u64,
        a >> 0u64 == a,
{
    assert(a >> 63u64 == (a >> 63u64) & 1u64) by (bit_vector);
    assert(a >> 0u64 == a) by (bit_vector);
}

proof fn lemma_same_bits_from(a: u64, b: u64, n: u64)
    requires
        n <= 63,
        forall|i: int| 0 <= i < 64 ==> has_bit(a, i) == has_bit(b, i),
    ensures
        a >> n == b >> n,
    decreases 63 - n,
{
    assert(((a >> n) & 1u64 == 1u64) == ((b >> n) & 1u64 == 1u64)) by {
        assert(has_bit(a, n as int) == has_bit(b, n as int));
    }
    assert((a >> n) & 1u64 == 1u64 || (a >> n) & 1u64 == 0u64) by (bit_vector);
    assert((b >> n) & 1u64 == 1u64 || (b >> n) & 1u64 == 0u64) by (bit_vector);
    if n == 63 {
        lemma_shift_ends(a);
        lemma_shift_ends(b);
    } else {
        lemma_same_bits_from(a, b, (n + 1) as u64);
        lemma_shift_step(a, n);
        lemma_shift_step(b, n);
    }
}

/// Two capability sets that grant the same capabilities have the same bitmask.
pub proof fn lemma_caps_bits_determined(c1: Caps, c2: Caps)
    requires
        c1@ == c2@,
    ensures
        c1.bits() == c2.bits(),
{
    let a = c1.bits();
    let b = c2.bits();
    assert forall|i: int| 0 <= i < 64 implies has_bit(a, i) == has_bit(b, i) by {
        assert(bit_set(a).contains(i) == has_bit(a, i));
        assert(bit_set(b).contains(i) == has_bit(b, i));
    }
    lemma_same_bits_from(a, b, 0);
    lemma_shift_ends(a);
    lemma_shift_ends(b);
}

/// Parsing the canonical text of a parsed set again gives the identical bitmask.
pub proof fn lemma_caps_text_same_bitmask(t: Seq<char>, c: Caps, c2: Caps)
    requires
        parse_caps(t) == Some(c@),
        caps_valid(c.bits()),
        parse_caps(format_caps(c.bits())) == Some(c2@),
    ensures
        c2.bits() == c.bits(),
{
    lemma_format_parse(c.bits());
    lemma_caps_bits_determined(c2, c);
}

} // verus!
