//! The privilege transition: the ordered identity and capability changes that move the
//! process to what a decision grants, as a plan of steps that the caller performs.
use vstd::prelude::*;
use crate::capabilities::{bit_set, caps_valid, has_bit, Caps, CAP_COUNT};
use crate::finder::Decision;
use crate::options::{resolved_flag, OptType};
use crate::structs::{clone_strings, strings_view, Groups};

verus! {

/// Capability number of CAP_SETGID.
pub const CAP_SETGID: u8 = 6;

/// Capability number of CAP_SETUID.
pub const CAP_SETUID: u8 = 7;

/// Capability number of CAP_SETPCAP.
pub const CAP_SETPCAP: u8 = 8;

/// One privilege operation; each is performed by exactly one system call.
#[derive(Debug)]
pub enum Step {
    /// Bar the process from gaining privileges from now on.
    SetNoNewPrivs,
    /// Raise a capability into the effective set.
    RaiseEffective(u8),
    /// Drop a capability from the effective set.
    DropEffective(u8),
    /// Switch the effective user to the named user.
    SetEuid(String),
    /// Switch the effective group to the named group.
    SetEgid(String),
    /// Set the supplementary groups to the named groups.
    SetGroups(Vec<String>),
    /// Remove a capability from the bounding set.
    DropBounding(u8),
    /// Empty the bounding set.
    ClearBounding,
    /// Set the permitted and inheritable sets, emptying the effective set.
    SetCaps(Caps, Caps),
    /// Raise a capability into the ambient set.
    RaiseAmbient(u8),
}

/// The model of a step.
pub enum StepModel {
    SetNoNewPrivs,
    RaiseEffective(int),
    DropEffective(int),
    SetEuid(Seq<char>),
    SetEgid(Seq<char>),
    SetGroups(Seq<Seq<char>>),
    DropBounding(int),
    ClearBounding,
    SetCaps(Set<int>, Set<int>),
    RaiseAmbient(int),
}

impl View for Step {
    type V = StepModel;

    open spec fn view(&self) -> StepModel {
        match self {
            Step::SetNoNewPrivs => StepModel::SetNoNewPrivs,
            Step::RaiseEffective(c) => StepModel::RaiseEffective(*c as int),
            Step::DropEffective(c) => StepModel::DropEffective(*c as int),
            Step::SetEuid(u) => StepModel::SetEuid(u@),
            Step::SetEgid(g) => StepModel::SetEgid(g@),
            Step::SetGroups(gs) => StepModel::SetGroups(strings_view(gs@)),
            Step::DropBounding(c) => StepModel::DropBounding(*c as int),
            Step::ClearBounding => StepModel::ClearBounding,
            Step::SetCaps(p, i) => StepModel::SetCaps(p@, i@),
            Step::RaiseAmbient(c) => StepModel::RaiseAmbient(*c as int),
        }
    }
}

/// The views of a list of steps.
pub open spec fn steps_view(v: Seq<Step>) -> Seq<StepModel> {
    Seq::new(v.len(), |i: int| v[i]@)
}

/// Step 1: bar new privileges when root is not allowed.
pub open spec fn root_steps(root_allowed: bool) -> Seq<StepModel> {
    if root_allowed {
        Seq::empty()
    } else {
        seq![StepModel::SetNoNewPrivs]
    }
}

/// Step 2, user part: raise CAP_SETUID, switch user, drop it.
pub open spec fn uid_steps(setuid: Option<Seq<char>>) -> Seq<StepModel> {
    match setuid {
        Some(u) => seq![
            StepModel::RaiseEffective(CAP_SETUID as int),
            StepModel::SetEuid(u),
            StepModel::DropEffective(CAP_SETUID as int),
        ],
        None => Seq::empty(),
    }
}

/// Step 2, group part: raise CAP_SETGID, switch to the first group, set the group list,
/// drop it.
pub open spec fn gid_steps(setgid: Option<Seq<Seq<char>>>) -> Seq<StepModel> {
    match setgid {
        Some(g) => seq![StepModel::RaiseEffective(CAP_SETGID as int)] + (if g.len() > 0 {
            seq![StepModel::SetEgid(g[0])]
        } else {
            Seq::empty()
        }) + seq![StepModel::SetGroups(g), StepModel::DropEffective(CAP_SETGID as int)],
        None => Seq::empty(),
    }
}

/// Removal from the bounding set of each known capability below `n` not in `b`.
pub open spec fn bounding_drops(b: u64, n: int) -> Seq<StepModel>
    decreases n,
{
    if n <= 0 {
        Seq::empty()
    } else if has_bit(b, n - 1) {
        bounding_drops(b, n - 1)
    } else {
        bounding_drops(b, n - 1).push(StepModel::DropBounding(n - 1))
    }
}

/// Raising into the ambient set of each capability below `n` in `b`.
pub open spec fn ambient_raises(b: u64, n: int) -> Seq<StepModel>
    decreases n,
{
    if n <= 0 {
        Seq::empty()
    } else if has_bit(b, n - 1) {
        ambient_raises(b, n - 1).push(StepModel::RaiseAmbient(n - 1))
    } else {
        ambient_raises(b, n - 1)
    }
}

/// Step 3: raise CAP_SETPCAP; with capabilities, restrict the bounding set when bounding is
/// not allowed, set permitted and inheritable to them and raise each into the ambient
/// set; without, empty the bounding set when bounding is not allowed and empty every set;
/// then drop CAP_SETPCAP.
pub open spec fn cap_steps(b: u64, bounding_allowed: bool) -> Seq<StepModel> {
    seq![StepModel::RaiseEffective(CAP_SETPCAP as int)] + (if b != 0 {
        (if bounding_allowed {
            Seq::empty()
        } else {
            bounding_drops(b, CAP_COUNT as int)
        }) + seq![StepModel::SetCaps(bit_set(b), bit_set(b))] + ambient_raises(b, CAP_COUNT as int)
    } else {
        (if bounding_allowed {
            Seq::empty()
        } else {
            seq![StepModel::ClearBounding]
        }) + seq![StepModel::SetCaps(Set::empty(), Set::empty())]
    }) + seq![StepModel::DropEffective(CAP_SETPCAP as int)]
}

/// The whole transition, steps 1 to 3 in order.
pub open spec fn plan_model(
    b: u64,
    root_allowed: bool,
    bounding_allowed: bool,
    setuid: Option<Seq<char>>,
    setgid: Option<Seq<Seq<char>>>,
) -> Seq<StepModel> {
    root_steps(root_allowed) + uid_steps(setuid) + gid_steps(setgid) + cap_steps(b, bounding_allowed)
}

fn push_bounding_drops(out: &mut Vec<Step>, b: u64)
    ensures
        steps_view(final(out)@) == steps_view(old(out)@) + bounding_drops(b, CAP_COUNT as int),
{
    let ghost start = steps_view(out@);
    let mut c: u8 = 0;
    while c < 41
        invariant
            c <= 41,
            steps_view(out@) == start + bounding_drops(b, c as int),
        decreases 41 - c,
    {
        if (b >> (c as u64)) & 1u64 != 1u64 {
            push_step(out, Step::DropBounding(c));
        }
        assert(steps_view(out@) =~= start + bounding_drops(b, c + 1));
        c += 1;
    }
}

fn push_ambient_raises(out: &mut Vec<Step>, b: u64)
    ensures
        steps_view(final(out)@) == steps_view(old(out)@) + ambient_raises(b, CAP_COUNT as int),
{
    let ghost start = steps_view(out@);
    let mut c: u8 = 0;
    while c < 41
        invariant
            c <= 41,
            steps_view(out@) == start + ambient_raises(b, c as int),
        decreases 41 - c,
    {
        if (b >> (c as u64)) & 1u64 == 1u64 {
            push_step(out, Step::RaiseAmbient(c));
        }
        assert(steps_view(out@) =~= start + ambient_raises(b, c + 1));
        c += 1;
    }
}

fn push_step(out: &mut Vec<Step>, s: Step)
    ensures
        steps_view(final(out)@) == steps_view(old(out)@).push(s@),
{
    out.push(s);
    assert(steps_view(final(out)@) =~= steps_view(old(out)@).push(s@));
}

fn push_uid_steps(out: &mut Vec<Step>, setuid: &Option<String>)
    ensures
        steps_view(final(out)@) == steps_view(old(out)@) + uid_steps(
            match setuid {
                Some(u) => Some(u@),
                None => None,
            },
        ),
{
    let ghost start = steps_view(out@);
    match setuid {
        Some(u) => {
            push_step(out, Step::RaiseEffective(CAP_SETUID));
            push_step(out, Step::SetEuid(u.clone()));
            push_step(out, Step::DropEffective(CAP_SETUID));
            assert(steps_view(out@) =~= start + uid_steps(Some(u@)));
        },
        None => {
            assert(steps_view(out@) =~= start + uid_steps(None));
        },
    }
}

fn push_gid_steps(out: &mut Vec<Step>, setgid: &Option<Groups>)
    ensures
        steps_view(final(out)@) == steps_view(old(out)@) + gid_steps(
            match setgid {
                Some(g) => Some(g@),
                None => None,
            },
        ),
{
    let ghost start = steps_view(out@);
    match setgid {
        Some(g) => {
            push_step(out, Step::RaiseEffective(CAP_SETGID));
            if g.groups.len() > 0 {
                push_step(out, Step::SetEgid(g.groups[0].clone()));
                assert(g@[0] == g.groups@[0]@);
            }
            let all = clone_strings(&g.groups);
            push_step(out, Step::SetGroups(all));
            push_step(out, Step::DropEffective(CAP_SETGID));
            assert(steps_view(out@) =~= start + gid_steps(Some(g@)));
        },
        None => {
            assert(steps_view(out@) =~= start + gid_steps(None));
        },
    }
}

fn push_cap_steps(out: &mut Vec<Step>, caps: Caps, bounding_allowed: bool)
    ensures
        steps_view(final(out)@) == steps_view(old(out)@) + cap_steps(caps.bits(), bounding_allowed),
{
    let ghost start = steps_view(out@);
    let b = caps.as_u64();
    push_step(out, Step::RaiseEffective(CAP_SETPCAP));
    let ghost s1 = steps_view(out@);
    if b != 0 {
        if !bounding_allowed {
            push_bounding_drops(out, b);
        }
        let ghost s2 = steps_view(out@);
        push_step(out, Step::SetCaps(caps, caps));
        let ghost s3 = steps_view(out@);
        push_ambient_raises(out, b);
        let ghost s4 = steps_view(out@);
        push_step(out, Step::DropEffective(CAP_SETPCAP));
        assert(s2 =~= s1 + (if bounding_allowed {
            Seq::empty()
        } else {
            bounding_drops(b, CAP_COUNT as int)
        }));
        assert(steps_view(out@) =~= start + cap_steps(b, bounding_allowed));
    } else {
        if !bounding_allowed {
            push_step(out, Step::ClearBounding);
        }
        let e = Caps::empty();
        push_step(out, Step::SetCaps(e, e));
        push_step(out, Step::DropEffective(CAP_SETPCAP));
        assert(steps_view(out@) =~= start + cap_steps(b, bounding_allowed));
    }
}

/// The ordered privilege steps for granting capabilities `caps` with the forced identity
/// `setuid` / `setgid`, under the resolved root-allowed and bounding flags.
pub fn plan(
    caps: Caps,
    root_allowed: bool,
    bounding_allowed: bool,
    setuid: &Option<String>,
    setgid: &Option<Groups>,
) -> (r: Vec<Step>)
    ensures
        steps_view(r@) == plan_model(
            caps.bits(),
            root_allowed,
            bounding_allowed,
            match setuid {
                Some(u) => Some(u@),
                None => None,
            },
            match setgid {
                Some(g) => Some(g@),
                None => None,
            },
        ),
{
    let mut out: Vec<Step> = Vec::new();
    if !root_allowed {
        push_step(&mut out, Step::SetNoNewPrivs);
    }
    assert(steps_view(out@) =~= root_steps(root_allowed));
    push_uid_steps(&mut out, setuid);
    push_gid_steps(&mut out, setgid);
    push_cap_steps(&mut out, caps, bounding_allowed);
    out
}

/// The steps for decision `d`, with the root-allowed and bounding flags resolved from the
/// decision's option stack.
pub fn plan_for(d: &Decision) -> (r: Vec<Step>)
    ensures
        steps_view(r@) == plan_model(
            d.caps.bits(),
            resolved_flag(d.opt.stack@, OptType::NoRoot),
            resolved_flag(d.opt.stack@, OptType::Bounding),
            match d.setuid {
                Some(u) => Some(u@),
                None => None,
            },
            match d.setgid {
                Some(g) => Some(g@),
                None => None,
            },
        ),
{
    let (_, root_allowed) = d.opt.get_no_root();
    let (_, bounding_allowed) = d.opt.get_bounding();
    plan(d.caps, root_allowed, bounding_allowed, &d.setuid, &d.setgid)
}

/// The capability state of a process, as far as the plan changes it.
pub struct CapState {
    pub bounding: Set<int>,
    pub permitted: Set<int>,
    pub inheritable: Set<int>,
    pub effective: Set<int>,
    pub ambient: Set<int>,
    pub no_new_privs: bool,
}

/// What one step does to the capability state (identity steps leave it as it is).
pub open spec fn apply_step(s: CapState, st: StepModel) -> CapState {
    match st {
        StepModel::SetNoNewPrivs => CapState { no_new_privs: true, ..s },
        StepModel::RaiseEffective(c) => CapState { effective: s.effective.insert(c), ..s },
        StepModel::DropEffective(c) => CapState { effective: s.effective.remove(c), ..s },
        StepModel::DropBounding(c) => CapState { bounding: s.bounding.remove(c), ..s },
        StepModel::ClearBounding => CapState { bounding: Set::empty(), ..s },
        StepModel::SetCaps(p, i) => CapState {
            permitted: p,
            inheritable: i,
            effective: Set::empty(),
            ambient: s.ambient.intersect(p).intersect(i),
            ..s
        },
        StepModel::RaiseAmbient(c) => CapState { ambient: s.ambient.insert(c), ..s },
        _ => s,
    }
}

/// The state after performing `steps` in order from `s`.
pub open spec fn run_steps(s: CapState, steps: Seq<StepModel>) -> CapState
    decreases steps.len(),
{
    if steps.len() == 0 {
        s
    } else {
        apply_step(run_steps(s, steps.drop_last()), steps.last())
    }
}

proof fn lemma_run_append(s: CapState, a: Seq<StepModel>, b: Seq<StepModel>)
    ensures
        run_steps(s, a + b) == run_steps(run_steps(s, a), b),
    decreases b.len(),
{
    if b.len() == 0 {
        assert(a + b =~= a);
    } else {
        assert((a + b).drop_last() =~= a + b.drop_last());
        lemma_run_append(s, a, b.drop_last());
    }
}

/// With no capabilities granted and bounding not allowed, the transition leaves the
/// bounding set and every capability set empty, whatever state it started from.
pub proof fn lemma_empty_caps_transition(
    s: CapState,
    root_allowed: bool,
    setuid: Option<Seq<char>>,
    setgid: Option<Seq<Seq<char>>>,
)
    ensures
        ({
            let f = run_steps(s, plan_model(0, root_allowed, false, setuid, setgid));
            &&& f.bounding == Set::<int>::empty()
            &&& f.permitted == Set::<int>::empty()
            &&& f.inheritable == Set::<int>::empty()
            &&& f.effective == Set::<int>::empty()
            &&& f.ambient == Set::<int>::empty()
        }),
{
    let pre = root_steps(root_allowed) + uid_steps(setuid) + gid_steps(setgid);
    lemma_run_append(s, pre, cap_steps(0, false));
    let m = run_steps(s, pre);
    let last = cap_steps(0, false);
    assert(last =~= seq![
        StepModel::RaiseEffective(CAP_SETPCAP as int),
        StepModel::ClearBounding,
        StepModel::SetCaps(Set::empty(), Set::empty()),
        StepModel::DropEffective(CAP_SETPCAP as int),
    ]);
    reveal_with_fuel(run_steps, 5);
    let f = run_steps(m, last);
    assert(f.ambient =~= Set::<int>::empty());
    assert(f.effective =~= Set::<int>::empty());
}

proof fn lemma_run_drops(s: CapState, b: u64, n: int)
    requires
        0 <= n,
    ensures
        ({
            let f = run_steps(s, bounding_drops(b, n));
            &&& f.bounding == s.bounding.filter(|c: int| !(0 <= c < n && !has_bit(b, c)))
            &&& f.permitted == s.permitted && f.inheritable == s.inheritable
            &&& f.effective == s.effective && f.ambient == s.ambient
        }),
    decreases n,
{
    if n == 0 {
        assert(s.bounding.filter(|c: int| !(0 <= c < n && !has_bit(b, c))) =~= s.bounding);
    } else {
        lemma_run_drops(s, b, n - 1);
        let prev = bounding_drops(b, n - 1);
        if !has_bit(b, n - 1) {
            assert(bounding_drops(b, n).drop_last() =~= prev);
        }
        assert(run_steps(s, bounding_drops(b, n)).bounding =~= s.bounding.filter(
            |c: int| !(0 <= c < n && !has_bit(b, c)),
        ));
    }
}

proof fn lemma_run_raises(s: CapState, b: u64, n: int)
    requires
        0 <= n,
    ensures
        ({
            let f = run_steps(s, ambient_raises(b, n));
            &&& f.ambient == s.ambient + Set::new(|c: int| 0 <= c < n && has_bit(b, c))
            &&& f.permitted == s.permitted && f.inheritable == s.inheritable
            &&& f.effective == s.effective && f.bounding == s.bounding
        }),
    decreases n,
{
    if n == 0 {
        assert(s.ambient + Set::new(|c: int| 0 <= c < n && has_bit(b, c)) =~= s.ambient);
    } else {
        lemma_run_raises(s, b, n - 1);
        let prev = ambient_raises(b, n - 1);
        if has_bit(b, n - 1) {
            assert(ambient_raises(b, n).drop_last() =~= prev);
        }
        assert(run_steps(s, ambient_raises(b, n)).ambient =~= s.ambient + Set::new(
            |c: int| 0 <= c < n && has_bit(b, c),
        ));
    }
}

/// With capabilities granted, the transition leaves exactly them in the permitted,
/// inheritable and ambient sets, nothing in the effective set, and, when bounding is not
/// allowed, no other known capability in the bounding set.
pub proof fn lemma_caps_transition(
    s: CapState,
    b: u64,
    root_allowed: bool,
    bounding_allowed: bool,
    setuid: Option<Seq<char>>,
    setgid: Option<Seq<Seq<char>>>,
)
    requires
        b != 0,
        caps_valid(b),
    ensures
        ({
            let f = run_steps(s, plan_model(b, root_allowed, bounding_allowed, setuid, setgid));
            &&& f.permitted == bit_set(b)
            &&& f.inheritable == bit_set(b)
            &&& f.ambient == bit_set(b)
            &&& f.effective == Set::<int>::empty()
            &&& !bounding_allowed ==> forall|c: int|
                0 <= c < CAP_COUNT && #[trigger] f.bounding.contains(c) ==> bit_set(b).contains(c)
            &&& f.bounding == if bounding_allowed {
                s.bounding
            } else {
                s.bounding.filter(|c: int| !(0 <= c < CAP_COUNT && !has_bit(b, c)))
            }
        }),
{
    let pre = root_steps(root_allowed) + uid_steps(setuid) + gid_steps(setgid);
    lemma_identity_steps_keep_bounding(s, root_allowed, setuid, setgid);
    let bb = bit_set(b);
    lemma_run_append(s, pre, cap_steps(b, bounding_allowed));
    let m0 = run_steps(s, pre);
    let raise = seq![StepModel::RaiseEffective(CAP_SETPCAP as int)];
    let drops: Seq<StepModel> = if bounding_allowed {
        Seq::empty()
    } else {
        bounding_drops(b, CAP_COUNT as int)
    };
    let setc = seq![StepModel::SetCaps(bb, bb)];
    let raises = ambient_raises(b, CAP_COUNT as int);
    let dropc = seq![StepModel::DropEffective(CAP_SETPCAP as int)];
    assert(cap_steps(b, bounding_allowed) =~= raise + drops + setc + raises + dropc);
    lemma_run_append(m0, raise + drops + setc + raises, dropc);
    lemma_run_append(m0, raise + drops + setc, raises);
    lemma_run_append(m0, raise + drops, setc);
    lemma_run_append(m0, raise, drops);
    assert(raise.drop_last() =~= Seq::<StepModel>::empty());
    assert(setc.drop_last() =~= Seq::<StepModel>::empty());
    assert(dropc.drop_last() =~= Seq::<StepModel>::empty());
    let m1 = run_steps(m0, raise);
    let m2 = run_steps(m1, drops);
    if !bounding_allowed {
        lemma_run_drops(m1, b, CAP_COUNT as int);
    }
    let m3 = run_steps(m2, setc);
    lemma_run_raises(m3, b, CAP_COUNT as int);
    let m4 = run_steps(m3, raises);
    assert forall|i: int| 41 <= i < 64 implies !has_bit(b, i) by {
        lemma_valid_bits(b, i as u64);
    }
    assert(m4.ambient =~= bb);
    assert(m4.effective == Set::<int>::empty());
    let f = run_steps(m4, dropc);
    assert(dropc.last() == StepModel::DropEffective(CAP_SETPCAP as int));
    assert(run_steps(m4, dropc.drop_last()) == m4);
    assert(f.effective == m4.effective.remove(CAP_SETPCAP as int));
    assert(f.effective =~= Set::<int>::empty());
    assert(f.permitted == bb && f.inheritable == bb && f.ambient == bb);
    assert(run_steps(s, plan_model(b, root_allowed, bounding_allowed, setuid, setgid)) == f);
    assert(run_steps(m2, setc.drop_last()) == m2);
    assert(setc.last() == StepModel::SetCaps(bb, bb));
    assert(m3.bounding == m2.bounding);
    assert(f.bounding == m2.bounding);
    assert(run_steps(m0, raise.drop_last()) == m0);
    assert(raise.last() == StepModel::RaiseEffective(CAP_SETPCAP as int));
    assert(m1.bounding == s.bounding);
    if !bounding_allowed {
        assert forall|c: int| 0 <= c < CAP_COUNT && #[trigger] f.bounding.contains(c) implies bb.contains(c) by {
            assert(m1.bounding.filter(|x: int| !(0 <= x < CAP_COUNT && !has_bit(b, x))).contains(c));
        }
    } else {
        assert(m2 == m1);
    }
}

proof fn lemma_run_keeps_bounding(s: CapState, steps: Seq<StepModel>)
    requires
        forall|k: int|
            0 <= k < steps.len() ==> !(#[trigger] steps[k] is DropBounding) && !(steps[k] is ClearBounding),
    ensures
        run_steps(s, steps).bounding == s.bounding,
    decreases steps.len(),
{
    if steps.len() > 0 {
        assert(steps.last() == steps[steps.len() - 1]);
        lemma_run_keeps_bounding(s, steps.drop_last());
    }
}

proof fn lemma_identity_steps_keep_bounding(
    s: CapState,
    root_allowed: bool,
    setuid: Option<Seq<char>>,
    setgid: Option<Seq<Seq<char>>>,
)
    ensures
        run_steps(s, root_steps(root_allowed) + uid_steps(setuid) + gid_steps(setgid)).bounding
            == s.bounding,
{
    let a = root_steps(root_allowed);
    let u = uid_steps(setuid);
    let g = gid_steps(setgid);
    let p = a + u + g;
    assert forall|k: int| 0 <= k < p.len() implies !(#[trigger] p[k] is DropBounding) && !(
    p[k] is ClearBounding) by {
        if k < a.len() {
            assert(p[k] == a[k]);
        } else if k < a.len() + u.len() {
            assert(p[k] == u[k - a.len()]);
        } else {
            assert(p[k] == g[k - a.len() - u.len()]);
            match setgid {
                Some(gs) => {
                    let mid: Seq<StepModel> = if gs.len() > 0 {
                        seq![StepModel::SetEgid(gs[0])]
                    } else {
                        Seq::empty()
                    };
                    let j = k - a.len() - u.len();
                    let first = seq![StepModel::RaiseEffective(CAP_SETGID as int)];
                    let last = seq![StepModel::SetGroups(gs), StepModel::DropEffective(CAP_SETGID as int)];
                    assert(g =~= first + mid + last);
                    if j < 1 {
                        assert(g[j] == first[j]);
                    } else if j < 1 + mid.len() {
                        assert(g[j] == mid[j - 1]);
                    } else {
                        assert(g[j] == last[j - 1 - mid.len()]);
                    }
                },
                None => {},
            }
        }
    }
    lemma_run_keeps_bounding(s, p);
}

proof fn lemma_valid_bits(b: u64, i: u64)
    requires
        b <= 0x1ff_ffff_ffffu64,
        41 <= i < 64,
    ensures
        (b >> i) & 1u64 == 0u64,
{
    assert((b >> i) & 1u64 == 0u64) by (bit_vector)
        requires
            b <= 0x1ff_ffff_ffffu64,
            41 <= i < 64,
    ;
}

} // verus!
