//! Shortening the paths of a flattened dispatch: folding states that only jump
//! on, and fusing straight-line chains of states into one arm.

use std::collections::{HashMap, HashSet};
use vstd::prelude::*;

use crate::codegen::flatten::{
    add_arm, add_line, arm_view, arms_view, lines_view, Arm, ArmLine, ArmV, LineV,
};
use crate::codegen::scan::{
    collect_pc_targets, edges_rewritten, lone_edge, lone_edge_target, mapped, pc_targets, redirect,
    rewrite_pc_targets,
};

use crate::text::{clamp, next_of};

verus! {

broadcast use {
    vstd::std_specs::hash::group_hash_axioms,
    vstd::map::group_map_axioms,
    vstd::set::group_set_axioms,
};

// ---------------------------------------------------------------------------
// Edges of a dispatch
// ---------------------------------------------------------------------------
/// The target of an arm body that is nothing but `pc = N;`.
pub open spec fn forward_target(body: Seq<LineV>) -> Option<usize> {
    if body.len() == 1 {
        lone_edge(body[0].1)
    } else {
        None
    }
}

/// The targets of all edges of an arm body, in order.
pub open spec fn body_targets(body: Seq<LineV>) -> Seq<usize>
    decreases body.len(),
{
    if body.len() == 0 {
        Seq::empty()
    } else {
        body_targets(body.drop_last()) + pc_targets(body.last().1)
    }
}

/// The targets of all edges of a dispatch, in order.
pub open spec fn all_targets(arms: Seq<ArmV>) -> Seq<usize>
    decreases arms.len(),
{
    if arms.len() == 0 {
        Seq::empty()
    } else {
        all_targets(arms.drop_last()) + body_targets(arms.last().1)
    }
}

/// Each pure forwarding state and the state it forwards to.
pub open spec fn forwards(arms: Seq<ArmV>) -> Map<usize, usize>
    decreases arms.len(),
{
    if arms.len() == 0 {
        Map::empty()
    } else {
        match forward_target(arms.last().1) {
            Some(t) => forwards(arms.drop_last()).insert(arms.last().0, t),
            None => forwards(arms.drop_last()),
        }
    }
}

/// The statements of each state.
pub open spec fn bodies(arms: Seq<ArmV>) -> Map<usize, Seq<LineV>>
    decreases arms.len(),
{
    if arms.len() == 0 {
        Map::empty()
    } else {
        bodies(arms.drop_last()).insert(arms.last().0, arms.last().1)
    }
}

/// If `body` is a single unconditional `pc = N;` (a pure forwarding state with
/// no side effect), return `N`. Such a state only re-enters the `match pc`
/// dispatch to jump again, so every edge to it can skip straight to `N`.
pub fn trivial_pc_target(body: &Vec<ArmLine>) -> (r: Option<usize>)
    ensures
        r == forward_target(lines_view(body@)),
{
    if body.len() == 1 {
        lone_edge_target(body[0].1.as_str())
    } else {
        None
    }
}

/// Appends the targets of all edges of `body` to `out`.
fn collect_body_targets(body: &Vec<ArmLine>, out: &mut Vec<usize>)
    ensures
        final(out)@ == old(out)@ + body_targets(lines_view(body@)),
{
    let ghost all = lines_view(body@);
    let mut i: usize = 0;
    assert(out@ + body_targets(all.take(0)) =~= out@);
    while i < body.len()
        invariant
            i <= body@.len(),
            all == lines_view(body@),
            out@ == old(out)@ + body_targets(all.take(i as int)),
        decreases body@.len() - i,
    {
        assert(all.take(i + 1).drop_last() =~= all.take(i as int));
        collect_pc_targets(body[i].1.as_str(), out);
        i += 1;
        assert(out@ =~= old(out)@ + body_targets(all.take(i as int)));
    }
    assert(all.take(all.len() as int) =~= all);
}

/// Every edge of a body is an edge of the dispatch it is in.
proof fn lemma_body_targets(arms: Seq<ArmV>, i: int, t: usize)
    requires
        0 <= i < arms.len(),
        body_targets(arms[i].1).contains(t),
    ensures
        all_targets(arms).contains(t),
    decreases arms.len(),
{
    let front = all_targets(arms.drop_last());
    let back = body_targets(arms.last().1);
    if i < arms.len() - 1 {
        lemma_body_targets(arms.drop_last(), i, t);
        let k = choose|k: int| 0 <= k < front.len() && front[k] == t;
        assert((front + back)[k] == t);
    } else {
        let k = choose|k: int| 0 <= k < back.len() && back[k] == t;
        assert((front + back)[front.len() + k] == t);
    }
}

/// A state with statements has an arm with them.
proof fn lemma_bodies(arms: Seq<ArmV>, s: usize)
    ensures
        bodies(arms).dom().finite(),
        bodies(arms).contains_key(s) ==> exists|i: int|
            0 <= i < arms.len() && (#[trigger] arms[i]) == (s, bodies(arms)[s]),
        (exists|i: int| 0 <= i < arms.len() && (#[trigger] arms[i]).0 == s)
            ==> bodies(arms).contains_key(s),
    decreases arms.len(),
{
    if arms.len() > 0 {
        let front = arms.drop_last();
        lemma_bodies(front, s);
        if s == arms.last().0 {
            assert(arms[arms.len() - 1] == (s, bodies(arms)[s]));
        } else {
            if bodies(arms).contains_key(s) {
                let i = choose|i: int|
                    0 <= i < front.len() && (#[trigger] front[i]) == (s, bodies(front)[s]);
                assert(arms[i] == (s, bodies(arms)[s]));
            }
            if exists|i: int| 0 <= i < arms.len() && (#[trigger] arms[i]).0 == s {
                let i = choose|i: int| 0 <= i < arms.len() && (#[trigger] arms[i]).0 == s;
                assert(front[i].0 == s);
            }
        }
    }
}

// ---------------------------------------------------------------------------
// Following forwarders
// ---------------------------------------------------------------------------
/// The state `k` jumps behind `s`.
pub open spec fn follow(fwd: Map<usize, usize>, s: usize, k: nat) -> usize
    decreases k,
{
    if k == 0 {
        s
    } else if fwd.contains_key(s) {
        follow(fwd, fwd[s], (k - 1) as nat)
    } else {
        s
    }
}

/// Whether `t` comes behind `s` along its jumps.
pub open spec fn leads_to(fwd: Map<usize, usize>, s: usize, t: usize) -> bool {
    exists|k: nat| #[trigger] follow(fwd, s, k) == t
}

/// Whether the jumps of `s` lead to no smaller state.
pub open spec fn least(fwd: Map<usize, usize>, s: usize) -> bool {
    forall|t: usize| #[trigger] leads_to(fwd, s, t) ==> s <= t
}

/// Whether `r` takes every forwarding state to a state its jumps lead to, the
/// same for all states of a chain: the state where the chain ends, or the least
/// member of the cycle it runs into.
pub open spec fn resolves(fwd: Map<usize, usize>, r: Map<usize, usize>) -> bool {
    &&& r.dom() == fwd.dom()
    &&& forall|s: usize| #[trigger]
        fwd.contains_key(s) ==> {
            &&& r[s] == mapped(r, fwd[s])
            &&& leads_to(fwd, s, r[s])
            &&& fwd.contains_key(r[s]) ==> least(fwd, r[s])
        }
}

/// `resolves` as far as `r` goes.
spec fn resolves_part(fwd: Map<usize, usize>, r: Map<usize, usize>) -> bool {
    &&& r.dom().subset_of(fwd.dom())
    &&& forall|s: usize| #[trigger]
        r.contains_key(s) ==> {
            &&& fwd.contains_key(fwd[s]) ==> r.contains_key(fwd[s])
            &&& r[s] == mapped(r, fwd[s])
            &&& leads_to(fwd, s, r[s])
            &&& fwd.contains_key(r[s]) ==> least(fwd, r[s])
        }
}

/// `path` is a run of jumps from its first state to `cur`.
spec fn is_path(fwd: Map<usize, usize>, path: Seq<usize>, cur: usize) -> bool {
    &&& path.no_duplicates()
    &&& forall|i: int| 0 <= i < path.len() ==> fwd.contains_key(#[trigger] path[i])
    &&& forall|i: int|
        0 <= i < path.len() ==> fwd[#[trigger] path[i]] == if i + 1 < path.len() {
            path[i + 1]
        } else {
            cur
        }
}

proof fn lemma_leads_step(fwd: Map<usize, usize>, s: usize, t: usize)
    requires
        fwd.contains_key(s),
        leads_to(fwd, fwd[s], t),
    ensures
        leads_to(fwd, s, t),
{
    let k = choose|k: nat| #[trigger] follow(fwd, fwd[s], k) == t;
    assert(follow(fwd, s, k + 1) == t);
}

proof fn lemma_leads_self(fwd: Map<usize, usize>, s: usize)
    ensures
        leads_to(fwd, s, s),
{
    assert(follow(fwd, s, 0) == s);
}

proof fn lemma_path_leads(
    fwd: Map<usize, usize>,
    path: Seq<usize>,
    cur: usize,
    dest: usize,
    i: int,
)
    requires
        is_path(fwd, path, cur),
        leads_to(fwd, cur, dest),
        0 <= i < path.len(),
    ensures
        leads_to(fwd, path[i], dest),
    decreases path.len() - i,
{
    if i + 1 < path.len() {
        lemma_path_leads(fwd, path, cur, dest, i + 1);
    }
    lemma_leads_step(fwd, path[i], dest);
}

/// One run of jumps behind another.
proof fn lemma_follow_sum(fwd: Map<usize, usize>, s: usize, a: nat, b: nat)
    ensures
        follow(fwd, s, a + b) == follow(fwd, follow(fwd, s, a), b),
    decreases a,
{
    if a > 0 {
        if fwd.contains_key(s) {
            lemma_follow_sum(fwd, fwd[s], (a - 1) as nat, b);
        } else if b > 0 {
            assert(follow(fwd, s, b) == s);
        }
    }
}

/// Where a chain is taken is the same for all its states.
proof fn lemma_resolved_along(fwd: Map<usize, usize>, r: Map<usize, usize>, s: usize, k: nat)
    requires
        resolves(fwd, r),
    ensures
        mapped(r, follow(fwd, s, k)) == mapped(r, s),
    decreases k,
{
    if k > 0 && fwd.contains_key(s) {
        lemma_resolved_along(fwd, r, fwd[s], (k - 1) as nat);
    }
}

/// A state comes back to itself after any multiple of a round.
proof fn lemma_rounds(fwd: Map<usize, usize>, u: usize, m: nat, q: nat)
    requires
        follow(fwd, u, m) == u,
    ensures
        follow(fwd, u, m * q) == u,
    decreases q,
{
    if q == 0 {
        assert(m * q == 0) by (nonlinear_arith)
            requires
                q == 0,
        ;
    } else {
        lemma_rounds(fwd, u, m, (q - 1) as nat);
        assert(m * q == m + m * (q - 1)) by (nonlinear_arith);
        lemma_follow_sum(fwd, u, m, m * (q - 1) as nat);
    }
}

/// A state that stands for a cycle is on it.
proof fn lemma_on_cycle(fwd: Map<usize, usize>, r: Map<usize, usize>, s: usize) -> (m: nat)
    requires
        resolves(fwd, r),
        fwd.contains_key(s),
        fwd.contains_key(r[s]),
    ensures
        m > 0,
        follow(fwd, r[s], m) == r[s],
{
    let u = r[s];
    let k = choose|k: nat| #[trigger] follow(fwd, s, k) == u;
    lemma_resolved_along(fwd, r, s, k);
    assert(r[u] == u);
    let next = fwd[u];
    assert(mapped(r, next) == u);
    if fwd.contains_key(next) {
        let j = choose|j: nat| #[trigger] follow(fwd, next, j) == u;
        assert(follow(fwd, u, j + 1) == u);
        j + 1
    } else {
        assert(next == u);
        1
    }
}

proof fn lemma_resolved_least(
    fwd: Map<usize, usize>,
    a: Map<usize, usize>,
    b: Map<usize, usize>,
    s: usize,
    i: nat,
    j: nat,
)
    requires
        resolves(fwd, a),
        resolves(fwd, b),
        fwd.contains_key(s),
        fwd.contains_key(a[s]),
        fwd.contains_key(b[s]),
        follow(fwd, s, i) == a[s],
        follow(fwd, s, j) == b[s],
        i <= j,
    ensures
        a[s] == b[s],
{
    let d = (j - i) as nat;
    lemma_follow_sum(fwd, s, i, d);
    assert(follow(fwd, a[s], d) == b[s]);
    assert(leads_to(fwd, a[s], b[s]));
    assert(least(fwd, a[s]));
    let m = lemma_on_cycle(fwd, a, s);
    lemma_rounds(fwd, a[s], m, d);
    assert(m * d >= d) by (nonlinear_arith)
        requires
            m > 0,
    ;
    let back = (m * d - d) as nat;
    lemma_follow_sum(fwd, a[s], d, back);
    assert(follow(fwd, b[s], back) == a[s]);
    assert(leads_to(fwd, b[s], a[s]));
    assert(least(fwd, b[s]));
}

/// Where forwarding states lead is fixed by the jumps alone.
pub proof fn law_resolving_is_unique(
    fwd: Map<usize, usize>,
    a: Map<usize, usize>,
    b: Map<usize, usize>,
)
    requires
        resolves(fwd, a),
        resolves(fwd, b),
    ensures
        a == b,
{
    assert forall|s: usize| fwd.contains_key(s) implies a[s] == b[s] by {
        let i = choose|i: nat| #[trigger] follow(fwd, s, i) == a[s];
        let j = choose|j: nat| #[trigger] follow(fwd, s, j) == b[s];
        if !fwd.contains_key(a[s]) {
            lemma_resolved_along(fwd, b, s, i);
        } else if !fwd.contains_key(b[s]) {
            lemma_resolved_along(fwd, a, s, j);
        } else if i <= j {
            lemma_resolved_least(fwd, a, b, s, i, j);
        } else {
            lemma_resolved_least(fwd, b, a, s, j, i);
        }
    }
    assert(a =~= b);
}

/// A list without repetition is no longer than a finite set that holds it.
proof fn lemma_distinct_len(path: Seq<usize>, dom: Set<usize>)
    requires
        path.no_duplicates(),
        forall|i: int| 0 <= i < path.len() ==> dom.contains(#[trigger] path[i]),
        dom.finite(),
    ensures
        path.len() <= dom.len(),
{
    path.unique_seq_to_set();
    assert(path.to_set().subset_of(dom));
    vstd::set_lib::lemma_len_subset(path.to_set(), dom);
}

fn note(m: &mut HashMap<usize, usize>, k: usize, v: usize)
    ensures
        final(m)@ == old(m)@.insert(k, v),
{
    m.insert(k, v);
}

fn contains(v: &Vec<usize>, x: usize) -> (r: bool)
    ensures
        r == v@.contains(x),
{
    let mut i: usize = 0;
    while i < v.len()
        invariant
            i <= v@.len(),
            forall|k: int| 0 <= k < i ==> v@[k] != x,
        decreases v@.len() - i,
    {
        if v[i] == x {
            return true;
        }
        i += 1;
    }
    false
}

fn forwarders(arms: &Vec<Arm>) -> (fwd: HashMap<usize, usize>)
    ensures
        fwd@ == forwards(arms_view(arms@)),
        fwd@.dom().finite(),
{
    let ghost all = arms_view(arms@);
    let mut fwd: HashMap<usize, usize> = HashMap::new();
    let mut i: usize = 0;
    while i < arms.len()
        invariant
            i <= arms@.len(),
            all == arms_view(arms@),
            fwd@ == forwards(all.take(i as int)),
            fwd@.dom().finite(),
        decreases arms@.len() - i,
    {
        assert(all.take(i + 1).drop_last() =~= all.take(i as int));
        match trivial_pc_target(&arms[i].1) {
            Some(t) => {
                fwd.insert(arms[i].0, t);
            },
            None => {},
        }
        i += 1;
    }
    assert(all.take(all.len() as int) =~= all);
    fwd
}

/// What comes behind a state of a path is `dest`, a later state of the path, after
/// as many jumps.
proof fn lemma_path_follows(fwd: Map<usize, usize>, path: Seq<usize>, cur: usize, i: int, j: int)
    requires
        is_path(fwd, path, cur),
        0 <= i <= j < path.len(),
    ensures
        leads_to(fwd, path[i], path[j]),
    decreases j - i,
{
    if i == j {
        lemma_leads_self(fwd, path[i]);
    } else {
        lemma_path_follows(fwd, path, cur, i + 1, j);
        assert(fwd[path[i]] == path[i + 1]);
        lemma_leads_step(fwd, path[i], path[j]);
    }
}

/// Jumps do not leave a cycle.
proof fn lemma_cycle_closed(
    fwd: Map<usize, usize>,
    path: Seq<usize>,
    from: int,
    i: int,
    k: nat,
) -> (j: int)
    requires
        0 <= from <= i < path.len(),
        is_path(fwd, path, path[from]),
    ensures
        from <= j < path.len(),
        follow(fwd, path[i], k) == path[j],
    decreases k,
{
    if k == 0 {
        i
    } else if i + 1 < path.len() {
        assert(fwd[path[i]] == path[i + 1]);
        lemma_cycle_closed(fwd, path, from, i + 1, (k - 1) as nat)
    } else {
        assert(fwd[path[i]] == path[from]);
        lemma_cycle_closed(fwd, path, from, from, (k - 1) as nat)
    }
}

proof fn lemma_cycle_least(fwd: Map<usize, usize>, path: Seq<usize>, from: int, at: int)
    requires
        0 <= from <= at < path.len(),
        is_path(fwd, path, path[from]),
        forall|k: int| from <= k < path.len() ==> path[at] <= #[trigger] path[k],
    ensures
        leads_to(fwd, path[from], path[at]),
        least(fwd, path[at]),
{
    lemma_path_follows(fwd, path, path[from], from, at);
    assert forall|t: usize| #[trigger] leads_to(fwd, path[at], t) implies path[at] <= t by {
        let k = choose|k: nat| #[trigger] follow(fwd, path[at], k) == t;
        let j = lemma_cycle_closed(fwd, path, from, at, k);
        assert(path[at] <= path[j]);
    }
}

fn index_of(v: &Vec<usize>, x: usize) -> (r: usize)
    requires
        v@.contains(x),
    ensures
        r < v@.len(),
        v@[r as int] == x,
{
    let n: usize = v.len();
    let mut i: usize = 0;
    while i < n && v[i] != x
        invariant
            i <= n,
            n == v@.len(),
            forall|k: int| 0 <= k < i ==> v@[k] != x,
        decreases n - i,
    {
        i += 1;
    }
    i
}

/// The least state of the cycle that a path closes by coming back to `cur`.
fn least_on_cycle(
    path: &Vec<usize>,
    cur: usize,
    Ghost(fwd): Ghost<Map<usize, usize>>,
) -> (r: usize)
    requires
        is_path(fwd, path@, cur),
        path@.contains(cur),
    ensures
        leads_to(fwd, cur, r),
        least(fwd, r),
{
    let from: usize = index_of(path, cur);
    let n: usize = path.len();
    let mut at: usize = from;
    let mut i: usize = from + 1;
    while i < n
        invariant
            from <= at < i <= n,
            n == path@.len(),
            forall|k: int| from <= k < i ==> path@[at as int] <= #[trigger] path@[k],
        decreases n - i,
    {
        if path[i] < path[at] {
            at = i;
        }
        i += 1;
    }
    proof {
        lemma_cycle_least(fwd, path@, from as int, at as int);
    }
    path[at]
}

/// Resolve the chain that starts at `s0` and note the outcome for every state on
/// it: the first non-forwarding state, or — for a forwarding cycle (a
/// side-effect-free infinite loop) — the least state of the cycle, kept alive so
/// the loop is preserved.
fn resolve_chain(
    fwd: &HashMap<usize, usize>,
    known: HashMap<usize, usize>,
    s0: usize,
) -> (resolved: HashMap<usize, usize>)
    requires
        fwd@.dom().finite(),
        fwd@.contains_key(s0),
        resolves_part(fwd@, known@),
    ensures
        resolves_part(fwd@, resolved@),
        resolved@.contains_key(s0),
        known@.dom().subset_of(resolved@.dom()),
{
    let mut resolved = known;
    if resolved.contains_key(&s0) {
        return resolved;
    }
    let mut path: Vec<usize> = Vec::new();
    let mut cur: usize = s0;
    let mut dest: usize = s0;
    loop
        invariant
            fwd@.dom().finite(),
            fwd@.contains_key(s0),
            resolved@ == known@,
            resolves_part(fwd@, resolved@),
            is_path(fwd@, path@, cur),
            path@.len() == 0 ==> cur == s0,
            path@.len() > 0 ==> path@[0] == s0,
            forall|i: int| 0 <= i < path@.len() ==> !resolved@.contains_key(#[trigger] path@[i]),
            !resolved@.contains_key(s0),
        ensures
            is_path(fwd@, path@, cur),
            path@.len() > 0,
            path@[0] == s0,
            leads_to(fwd@, cur, dest),
            resolved@ == known@,
            resolves_part(fwd@, resolved@),
            forall|i: int| 0 <= i < path@.len() ==> !resolved@.contains_key(#[trigger] path@[i]),
            fwd@.contains_key(dest) ==> least(fwd@, dest),
            (resolved@.contains_key(cur) && dest == resolved@[cur]) || (fwd@.contains_key(cur)
                && path@.contains(cur)) || (!fwd@.contains_key(cur) && dest == cur),
        decreases fwd@.dom().len() - path@.len(),
    {
        proof {
            lemma_leads_self(fwd@, cur);
            lemma_distinct_len(path@, fwd@.dom());
        }
        match resolved.get(&cur) {
            Some(d) => {
                dest = *d;
                break;
            },
            None => {},
        }
        match fwd.get(&cur) {
            Some(next) => {
                if contains(&path, cur) {
                    // A cycle closes at `cur` (keep its least state).
                    dest = least_on_cycle(&path, cur, Ghost(fwd@));
                    break;
                }
                let ghost longer = path@.push(cur);
                proof {
                    assert(is_path(fwd@, longer, fwd@[cur]));
                    lemma_distinct_len(longer, fwd@.dom());
                }
                path.push(cur);
                cur = *next;
            },
            None => {
                dest = cur;
                break;
            },
        }
    }
    let ghost before = resolved@;
    let mut i: usize = 0;
    while i < path.len()
        invariant
            i <= path@.len(),
            forall|k: int| 0 <= k < path@.len() ==> !before.contains_key(#[trigger] path@[k]),
            forall|s: usize| #[trigger]
                resolved@.contains_key(s) <==> before.contains_key(s) || path@.take(
                    i as int,
                ).contains(s),
            forall|s: usize| #[trigger] before.contains_key(s) ==> resolved@[s] == before[s],
            forall|k: int| 0 <= k < i ==> resolved@[#[trigger] path@[k]] == dest,
        decreases path@.len() - i,
    {
        let ghost prev = resolved@;
        note(&mut resolved, path[i], dest);
        proof {
            let now = path@.take(i + 1);
            assert(now.last() == path@[i as int]);
            assert(now.drop_last() =~= path@.take(i as int));
            assert forall|s: usize| #[trigger] resolved@.contains_key(s) implies before.contains_key(
                s,
            ) || now.contains(s) by {
                if s == path@[i as int] {
                    assert(now[i as int] == s);
                } else if !before.contains_key(s) {
                    assert(prev.contains_key(s));
                    let k = choose|k: int|
                        0 <= k < path@.take(i as int).len() && path@.take(i as int)[k] == s;
                    assert(now[k] == s);
                }
            }
            assert forall|s: usize| before.contains_key(s) || now.contains(s) implies
                #[trigger] resolved@.contains_key(s) by {
                if now.contains(s) && s != path@[i as int] {
                    let k = choose|k: int| 0 <= k < now.len() && now[k] == s;
                    assert(path@.take(i as int)[k] == s);
                    assert(prev.contains_key(s));
                }
            }
        }
        i += 1;
    }
    proof {
        let r = resolved@;
        assert(path@.take(path@.len() as int) =~= path@);
        assert(r.contains_key(path@[0]));
        assert forall|s: usize| #[trigger] r.contains_key(s) implies ({
            &&& fwd@.contains_key(fwd@[s]) ==> r.contains_key(fwd@[s])
            &&& r[s] == mapped(r, fwd@[s])
            &&& leads_to(fwd@, s, r[s])
            &&& fwd@.contains_key(r[s]) ==> least(fwd@, r[s])
        }) by {
            if before.contains_key(s) {
                assert(r[s] == before[s]);
                if fwd@.contains_key(fwd@[s]) {
                    assert(before.contains_key(fwd@[s]));
                } else {
                    assert(!before.contains_key(fwd@[s]));
                    assert(!r.contains_key(fwd@[s])) by {
                        if path@.contains(fwd@[s]) {
                            let k = choose|k: int| 0 <= k < path@.len() && path@[k] == fwd@[s];
                            assert(fwd@.contains_key(path@[k]));
                        }
                    }
                }
            } else {
                let k = choose|k: int| 0 <= k < path@.len() && path@[k] == s;
                assert(r[path@[k]] == dest);
                lemma_path_leads(fwd@, path@, cur, dest, k);
                if k + 1 < path@.len() {
                    assert(fwd@[s] == path@[k + 1]);
                    assert(path@.contains(path@[k + 1]));
                    assert(r[path@[k + 1]] == dest);
                } else {
                    assert(fwd@[s] == cur);
                    if path@.contains(cur) {
                        let j = choose|j: int| 0 <= j < path@.len() && path@[j] == cur;
                        assert(r[path@[j]] == dest);
                    }
                }
            }
        }
        assert forall|s: usize| r.contains_key(s) implies fwd@.contains_key(s) by {
            if !before.contains_key(s) {
                let k = choose|k: int| 0 <= k < path@.len() && path@[k] == s;
                assert(fwd@.contains_key(path@[k]));
            }
        }
    }
    resolved
}

/// An arm body with every edge taken through `r`.
pub open spec fn redirected_body(body: Seq<LineV>, r: Map<usize, usize>) -> Seq<LineV> {
    Seq::new(body.len(), |i: int| (body[i].0, edges_rewritten(body[i].1, r)))
}

/// A dispatch with every edge taken through `r`.
pub open spec fn redirected(arms: Seq<ArmV>, r: Map<usize, usize>) -> Seq<ArmV> {
    Seq::new(arms.len(), |i: int| (arms[i].0, redirected_body(arms[i].1, r)))
}

/// Whether an edge goes from state `s` to state `t`.
pub open spec fn has_edge(arms: Seq<ArmV>, s: usize, t: usize) -> bool {
    bodies(arms).contains_key(s) && body_targets(bodies(arms)[s]).contains(t)
}

/// Whether `walk` follows edges from its first state to its last.
pub open spec fn is_walk(arms: Seq<ArmV>, walk: Seq<usize>) -> bool {
    &&& walk.len() > 0
    &&& forall|i: int| 0 <= i < walk.len() - 1 ==> has_edge(arms, #[trigger] walk[i], walk[i + 1])
}

/// Whether `t` can be reached from `s`.
pub open spec fn reachable(arms: Seq<ArmV>, s: usize, t: usize) -> bool {
    exists|walk: Seq<usize>| #[trigger]
        is_walk(arms, walk) && walk[0] == s && walk.last() == t
}

/// The arms among `arms` whose states are reached from `start` in `whole`.
pub open spec fn kept(arms: Seq<ArmV>, whole: Seq<ArmV>, start: usize) -> Seq<ArmV>
    decreases arms.len(),
{
    if arms.len() == 0 {
        Seq::empty()
    } else if reachable(whole, start, arms.last().0) {
        kept(arms.drop_last(), whole, start).push(arms.last())
    } else {
        kept(arms.drop_last(), whole, start)
    }
}

/// The dispatch `after`, entered at `start_after`, is `before` with every edge to
/// a pure forwarding state redirected to where it leads, and without the arms
/// that are reached no more. A dispatch without forwarding states is left alone.
pub open spec fn contracted(
    before: Seq<ArmV>,
    start_before: usize,
    after: Seq<ArmV>,
    start_after: usize,
) -> bool {
    if forwards(before).dom() == Set::<usize>::empty() {
        after == before && start_after == start_before
    } else {
        exists|r: Map<usize, usize>| #[trigger]
            resolves(forwards(before), r) && start_after == mapped(r, start_before) && after
                == kept(redirected(before, r), redirected(before, r), start_after)
    }
}

/// A dispatch is contracted in one way.
pub proof fn law_contracting_is_unique(
    before: Seq<ArmV>,
    start: usize,
    a: Seq<ArmV>,
    entry_a: usize,
    b: Seq<ArmV>,
    entry_b: usize,
)
    requires
        contracted(before, start, a, entry_a),
        contracted(before, start, b, entry_b),
    ensures
        a == b,
        entry_a == entry_b,
{
    let fwd = forwards(before);
    if fwd.dom() != Set::<usize>::empty() {
        let r = choose|r: Map<usize, usize>| #[trigger]
            resolves(fwd, r) && entry_a == mapped(r, start) && a == kept(
                redirected(before, r),
                redirected(before, r),
                entry_a,
            );
        let q = choose|q: Map<usize, usize>| #[trigger]
            resolves(fwd, q) && entry_b == mapped(q, start) && b == kept(
                redirected(before, q),
                redirected(before, q),
                entry_b,
            );
        law_resolving_is_unique(fwd, r, q);
    }
}

pub proof fn lemma_reach_self(arms: Seq<ArmV>, s: usize)
    ensures
        reachable(arms, s, s),
{
    let walk = Seq::<usize>::empty().push(s);
    assert(is_walk(arms, walk));
}

pub proof fn lemma_reach_step(arms: Seq<ArmV>, s: usize, t: usize, u: usize)
    requires
        reachable(arms, s, t),
        has_edge(arms, t, u),
    ensures
        reachable(arms, s, u),
{
    let walk = choose|walk: Seq<usize>| #[trigger]
        is_walk(arms, walk) && walk[0] == s && walk.last() == t;
    let longer = walk.push(u);
    assert forall|i: int| 0 <= i < longer.len() - 1 implies has_edge(
        arms,
        #[trigger] longer[i],
        longer[i + 1],
    ) by {
        if i < walk.len() - 1 {
            assert(has_edge(arms, walk[i], walk[i + 1]));
        } else {
            assert(longer[i] == t);
        }
    }
    assert(is_walk(arms, longer));
    assert(longer[0] == s && longer.last() == u);
}

/// A set that holds `s` and is closed under edges holds all that `s` reaches.
proof fn lemma_closed_reach(arms: Seq<ArmV>, live: Set<usize>, s: usize, t: usize)
    requires
        live.contains(s),
        forall|a: usize, b: usize|
            live.contains(a) && #[trigger] has_edge(arms, a, b) ==> live.contains(b),
        reachable(arms, s, t),
    ensures
        live.contains(t),
{
    let walk = choose|walk: Seq<usize>| #[trigger]
        is_walk(arms, walk) && walk[0] == s && walk.last() == t;
    lemma_closed_walk(arms, live, walk, walk.len() - 1);
}

proof fn lemma_closed_walk(arms: Seq<ArmV>, live: Set<usize>, walk: Seq<usize>, k: int)
    requires
        is_walk(arms, walk),
        live.contains(walk[0]),
        forall|a: usize, b: usize|
            live.contains(a) && #[trigger] has_edge(arms, a, b) ==> live.contains(b),
        0 <= k < walk.len(),
    ensures
        live.contains(walk[k]),
    decreases k,
{
    if k > 0 {
        lemma_closed_walk(arms, live, walk, k - 1);
        assert(has_edge(arms, walk[k - 1], walk[k - 1 + 1]));
    }
}

fn redirect_arms(arms: &Vec<Arm>, r: &HashMap<usize, usize>) -> (out: Vec<Arm>)
    ensures
        arms_view(out@) == redirected(arms_view(arms@), r@),
{
    let mut out: Vec<Arm> = Vec::new();
    let ghost all = arms_view(arms@);
    let mut i: usize = 0;
    while i < arms.len()
        invariant
            i <= arms@.len(),
            all == arms_view(arms@),
            arms_view(out@) =~= redirected(all, r@).take(i as int),
        decreases arms@.len() - i,
    {
        let ghost body = lines_view(arms@[i as int].1@);
        let mut lines: Vec<ArmLine> = Vec::new();
        let mut k: usize = 0;
        while k < arms[i as usize].1.len()
            invariant
                i < arms@.len(),
                k <= arms@[i as int].1@.len(),
                body == lines_view(arms@[i as int].1@),
                lines_view(lines@) =~= redirected_body(body, r@).take(k as int),
            decreases arms@[i as int].1@.len() - k,
        {
            let line = rewrite_pc_targets(arms[i].1[k].1.as_str(), r);
            add_line(&mut lines, arms[i].1[k].0, line);
            k += 1;
        }
        assert(redirected_body(body, r@).take(k as int) =~= redirected_body(body, r@));
        add_arm(&mut out, arms[i].0, lines);
        assert(all[i as int] == arm_view(arms@[i as int]));
        i += 1;
    }
    assert(redirected(all, r@).take(all.len() as int) =~= redirected(all, r@));
    out
}

/// Where each state's statements are: the position of its last arm.
fn arm_index(arms: &Vec<Arm>) -> (index: HashMap<usize, usize>)
    ensures
        forall|s: usize| #[trigger]
            index@.contains_key(s) <==> bodies(arms_view(arms@)).contains_key(s),
        forall|s: usize| #[trigger]
            index@.contains_key(s) ==> index@[s] < arms@.len() && bodies(arms_view(arms@))[s]
                == lines_view(arms@[index@[s] as int].1@),
{
    let ghost all = arms_view(arms@);
    let mut index: HashMap<usize, usize> = HashMap::new();
    let mut i: usize = 0;
    while i < arms.len()
        invariant
            i <= arms@.len(),
            all == arms_view(arms@),
            forall|s: usize| #[trigger]
                index@.contains_key(s) <==> bodies(all.take(i as int)).contains_key(s),
            forall|s: usize| #[trigger]
                index@.contains_key(s) ==> index@[s] < i && bodies(all.take(i as int))[s]
                    == lines_view(arms@[index@[s] as int].1@),
        decreases arms@.len() - i,
    {
        let ghost prev = index@;
        proof {
            assert(all.take(i + 1).drop_last() =~= all.take(i as int));
            assert(all.take(i + 1).last() == arm_view(arms@[i as int]));
            assert(bodies(all.take(i + 1)) == bodies(all.take(i as int)).insert(
                all[i as int].0,
                all[i as int].1,
            ));
        }
        note(&mut index, arms[i].0, i);
        i += 1;
    }
    assert(all.take(all.len() as int) =~= all);
    index
}

/// The states that edges reach from `start`.
fn live_states(arms: &Vec<Arm>, start: usize) -> (live: HashSet<usize>)
    ensures
        forall|s: usize| #[trigger]
            live@.contains(s) <==> reachable(arms_view(arms@), start, s),
{
    let ghost all = arms_view(arms@);
    let index = arm_index(arms);
    let ghost universe = all_targets(all).to_set().insert(start);
    let mut live: HashSet<usize> = HashSet::new();
    let mut stack: Vec<usize> = Vec::new();
    stack.push(start);
    proof {
        lemma_reach_self(all, start);
        all_targets(all).lemma_cardinality_of_set();
        assert(universe.finite());
        assert(stack@[0] == start);
    }
    while stack.len() > 0
        invariant
            all == arms_view(arms@),
            universe == all_targets(all).to_set().insert(start),
            universe.finite(),
            live@.finite(),
            live@.subset_of(universe),
            forall|s: usize| #[trigger]
                index@.contains_key(s) <==> bodies(all).contains_key(s),
            forall|s: usize| #[trigger]
                index@.contains_key(s) ==> index@[s] < arms@.len() && bodies(all)[s] == lines_view(
                    arms@[index@[s] as int].1@,
                ),
            forall|k: int|
                0 <= k < stack@.len() ==> universe.contains(#[trigger] stack@[k]) && reachable(
                    all,
                    start,
                    stack@[k],
                ),
            forall|s: usize| #[trigger] live@.contains(s) ==> reachable(all, start, s),
            live@.contains(start) || stack@.contains(start),
            forall|a: usize, b: usize|
                live@.contains(a) && #[trigger] has_edge(all, a, b) ==> live@.contains(b)
                    || stack@.contains(b),
        decreases universe.len() - live@.len(), stack@.len(),
    {
        let ghost stack0 = stack@;
        let ghost live0 = live@;
        let state: usize = stack[stack.len() - 1];
        stack.pop();
        let fresh = live.insert(state);
        proof {
            assert(stack0.last() == state);
            assert forall|b: usize| stack0.contains(b) && b != state implies stack@.contains(b) by {
                let k = choose|k: int| 0 <= k < stack0.len() && stack0[k] == b;
                assert(stack@[k] == b);
            }
            assert(universe.contains(stack0[stack0.len() - 1]));
            assert(live@ =~= live0.insert(state));
            vstd::set_lib::lemma_len_subset(live@, universe);
            vstd::set_lib::lemma_len_subset(live0, universe);
        }
        if fresh {
            let ghost below = stack@;
            match index.get(&state) {
                Some(i) => {
                    let i: usize = *i;
                    collect_body_targets(&arms[i].1, &mut stack);
                    proof {
                        let more = body_targets(bodies(all)[state]);
                        assert(stack@ == below + more);
                        assert forall|k: int| 0 <= k < stack@.len() implies universe.contains(
                            #[trigger] stack@[k],
                        ) && reachable(all, start, stack@[k]) by {
                            if k < below.len() {
                                assert(stack@[k] == stack0[k]);
                            } else {
                                let t = stack@[k];
                                assert(more[k - below.len()] == t);
                                assert(has_edge(all, state, t));
                                lemma_reach_step(all, start, state, t);
                                assert(all[i as int] == arm_view(arms@[i as int]));
                                lemma_body_targets(all, i as int, t);
                            }
                        }
                        assert forall|b: usize| below.contains(b) implies stack@.contains(b) by {
                            let k = choose|k: int| 0 <= k < below.len() && below[k] == b;
                            assert(stack@[k] == b);
                        }
                        assert forall|b: usize| #[trigger] has_edge(all, state, b) implies
                            stack@.contains(b) by {
                            let k = choose|k: int| 0 <= k < more.len() && more[k] == b;
                            assert(stack@[below.len() + k] == b);
                        }
                    }
                },
                None => {},
            }
        }
    }
    proof {
        assert forall|s: usize| reachable(all, start, s) implies #[trigger] live@.contains(s) by {
            lemma_closed_reach(all, live@, start, s);
        }
    }
    live
}

/// An owned copy of statements.
pub fn copy_lines(lines: &Vec<ArmLine>) -> (out: Vec<ArmLine>)
    ensures
        lines_view(out@) == lines_view(lines@),
{
    let mut out: Vec<ArmLine> = Vec::new();
    let mut i: usize = 0;
    while i < lines.len()
        invariant
            i <= lines@.len(),
            lines_view(out@) =~= lines_view(lines@).take(i as int),
        decreases lines@.len() - i,
    {
        add_line(&mut out, lines[i].0, lines[i].1.clone());
        i += 1;
    }
    assert(lines_view(lines@).take(lines@.len() as int) =~= lines_view(lines@));
    out
}

/// Contract pure `pc = N;` forwarding states out of a flattened dispatch: every
/// edge targeting such a state is redirected to the state it forwards to
/// (following chains), and the states that become unreachable are dropped.
///
/// A deeply nested block/`if` spine lowers to long runs of these pure jumps —
/// descending and unwinding the nest costs one dispatch round-trip per level.
/// Folding them removes that share of the indirect-branch traffic through the
/// jump table. Returns the (possibly redirected) start state.
pub fn contract_pc_edges(arms: &mut Vec<Arm>, start: usize) -> (r: usize)
    ensures
        contracted(arms_view(old(arms)@), start, arms_view(final(arms)@), r),
{
    // Each pure forwarding state → its single constant successor.
    let fwd = forwarders(arms);
    let ghost all = arms_view(arms@);
    if fwd.len() == 0 {
        assert(fwd@.dom() =~= Set::<usize>::empty()) by {
            fwd@.dom().lemma_len0_is_empty();
        }
        return start;
    }
    // Resolve every state to the first non-forwarding state on its chain, or to the
    // least state of the cycle that it runs into.
    let mut resolved: HashMap<usize, usize> = HashMap::new();
    let mut i: usize = 0;
    while i < arms.len()
        invariant
            i <= arms@.len(),
            all == arms_view(arms@),
            fwd@ == forwards(all),
            fwd@.dom().finite(),
            resolves_part(fwd@, resolved@),
            forall|k: int|
                0 <= k < i && fwd@.contains_key((#[trigger] all[k]).0) ==> resolved@.contains_key(
                    all[k].0,
                ),
        decreases arms@.len() - i,
    {
        assert(all[i as int].0 == arms@[i as int].0);
        if fwd.contains_key(&arms[i].0) {
            resolved = resolve_chain(&fwd, resolved, arms[i].0);
        }
        i += 1;
    }
    proof {
        assert forall|s: usize| fwd@.contains_key(s) implies resolved@.contains_key(s) by {
            lemma_forwards(all, s);
        }
        assert(resolved@.dom() =~= fwd@.dom());
        assert(resolves(fwd@, resolved@));
        assert(fwd@.dom() != Set::<usize>::empty()) by {
            if fwd@.dom() == Set::<usize>::empty() {
                assert(fwd@.dom().len() == 0);
            }
        }
    }
    // Redirect all targets, in arm bodies and at the entry.
    let redone = redirect_arms(arms, &resolved);
    let start: usize = redirect(&resolved, start);
    // Drop states no edge reaches any more (the folded forwarders, plus any
    // states that were only reachable through them).
    let live = live_states(&redone, start);
    let ghost whole = arms_view(redone@);
    let mut out: Vec<Arm> = Vec::new();
    assert(arms_view(out@) =~= Seq::<ArmV>::empty());
    let mut i: usize = 0;
    while i < redone.len()
        invariant
            i <= redone@.len(),
            whole == arms_view(redone@),
            forall|s: usize| #[trigger] live@.contains(s) <==> reachable(whole, start, s),
            arms_view(out@) == kept(whole.take(i as int), whole, start),
        decreases redone@.len() - i,
    {
        proof {
            assert(whole.take(i + 1).drop_last() =~= whole.take(i as int));
            assert(whole.take(i + 1).last() == arm_view(redone@[i as int]));
        }
        if live.contains(&redone[i].0) {
            add_arm(&mut out, redone[i].0, copy_lines(&redone[i].1));
        }
        i += 1;
    }
    assert(whole.take(whole.len() as int) =~= whole);
    *arms = out;
    start
}

proof fn lemma_forwards(arms: Seq<ArmV>, s: usize)
    requires
        forwards(arms).contains_key(s),
    ensures
        exists|i: int| 0 <= i < arms.len() && (#[trigger] arms[i]).0 == s,
    decreases arms.len(),
{
    if arms.len() > 0 {
        let front = arms.drop_last();
        if arms.last().0 == s {
            assert(arms[arms.len() - 1].0 == s);
        } else {
            lemma_forwards(front, s);
            let i = choose|i: int| 0 <= i < front.len() && (#[trigger] front[i]).0 == s;
            assert(arms[i].0 == s);
        }
    }
}

// ---------------------------------------------------------------------------
// Fusing chains
// ---------------------------------------------------------------------------
/// The successor of a body that transfers to exactly one state, as its final
/// action.
pub open spec fn linear_target(body: Seq<LineV>) -> Option<usize> {
    if body_targets(body).len() == 1 && body.len() > 0 && pc_targets(body.last().1).len() == 1 {
        lone_edge(body.last().1)
    } else {
        None
    }
}

/// Each state that flows to a single successor, and that successor.
pub open spec fn linears(arms: Seq<ArmV>) -> Map<usize, usize>
    decreases arms.len(),
{
    if arms.len() == 0 {
        Map::empty()
    } else {
        match linear_target(arms.last().1) {
            Some(t) => linears(arms.drop_last()).insert(arms.last().0, t),
            None => linears(arms.drop_last()),
        }
    }
}

/// How often `t` occurs in `s`.
pub open spec fn occurrences(s: Seq<usize>, t: usize) -> nat
    decreases s.len(),
{
    if s.len() == 0 {
        0
    } else {
        occurrences(s.drop_last(), t) + if s.last() == t {
            1nat
        } else {
            0
        }
    }
}

/// The number of ways into a state: one per edge, and one for the entry.
pub open spec fn in_degree(arms: Seq<ArmV>, start: usize, t: usize) -> nat {
    occurrences(all_targets(arms), t) + if t == start {
        1nat
    } else {
        0
    }
}

/// Whether some state flows to `t` and to nothing else.
pub open spec fn follows_linearly(arms: Seq<ArmV>, t: usize) -> bool {
    exists|s: usize| #[trigger] linears(arms).contains_key(s) && linears(arms)[s] == t
}

/// A state is absorbable iff a linear state points to it, that is its only
/// in-edge, it is not the entry, and it is not its own successor.
pub open spec fn absorbable(arms: Seq<ArmV>, start: usize, t: usize) -> bool {
    &&& follows_linearly(arms, t)
    &&& t != start
    &&& in_degree(arms, start, t) == 1
    &&& !(linears(arms).contains_key(t) && linears(arms)[t] == t)
}

/// The state of the fusion: the bodies not yet placed, the states absorbed so
/// far, and the arms finished so far.
pub struct FuseV {
    pub rest: Map<usize, Seq<LineV>>,
    pub consumed: Set<usize>,
    pub out: Seq<ArmV>,
}

/// `body` without its last statement.
pub open spec fn without_last(body: Seq<LineV>) -> Seq<LineV> {
    if body.len() > 0 {
        body.drop_last()
    } else {
        body
    }
}

/// Whether the chain that has got to `cur` goes on.
pub open spec fn chain_goes_on(arms: Seq<ArmV>, start: usize, v: FuseV, cur: usize) -> bool {
    let lin = linears(arms);
    &&& lin.contains_key(cur)
    &&& absorbable(arms, start, lin[cur])
    &&& !v.consumed.contains(lin[cur])
    &&& v.rest.contains_key(lin[cur])
}

/// The chain from `cur` on, `body` being what was fused so far: each absorbed
/// state's statements replace the jump to it.
pub open spec fn fused_chain(
    arms: Seq<ArmV>,
    start: usize,
    v: FuseV,
    cur: usize,
    body: Seq<LineV>,
) -> (FuseV, Seq<LineV>)
    decreases v.rest.dom().len(),
{
    if chain_goes_on(arms, start, v, cur) && v.rest.dom().finite() {
        let t = linears(arms)[cur];
        fused_chain(
            arms,
            start,
            FuseV { rest: v.rest.remove(t), consumed: v.consumed.insert(t), out: v.out },
            t,
            without_last(body) + v.rest[t],
        )
    } else {
        (v, body)
    }
}

pub open spec fn fuse_state(arms: Seq<ArmV>, start: usize, v: FuseV, s: usize) -> FuseV {
    if absorbable(arms, start, s) || v.consumed.contains(s) || !v.rest.contains_key(s) {
        v
    } else {
        let (v2, body) = fused_chain(
            arms,
            start,
            FuseV { rest: v.rest.remove(s), ..v },
            s,
            v.rest[s],
        );
        FuseV { out: v2.out.push((s, body)), ..v2 }
    }
}

/// The states of the first arms fused, in order.
pub open spec fn fuse_states(arms: Seq<ArmV>, start: usize, done: Seq<ArmV>) -> FuseV
    decreases done.len(),
{
    if done.len() == 0 {
        FuseV { rest: bodies(arms), consumed: Set::empty(), out: Seq::empty() }
    } else {
        fuse_state(arms, start, fuse_states(arms, start, done.drop_last()), done.last().0)
    }
}

pub open spec fn has_absorbable(arms: Seq<ArmV>, start: usize) -> bool {
    exists|t: usize| absorbable(arms, start, t)
}

/// The dispatch with its straight-line chains fused.
pub open spec fn fused(arms: Seq<ArmV>, start: usize) -> Seq<ArmV> {
    if has_absorbable(arms, start) {
        fuse_states(arms, start, arms).out
    } else {
        arms
    }
}

/// If `body` transfers to exactly one successor, unconditionally, as its final
/// action — i.e. its whole body mentions a single `pc = T` and the last line is
/// the bare `pc = T;` — return `T`. Such a state can be fused into a chain: its
/// predecessor may run its statements inline and continue straight into `T`
/// instead of round-tripping through the `match pc` dispatch. A state that
/// branches (`if …/else …`, a `br_if` plus fall-through, a `br_table`) mentions
/// two or more targets and is excluded; a `pc = T; continue 'sm;` tail (a `br`
/// to an enclosing flattened region, emitted only inside a structured loop) does
/// not match the bare-line shape and is left alone.
pub fn linear_single_successor(body: &Vec<ArmLine>) -> (r: Option<usize>)
    ensures
        r == linear_target(lines_view(body@)),
{
    let mut targets: Vec<usize> = Vec::new();
    collect_body_targets(body, &mut targets);
    assert(targets@ =~= body_targets(lines_view(body@)));
    if targets.len() != 1 || body.len() == 0 {
        return None;
    }
    let last = body[body.len() - 1].1.as_str();
    // The one mention is that of the last line.
    let mut own: Vec<usize> = Vec::new();
    collect_pc_targets(last, &mut own);
    assert(own@ =~= pc_targets(last@));
    if own.len() != 1 {
        return None;
    }
    lone_edge_target(last)
}

fn linear_successors(arms: &Vec<Arm>) -> (lin: HashMap<usize, usize>)
    ensures
        lin@ == linears(arms_view(arms@)),
        lin@.dom().finite(),
{
    let ghost all = arms_view(arms@);
    let mut lin: HashMap<usize, usize> = HashMap::new();
    let mut i: usize = 0;
    while i < arms.len()
        invariant
            i <= arms@.len(),
            all == arms_view(arms@),
            lin@ == linears(all.take(i as int)),
            lin@.dom().finite(),
        decreases arms@.len() - i,
    {
        assert(all.take(i + 1).drop_last() =~= all.take(i as int));
        match linear_single_successor(&arms[i].1) {
            Some(t) => {
                lin.insert(arms[i].0, t);
            },
            None => {},
        }
        i += 1;
    }
    assert(all.take(all.len() as int) =~= all);
    lin
}

/// The number noted for a state; none noted is zero.
pub open spec fn noted(m: Map<usize, usize>, t: usize) -> usize {
    if m.contains_key(t) {
        m[t]
    } else {
        0
    }
}

/// The in-degrees of all states: one per `pc = N` edge, plus the implicit entry
/// into `start`.
fn in_degrees(arms: &Vec<Arm>, start: usize) -> (m: HashMap<usize, usize>)
    ensures
        forall|t: usize| #[trigger]
            noted(m@, t) == clamp(in_degree(arms_view(arms@), start, t)),
{
    let ghost all = arms_view(arms@);
    let mut targets: Vec<usize> = Vec::new();
    let mut i: usize = 0;
    while i < arms.len()
        invariant
            i <= arms@.len(),
            all == arms_view(arms@),
            targets@ == all_targets(all.take(i as int)),
        decreases arms@.len() - i,
    {
        assert(all.take(i + 1).drop_last() =~= all.take(i as int));
        assert(all[i as int].1 == lines_view(arms@[i as int].1@));
        collect_body_targets(&arms[i].1, &mut targets);
        i += 1;
    }
    assert(all.take(all.len() as int) =~= all);
    let mut m: HashMap<usize, usize> = HashMap::new();
    m.insert(start, 1);
    let ghost first = |t: usize|
        if t == start {
            1nat
        } else {
            0nat
        };
    let mut k: usize = 0;
    while k < targets.len()
        invariant
            k <= targets@.len(),
            forall|t: usize| #[trigger]
                noted(m@, t) == clamp(
                    occurrences(targets@.take(k as int), t) + if t == start {
                        1nat
                    } else {
                        0
                    },
                ),
        decreases targets@.len() - k,
    {
        let ghost prev = m@;
        let t: usize = targets[k];
        proof {
            assert(targets@.take(k + 1).drop_last() =~= targets@.take(k as int));
            assert(targets@.take(k + 1).last() == t);
        }
        let n: usize = match m.get(&t) {
            Some(n) => *n,
            None => 0,
        };
        assert(n == noted(prev, t));
        m.insert(t, next_of(n));
        proof {
            assert forall|u: usize| #[trigger]
                noted(m@, u) == clamp(
                    occurrences(targets@.take(k + 1), u) + if u == start {
                        1nat
                    } else {
                        0
                    },
                ) by {
                assert(noted(prev, u) == clamp(
                    occurrences(targets@.take(k as int), u) + if u == start {
                        1nat
                    } else {
                        0
                    },
                ));
            }
        }
        k += 1;
    }
    assert(targets@.take(targets@.len() as int) =~= targets@);
    m
}

/// The states that can be absorbed into their predecessor.
fn absorbable_states(arms: &Vec<Arm>, start: usize, lin: &HashMap<usize, usize>) -> (r: HashSet<
    usize,
>)
    requires
        lin@ == linears(arms_view(arms@)),
    ensures
        forall|t: usize| #[trigger]
            r@.contains(t) <==> absorbable(arms_view(arms@), start, t),
        r@.finite(),
{
    let ghost all = arms_view(arms@);
    let indeg = in_degrees(arms, start);
    let mut r: HashSet<usize> = HashSet::new();
    let mut i: usize = 0;
    while i < arms.len()
        invariant
            i <= arms@.len(),
            all == arms_view(arms@),
            lin@ == linears(all),
            r@.finite(),
            forall|t: usize| #[trigger] noted(indeg@, t) == clamp(in_degree(all, start, t)),
            forall|t: usize| #[trigger] r@.contains(t) ==> absorbable(all, start, t),
            forall|k: int|
                0 <= k < i && lin@.contains_key((#[trigger] all[k]).0) && absorbable(
                    all,
                    start,
                    lin@[all[k].0],
                ) ==> r@.contains(lin@[all[k].0]),
        decreases arms@.len() - i,
    {
        assert(all[i as int].0 == arms@[i as int].0);
        match lin.get(&arms[i].0) {
            Some(t) => {
                let t: usize = *t;
                assert(follows_linearly(all, t));
                let n: usize = match indeg.get(&t) {
                    Some(n) => *n,
                    None => 0,
                };
                assert(n == noted(indeg@, t));
                let own = match lin.get(&t) {
                    Some(u) => *u == t,
                    None => false,
                };
                if t != start && n == 1 && !own {
                    r.insert(t);
                }
            },
            None => {},
        }
        i += 1;
    }
    proof {
        assert forall|t: usize| absorbable(all, start, t) implies #[trigger] r@.contains(t) by {
            let s = choose|s: usize| #[trigger] lin@.contains_key(s) && lin@[s] == t;
            lemma_linears(all, s);
            let k = choose|k: int| 0 <= k < all.len() && (#[trigger] all[k]).0 == s;
            assert(lin@.contains_key(all[k].0));
        }
    }
    r
}

proof fn lemma_linears(arms: Seq<ArmV>, s: usize)
    requires
        linears(arms).contains_key(s),
    ensures
        exists|i: int| 0 <= i < arms.len() && (#[trigger] arms[i]).0 == s,
    decreases arms.len(),
{
    if arms.len() > 0 {
        let front = arms.drop_last();
        if arms.last().0 == s {
            assert(arms[arms.len() - 1].0 == s);
        } else {
            lemma_linears(front, s);
            let i = choose|i: int| 0 <= i < front.len() && (#[trigger] front[i]).0 == s;
            assert(arms[i].0 == s);
        }
    }
}

/// The model of the bodies not yet placed.
pub open spec fn held(m: Map<usize, Vec<ArmLine>>) -> Map<usize, Seq<LineV>> {
    m.map_values(|v: Vec<ArmLine>| lines_view(v@))
}

fn bodies_by_state(arms: &Vec<Arm>) -> (m: HashMap<usize, Vec<ArmLine>>)
    ensures
        held(m@) == bodies(arms_view(arms@)),
        m@.dom().finite(),
{
    let ghost all = arms_view(arms@);
    let mut m: HashMap<usize, Vec<ArmLine>> = HashMap::new();
    let mut i: usize = 0;
    assert(held(m@) =~= bodies(all.take(0)));
    while i < arms.len()
        invariant
            i <= arms@.len(),
            all == arms_view(arms@),
            held(m@) == bodies(all.take(i as int)),
            m@.dom().finite(),
        decreases arms@.len() - i,
    {
        let ghost prev = m@;
        proof {
            assert(all.take(i + 1).drop_last() =~= all.take(i as int));
            assert(all.take(i + 1).last() == arm_view(arms@[i as int]));
        }
        let body = copy_lines(&arms[i].1);
        m.insert(arms[i].0, body);
        assert(held(m@) =~= held(prev).insert(arms@[i as int].0, lines_view(body@)));
        i += 1;
    }
    assert(all.take(all.len() as int) =~= all);
    m
}

/// Takes the body of `s` out of `m`.
fn take_body(m: &mut HashMap<usize, Vec<ArmLine>>, s: usize) -> (r: Option<Vec<ArmLine>>)
    ensures
        match r {
            Some(body) => held(old(m)@).contains_key(s) && lines_view(body@) == held(old(m)@)[s]
                && held(final(m)@) == held(old(m)@).remove(s),
            None => !held(old(m)@).contains_key(s) && held(final(m)@) == held(old(m)@),
        },
        old(m)@.dom().finite() ==> final(m)@.dom().finite(),
{
    let r = m.remove(&s);
    proof {
        if old(m)@.contains_key(s) {
            assert(held(m@) =~= held(old(m)@).remove(s));
        } else {
            assert(m@ =~= old(m)@);
        }
    }
    r
}

/// Fuse single-successor chains in a flattened dispatch: when a state `S` ends in
/// an unconditional `pc = T;` and `T` is reached from nowhere else, inline `T`'s
/// body at the end of `S` and drop `T`. This removes the jump-table round-trip
/// between the two, shrinking the `match` (faster `rustc`) and cutting the
/// dispatch traffic left after [`contract_pc_edges`] folds the pure forwarders.
///
/// Never used for a continuation's step function, whose state ids must stay
/// stable for resume. Loops are preserved automatically: a header reached both
/// from outside and by its own back-edge has in-degree ≥ 2 and is never absorbed.
pub fn fuse_linear_chains(arms: &mut Vec<Arm>, start: usize)
    ensures
        arms_view(final(arms)@) == fused(arms_view(old(arms)@), start),
{
    let ghost all = arms_view(arms@);
    // Every state that flows to a single successor unconditionally, and where.
    let lin = linear_successors(arms);
    let absorb = absorbable_states(arms, start, &lin);
    if absorb.len() == 0 {
        proof {
            absorb@.lemma_len0_is_empty();
            assert forall|t: usize| !absorbable(all, start, t) by {
                assert(!absorb@.contains(t));
            }
        }
        return;
    }
    proof {
        assert(has_absorbable(all, start)) by {
            if forall|t: usize| !absorbable(all, start, t) {
                assert forall|t: usize| !absorb@.contains(t) by {}
                assert(absorb@ =~= Set::<usize>::empty());
            }
        }
    }
    let mut rest = bodies_by_state(arms);
    let mut consumed: HashSet<usize> = HashSet::new();
    let mut out: Vec<Arm> = Vec::new();
    assert(arms_view(out@) =~= Seq::<ArmV>::empty());
    assert(fuse_states(all, start, all.take(0)) == (FuseV {
        rest: held(rest@),
        consumed: consumed@,
        out: arms_view(out@),
    }));
    let mut i: usize = 0;
    while i < arms.len()
        invariant
            i <= arms@.len(),
            all == arms_view(arms@),
            lin@ == linears(all),
            forall|t: usize| #[trigger] absorb@.contains(t) <==> absorbable(all, start, t),
            rest@.dom().finite(),
            fuse_states(all, start, all.take(i as int)) == (FuseV {
                rest: held(rest@),
                consumed: consumed@,
                out: arms_view(out@),
            }),
        decreases arms@.len() - i,
    {
        let s: usize = arms[i].0;
        let ghost v = fuse_states(all, start, all.take(i as int));
        proof {
            assert(all.take(i + 1).drop_last() =~= all.take(i as int));
            assert(all.take(i + 1).last() == arm_view(arms@[i as int]));
        }
        i += 1;
        if absorb.contains(&s) || consumed.contains(&s) {
            continue;
        }
        match take_body(&mut rest, s) {
            None => {},
            Some(body) => {
                let mut body = body;
                let mut cur: usize = s;
                let mut going = true;
                let ghost v1 = FuseV { rest: v.rest.remove(s), ..v };
                let ghost want = fused_chain(all, start, v1, s, v.rest[s]);
                assert(v1.rest =~= held(rest@));
                while going
                    invariant
                        lin@ == linears(all),
                        forall|t: usize| #[trigger]
                            absorb@.contains(t) <==> absorbable(all, start, t),
                        rest@.dom().finite(),
                        going ==> fused_chain(
                            all,
                            start,
                            FuseV { rest: held(rest@), consumed: consumed@, out: arms_view(out@) },
                            cur,
                            lines_view(body@),
                        ) == want,
                        !going ==> want == (
                            FuseV { rest: held(rest@), consumed: consumed@, out: arms_view(out@) },
                            lines_view(body@),
                        ),
                    decreases (if going {
                        1int
                    } else {
                        0
                    }), rest@.dom().len(),
                {
                    let ghost rest0 = rest@;
                    let ghost body0 = lines_view(body@);
                    assert(held(rest0).dom() =~= rest0.dom());
                    going = false;
                    match lin.get(&cur) {
                        Some(t) => {
                            let t: usize = *t;
                            if absorb.contains(&t) && !consumed.contains(&t) {
                                match take_body(&mut rest, t) {
                                    Some(t_body) => {
                                        // Drop the `pc = t;` terminal now inlined below.
                                        let ghost tail = lines_view(t_body@);
                                        let mut t_body = t_body;
                                        body.pop();
                                        assert(lines_view(body@) =~= without_last(body0));
                                        let ghost front = lines_view(body@);
                                        body.append(&mut t_body);
                                        assert(lines_view(body@) =~= front + tail);
                                        consumed.insert(t);
                                        proof {
                                            assert(held(rest@).dom() =~= rest@.dom());
                                            assert(rest@.dom() =~= rest0.dom().remove(t));
                                        }
                                        cur = t;
                                        going = true;
                                    },
                                    None => {},
                                }
                            }
                        },
                        None => {},
                    }
                }
                add_arm(&mut out, s, body);
            },
        }
    }
    assert(all.take(all.len() as int) =~= all);
    *arms = out;
}

} // verus!
