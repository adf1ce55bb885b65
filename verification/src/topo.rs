//! The order declarations are written in: each after the declarations it
//! references, earlier source first, functions last.

use vstd::prelude::*;
use crate::config::name_set;
use crate::items::{CItem, item_name, item_order, item_refs};
use crate::text::str_eq;

verus! {

/// Whether the declaration at `i` depends on the one at `j`: it references
/// `j`'s name, and `j` is the last declaration of that name.
pub open spec fn depends(items: Seq<CItem>, i: int, j: int) -> bool {
    &&& 0 <= i < items.len()
    &&& 0 <= j < items.len()
    &&& i != j
    &&& item_refs(items[i]).contains(item_name(items[j]))
    &&& forall|k: int| j < k < items.len() ==> item_name(#[trigger] items[k]) != item_name(items[j])
}

/// Whether all that the declaration at `i` depends on is among `placed`.
pub open spec fn deps_within(items: Seq<CItem>, i: int, placed: Seq<usize>) -> bool {
    forall|j: int| #[trigger] depends(items, i, j) ==> placed.contains(j as usize)
}

/// Whether `p` lists each index below `n` exactly once.
pub open spec fn is_permutation(p: Seq<usize>, n: nat) -> bool {
    &&& p.len() == n
    &&& forall|a: int| 0 <= a < p.len() ==> p[a] < n
    &&& distinct(p)
}

/// Whether the declaration at `x` could first be placed after the first `s`
/// entries of `p`: all it depends on is among them, and not all among the
/// first `s - 1`. (At most one `s` does this; see [`lemma_ready_at_unique`].)
pub open spec fn ready_at(items: Seq<CItem>, p: Seq<usize>, x: int, s: int) -> bool {
    &&& 0 <= s <= p.len()
    &&& deps_within(items, x, p.subrange(0, s))
    &&& s > 0 ==> !deps_within(items, x, p.subrange(0, s - 1))
}

/// How two declarations of equal source position that could both be placed
/// are ordered, given the steps `sy` and `sx` at which they could first be
/// placed: the one that became placeable later goes first; of two placeable
/// from the start, the earlier in `items`; of two that became placeable at
/// the same later step, the later in `items`.
pub open spec fn goes_first(sy: int, y: int, sx: int, x: int) -> bool {
    sy > sx || (sy == sx && if sy == 0 { y < x } else { y > x })
}

/// Whether, by [`goes_first`], the declaration at `y` goes before the one at
/// `x` in `p`.
pub open spec fn tie_broken(items: Seq<CItem>, p: Seq<usize>, y: int, x: int) -> bool {
    exists|sy: int, sx: int| #[trigger] ready_at(items, p, y, sy) && #[trigger] ready_at(items, p, x, sx) && goes_first(sy, y, sx, x)
}

/// A declaration becomes placeable at one step at most.
pub proof fn lemma_ready_at_unique(items: Seq<CItem>, p: Seq<usize>, x: int, s1: int, s2: int)
    requires
        ready_at(items, p, x, s1),
        ready_at(items, p, x, s2),
    ensures
        s1 == s2,
{
    if s1 < s2 {
        lemma_deps_within_prefix(items, x, p, s1, s2 - 1);
    } else if s2 < s1 {
        lemma_deps_within_prefix(items, x, p, s2, s1 - 1);
    }
}

/// What the first `a` entries hold, the first `b` hold too, for `a <= b`.
proof fn lemma_deps_within_prefix(items: Seq<CItem>, x: int, p: Seq<usize>, a: int, b: int)
    requires
        0 <= a <= b <= p.len(),
        deps_within(items, x, p.subrange(0, a)),
    ensures
        deps_within(items, x, p.subrange(0, b)),
{
    assert forall|j: int| #[trigger] depends(items, x, j) implies p.subrange(0, b).contains(j as usize) by {
        let k = choose|k: int| 0 <= k < a && p.subrange(0, a)[k] == j as usize;
        assert(p.subrange(0, b)[k] == j as usize);
    }
}

/// Becoming placeable at a step is kept when more entries follow.
proof fn lemma_ready_at_extend(items: Seq<CItem>, p: Seq<usize>, q: Seq<usize>, x: int, s: int)
    requires
        ready_at(items, p, x, s),
        p.len() <= q.len(),
        q.subrange(0, p.len() as int) == p,
    ensures
        ready_at(items, q, x, s),
{
    assert(q.subrange(0, s) =~= p.subrange(0, s));
    if s > 0 {
        assert(q.subrange(0, s - 1) =~= p.subrange(0, s - 1));
    }
}

/// Whether `p` is the order in which the declarations `items` are written:
/// the first `kc` are each placed once all they depend on is placed, and
/// each is, of those that could be placed there, one with the earliest
/// source position, ties broken by [`goes_first`]; no other declaration can
/// be placed after them, and the rest, caught in reference cycles, follow by
/// source position, then by their place in `items`.
pub open spec fn reference_order(items: Seq<CItem>, p: Seq<usize>, kc: int) -> bool {
    &&& is_permutation(p, items.len())
    &&& 0 <= kc <= p.len()
    &&& forall|t: int| 0 <= t < kc ==> deps_within(items, #[trigger] p[t] as int, p.subrange(0, t))
    &&& forall|t: int, x: int|
        0 <= t < kc && 0 <= x < items.len() && !p.subrange(0, t).contains(x as usize) && deps_within(
            items,
            x,
            p.subrange(0, t),
        ) ==> item_order(items[#[trigger] p[t] as int]) <= item_order(#[trigger] items[x])
    &&& forall|x: int|
        0 <= x < items.len() && !p.subrange(0, kc).contains(x as usize) ==> !#[trigger] deps_within(
            items,
            x,
            p.subrange(0, kc),
        )
    &&& forall|t: int, x: int|
        0 <= t < kc && 0 <= x < items.len() && x != p[t] && !p.subrange(0, t).contains(x as usize) && deps_within(
            items,
            x,
            p.subrange(0, t),
        ) && item_order(items[#[trigger] p[t] as int]) == item_order(#[trigger] items[x]) ==> tie_broken(
            items,
            p,
            p[t] as int,
            x,
        )
    &&& forall|a: int, b: int|
        kc <= a < b < p.len() ==> item_order(items[#[trigger] p[a] as int]) < item_order(
            items[#[trigger] p[b] as int],
        ) || (item_order(items[p[a] as int]) == item_order(items[p[b] as int]) && p[a] < p[b])
}

/// A permutation of the indices below `n` holds each of them.
proof fn lemma_permutation_covers(p: Seq<usize>, n: nat, v: usize)
    requires
        is_permutation(p, n),
        v < n,
    ensures
        p.contains(v),
{
    lemma_permutation_covers_at(p, n, v as int);
    let j = choose|j: int| 0 <= j < p.len() && p[j] as int == v as int;
    assert(p[j] == v);
}

/// A permutation of the indices below `n` holds each of them, at some place.
proof fn lemma_permutation_covers_at(p: Seq<usize>, n: nat, v: int)
    requires
        is_permutation(p, n),
        0 <= v < n,
    ensures
        exists|j: int| 0 <= j < p.len() && p[j] as int == v,
{
    broadcast use vstd::set::group_set_axioms;
    assert(p.no_duplicates());
    p.unique_seq_to_set();
    vstd::seq_lib::seq_to_set_is_finite(p);
    let s = p.to_set();
    let f = |u: usize| u as int;
    let t = s.map(f);
    vstd::set_lib::lemma_map_size(s, t, f);
    vstd::set_lib::lemma_int_range(0, n as int);
    assert forall|i: int| #[trigger] t.contains(i) implies vstd::set_lib::set_int_range(0, n as int).contains(i) by {
        let u = choose|u: usize| s.contains(u) && f(u) == i;
        let k = choose|k: int| 0 <= k < p.len() && p[k] == u;
    }
    vstd::set_lib::lemma_subset_equality(t, vstd::set_lib::set_int_range(0, n as int));
    assert(vstd::set_lib::set_int_range(0, n as int).contains(v));
    assert(t.contains(v));
    let u = choose|u: usize| s.contains(u) && f(u) == v;
    let k = choose|k: int| 0 <= k < p.len() && p[k] == u;
    assert(p[k] as int == v);
}

/// Of two declarations placeable after the same first `t` entries of two
/// orders, one that goes first in the first order does not go second in
/// the other.
proof fn lemma_tie_impossible(items: Seq<CItem>, p: Seq<usize>, q: Seq<usize>, t: int, y: int, x: int)
    requires
        0 <= t <= p.len(),
        t <= q.len(),
        p.subrange(0, t) == q.subrange(0, t),
        deps_within(items, y, p.subrange(0, t)),
        deps_within(items, x, p.subrange(0, t)),
        tie_broken(items, p, y, x),
    ensures
        !tie_broken(items, q, x, y),
{
    if tie_broken(items, q, x, y) {
        let (sy, sx) = choose|sy: int, sx: int| #[trigger] ready_at(items, p, y, sy) && #[trigger] ready_at(items, p, x, sx)
            && goes_first(sy, y, sx, x);
        let (tx, ty) = choose|tx: int, ty: int| #[trigger] ready_at(items, q, x, tx) && #[trigger] ready_at(items, q, y, ty)
            && goes_first(tx, x, ty, y);
        assert(q.subrange(0, t) == p.subrange(0, t));
        lemma_ready_step_within(items, p, y, sy, t);
        lemma_ready_step_within(items, p, x, sx, t);
        lemma_ready_step_within(items, q, x, tx, t);
        lemma_ready_step_within(items, q, y, ty, t);
        assert(p.subrange(0, sy) =~= q.subrange(0, sy)) by {
            assert(p.subrange(0, sy) =~= p.subrange(0, t).subrange(0, sy));
            assert(q.subrange(0, sy) =~= q.subrange(0, t).subrange(0, sy));
        }
        assert(p.subrange(0, sx) =~= q.subrange(0, sx)) by {
            assert(p.subrange(0, sx) =~= p.subrange(0, t).subrange(0, sx));
            assert(q.subrange(0, sx) =~= q.subrange(0, t).subrange(0, sx));
        }
        if sy > 0 {
            assert(p.subrange(0, sy - 1) =~= q.subrange(0, sy - 1)) by {
                assert(p.subrange(0, sy - 1) =~= p.subrange(0, t).subrange(0, sy - 1));
                assert(q.subrange(0, sy - 1) =~= q.subrange(0, t).subrange(0, sy - 1));
            }
        }
        if sx > 0 {
            assert(p.subrange(0, sx - 1) =~= q.subrange(0, sx - 1)) by {
                assert(p.subrange(0, sx - 1) =~= p.subrange(0, t).subrange(0, sx - 1));
                assert(q.subrange(0, sx - 1) =~= q.subrange(0, t).subrange(0, sx - 1));
            }
        }
        assert(ready_at(items, q, y, sy));
        assert(ready_at(items, q, x, sx));
        lemma_ready_at_unique(items, q, y, sy, ty);
        lemma_ready_at_unique(items, q, x, sx, tx);
    }
}

/// Where two orders meeting [`reference_order`] agree on their first `t`
/// entries, `t` within the first's placed part, they agree on one more, and
/// the second's placed part reaches as far.
#[verifier::rlimit(50)]
proof fn lemma_placed_agree(items: Seq<CItem>, p: Seq<usize>, kp: int, q: Seq<usize>, kq: int, t: int)
    requires
        reference_order(items, p, kp),
        reference_order(items, q, kq),
        0 <= t <= kp,
    ensures
        t <= kq,
        p.subrange(0, t) == q.subrange(0, t),
    decreases t,
{
    if t > 0 {
        lemma_placed_agree(items, p, kp, q, kq, t - 1);
        let pre = p.subrange(0, t - 1);
        let y = p[t - 1] as int;
        assert(deps_within(items, y, pre));
        assert(!pre.contains(y as usize)) by {
            if pre.contains(y as usize) {
                let k = choose|k: int| 0 <= k < pre.len() && pre[k] == y as usize;
                assert(p[k] == p[t - 1]);
            }
        }
        if t - 1 == kq {
            assert(q.subrange(0, kq) == pre);
            assert(!deps_within(items, y, q.subrange(0, kq)));
        }
        let x = q[t - 1] as int;
        assert(q.subrange(0, t - 1) == pre);
        assert(deps_within(items, x, pre));
        assert(!pre.contains(x as usize)) by {
            if pre.contains(x as usize) {
                let k = choose|k: int| 0 <= k < pre.len() && pre[k] == x as usize;
                assert(q[k] == q[t - 1]);
            }
        }
        assert(item_order(items[p[t - 1] as int]) <= item_order(items[x]));
        assert(item_order(items[q[t - 1] as int]) <= item_order(items[y]));
        if x != y {
            assert(tie_broken(items, p, y, x));
            assert(tie_broken(items, q, x, y));
            lemma_tie_impossible(items, p, q, t - 1, y, x);
        }
        assert(p.subrange(0, t) =~= q.subrange(0, t)) by {
            assert(p.subrange(0, t) =~= pre.push(p[t - 1]));
            assert(q.subrange(0, t) =~= q.subrange(0, t - 1).push(q[t - 1]));
        }
    }
}

/// A declaration placeable after the first `t` entries became placeable at
/// a step no later than `t`.
proof fn lemma_ready_step_within(items: Seq<CItem>, p: Seq<usize>, x: int, s: int, t: int)
    requires
        ready_at(items, p, x, s),
        0 <= t <= p.len(),
        deps_within(items, x, p.subrange(0, t)),
    ensures
        s <= t,
{
    if s > t {
        lemma_deps_within_prefix(items, x, p, t, s - 1);
    }
}

/// Where two orders meeting [`reference_order`] with the same placed part
/// agree on their first `j` entries, they agree on one more.
proof fn lemma_rest_agree(items: Seq<CItem>, p: Seq<usize>, q: Seq<usize>, kc: int, j: int)
    requires
        reference_order(items, p, kc),
        reference_order(items, q, kc),
        kc <= j < p.len(),
        p.subrange(0, j) == q.subrange(0, j),
    ensures
        p[j] == q[j],
{
    let n = items.len();
    let y = p[j];
    let x = q[j];
    lemma_permutation_covers(p, n, x);
    lemma_permutation_covers(q, n, y);
    let k = choose|k: int| 0 <= k < p.len() && p[k] == x;
    let l = choose|l: int| 0 <= l < q.len() && q[l] == y;
    if k < j {
        assert(q.subrange(0, j)[k] == x);
        assert(q[k] == q[j]);
    }
    if l < j {
        assert(p.subrange(0, j)[l] == y);
        assert(p[l] == p[j]);
    }
    if k > j && l > j {
        assert(item_order(items[p[j] as int]) < item_order(items[p[k] as int]) || (item_order(items[p[j] as int])
            == item_order(items[p[k] as int]) && p[j] < p[k]));
        assert(item_order(items[q[j] as int]) < item_order(items[q[l] as int]) || (item_order(items[q[j] as int])
            == item_order(items[q[l] as int]) && q[j] < q[l]));
    }
}

/// The order is determined: two orders that both meet [`reference_order`]
/// for the same declarations are the same, with the same placed part.
pub proof fn lemma_reference_order_unique(items: Seq<CItem>, p: Seq<usize>, kp: int, q: Seq<usize>, kq: int)
    requires
        reference_order(items, p, kp),
        reference_order(items, q, kq),
    ensures
        p == q,
        kp == kq,
{
    lemma_placed_agree(items, p, kp, q, kq, kp);
    lemma_placed_agree(items, q, kq, p, kp, kq);
    lemma_rest_all(items, p, q, kp, kp);
}

/// Orders that meet [`reference_order`] with the same placed part and agree
/// on their first `j` entries agree everywhere.
proof fn lemma_rest_all(items: Seq<CItem>, p: Seq<usize>, q: Seq<usize>, kc: int, j: int)
    requires
        reference_order(items, p, kc),
        reference_order(items, q, kc),
        kc <= j <= p.len(),
        p.subrange(0, j) == q.subrange(0, j),
    ensures
        p == q,
    decreases p.len() - j,
{
    if j < p.len() {
        lemma_rest_agree(items, p, q, kc, j);
        assert(p.subrange(0, j + 1) =~= p.subrange(0, j).push(p[j]));
        assert(q.subrange(0, j + 1) =~= q.subrange(0, j).push(q[j]));
        lemma_rest_all(items, p, q, kc, j + 1);
    } else {
        assert(p =~= p.subrange(0, j));
        assert(q =~= q.subrange(0, j));
    }
}

/// Whether no index occurs twice in `s`.
pub open spec fn distinct(s: Seq<usize>) -> bool {
    forall|a: int, b: int| 0 <= a < b < s.len() ==> s[a] != s[b]
}

/// `items` taken in the order `p`.
pub open spec fn permuted(items: Seq<CItem>, p: Seq<usize>) -> Seq<CItem> {
    Seq::new(p.len(), |t: int| items[p[t] as int])
}

fn dependency_matrix(items: &Vec<CItem>) -> (m: Vec<Vec<bool>>)
    ensures
        m@.len() == items@.len(),
        forall|i: int| 0 <= i < items@.len() ==> (#[trigger] m@[i])@.len() == items@.len(),
        forall|i: int, j: int|
            0 <= i < items@.len() && 0 <= j < items@.len() ==> m@[i]@[j] == depends(items@, i, j),
{
    let n = items.len();
    let mut m: Vec<Vec<bool>> = Vec::new();
    let mut i: usize = 0;
    while i < n
        invariant
            n == items@.len(),
            i <= n,
            m@.len() == i,
            forall|a: int| 0 <= a < i ==> (#[trigger] m@[a])@.len() == n,
            forall|a: int, j: int| 0 <= a < i && 0 <= j < n ==> m@[a]@[j] == depends(items@, a, j),
        decreases n - i,
    {
        let mut refs: Vec<String> = Vec::new();
        items[i].collect_referenced_type_names(&mut refs);
        assert(name_set(refs@) =~= item_refs(items@[i as int]));
        let mut row: Vec<bool> = Vec::new();
        let mut j: usize = 0;
        while j < n
            invariant
                n == items@.len(),
                i < n,
                j <= n,
                row@.len() == j,
                name_set(refs@) == item_refs(items@[i as int]),
                forall|b: int| 0 <= b < j ==> row@[b] == depends(items@, i as int, b),
            decreases n - j,
        {
            let mut last = true;
            let mut k = j + 1;
            while k < n
                invariant
                    n == items@.len(),
                    j < n,
                    j + 1 <= k <= n,
                    last == forall|x: int| j < x < k ==> item_name(#[trigger] items@[x]) != item_name(items@[j as int]),
                decreases n - k,
            {
                if str_eq(items[k].name(), items[j].name()) {
                    last = false;
                }
                k = k + 1;
            }
            let d = i != j && crate::config::contains_name(&refs, items[j].name()) && last;
            row.push(d);
            j = j + 1;
        }
        m.push(row);
        i = i + 1;
    }
    m
}

/// Whether every dependency of `i` is placed.
fn all_deps_placed(m: &Vec<Vec<bool>>, placed: &Vec<bool>, i: usize) -> (r: bool)
    requires
        i < m@.len(),
        m@[i as int]@.len() == placed@.len(),
    ensures
        r == forall|j: int| 0 <= j < placed@.len() && m@[i as int]@[j] ==> placed@[j],
{
    let row = &m[i];
    let mut j: usize = 0;
    while j < placed.len()
        invariant
            j <= placed@.len(),
            row@ == m@[i as int]@,
            row@.len() == placed@.len(),
            forall|x: int| 0 <= x < j && row@[x] ==> placed@[x],
        decreases placed.len() - j,
    {
        if row[j] && !placed[j] {
            return false;
        }
        j = j + 1;
    }
    true
}

/// Inserts `x` into `ready`, after the entries of smaller source position
/// (and of equal position, when `after_equal`) and before the rest.
fn insert_by_order(ready: &mut Vec<usize>, x: usize, orders: &Vec<usize>, after_equal: bool) -> (pos: usize)
    requires
        x < orders@.len(),
        forall|a: int| 0 <= a < old(ready)@.len() ==> (#[trigger] old(ready)@[a]) < orders@.len(),
        forall|a: int, b: int|
            0 <= a < b < old(ready)@.len() ==> orders@[#[trigger] old(ready)@[a] as int] <= orders@[#[trigger] old(ready)@[b] as int],
    ensures
        forall|a: int| 0 <= a < final(ready)@.len() ==> (#[trigger] final(ready)@[a]) < orders@.len(),
        forall|a: int, b: int|
            0 <= a < b < final(ready)@.len() ==> orders@[#[trigger] final(ready)@[a] as int] <= orders@[#[trigger] final(ready)@[b] as int],
        final(ready)@.len() == old(ready)@.len() + 1,
        distinct(old(ready)@) && !old(ready)@.contains(x) ==> distinct(final(ready)@),
        forall|y: usize| #[trigger] final(ready)@.contains(y) <==> old(ready)@.contains(y) || y == x,
        forall|a: int| 0 <= a < final(ready)@.len() ==> #[trigger] final(ready)@[a] == x || old(ready)@.contains(final(ready)@[a]),
        pos <= old(ready)@.len(),
        final(ready)@ == old(ready)@.insert(pos as int, x),
        forall|a: int| 0 <= a < pos ==> orders@[#[trigger] old(ready)@[a] as int] < orders@[x as int] || (after_equal
            && orders@[old(ready)@[a] as int] == orders@[x as int]),
        forall|a: int| pos <= a < old(ready)@.len() ==> orders@[#[trigger] old(ready)@[a] as int] > orders@[x as int] || (
            !after_equal && orders@[old(ready)@[a] as int] == orders@[x as int]),
{
    let ox = orders[x];
    let mut pos: usize = 0;
    while pos < ready.len() && (orders[ready[pos]] < ox || (after_equal && orders[ready[pos]] == ox))
        invariant
            pos <= ready@.len(),
            forall|a: int| 0 <= a < ready@.len() ==> (#[trigger] ready@[a]) < orders@.len(),
            forall|a: int| 0 <= a < pos ==> orders@[#[trigger] ready@[a] as int] < ox || (after_equal
                && orders@[ready@[a] as int] == ox),
        decreases ready.len() - pos,
    {
        pos = pos + 1;
    }
    let ghost before = ready@;
    proof {
        assert forall|a: int| pos <= a < before.len() implies orders@[#[trigger] before[a] as int] > ox || (!after_equal
            && orders@[before[a] as int] == ox) by {
            if pos < a {
                assert(orders@[before[pos as int] as int] <= orders@[before[a] as int]);
            }
        }
    }
    ready.insert(pos, x);
    proof {
        assert forall|a: int, b: int|
            0 <= a < b < ready@.len() implies orders@[#[trigger] ready@[a] as int] <= orders@[#[trigger] ready@[b] as int] by {
            if a < pos && b == pos {
            } else if a == pos && b > pos {
                if pos < before.len() {
                    assert(orders@[before[pos as int] as int] >= ox);
                    assert(orders@[before[pos as int] as int] <= orders@[before[b - 1] as int]) by {
                        if pos < b - 1 {
                        }
                    }
                }
            } else if a < pos && b > pos {
                assert(ready@[a] == before[a]);
                assert(ready@[b] == before[b - 1]);
            } else if a > pos {
                assert(ready@[a] == before[a - 1]);
                assert(ready@[b] == before[b - 1]);
            }
        }
        if distinct(before) && !before.contains(x) {
            assert forall|c: int, d: int| 0 <= c < d < ready@.len() implies ready@[c] != ready@[d] by {
                if c < pos && d > pos {
                    assert(ready@[d] == before[d - 1]);
                } else if c > pos {
                    assert(ready@[c] == before[c - 1]);
                    assert(ready@[d] == before[d - 1]);
                } else if c == pos {
                    assert(ready@[d] == before[d - 1]);
                } else if d == pos {
                    assert(ready@[c] == before[c]);
                }
            }
        }
        assert forall|a: int| 0 <= a < ready@.len() implies #[trigger] ready@[a] == x || before.contains(ready@[a]) by {
            if a < pos {
                assert(before[a] == ready@[a]);
            } else if a > pos {
                assert(before[a - 1] == ready@[a]);
            }
        }
        assert forall|y: usize| #[trigger] ready@.contains(y) <==> before.contains(y) || y == x by {
            if ready@.contains(y) {
                let a = choose|a: int| 0 <= a < ready@.len() && ready@[a] == y;
                if a < pos {
                    assert(before[a] == y);
                } else if a > pos {
                    assert(before[a - 1] == y);
                }
            }
            if before.contains(y) {
                let a = choose|a: int| 0 <= a < before.len() && before[a] == y;
                if a < pos {
                    assert(ready@[a] == y);
                } else {
                    assert(ready@[a + 1] == y);
                }
            }
            if y == x {
                assert(ready@[pos as int] == x);
            }
        }
    }
    pos
}

/// Whether the declaration at `x` can be placed after `placed`: it is not
/// placed yet, and all it depends on is.
pub open spec fn ready_after(items: Seq<CItem>, placed: Seq<usize>, x: int) -> bool {
    0 <= x < items.len() && !placed.contains(x as usize) && deps_within(items, x, placed)
}

proof fn lemma_count_all_unset(v: Seq<bool>)
    requires
        forall|j: int| 0 <= j < v.len() ==> !v[j],
    ensures
        crate::selection::count_unset(v) == v.len(),
    decreases v.len(),
{
    if v.len() > 0 {
        lemma_count_all_unset(v.drop_last());
    }
}

/// A relation that holds between the entries of a sequence, in order, and
/// between `x` and each entry on either side of where it goes, holds
/// between the entries once `x` is inserted there.
proof fn lemma_insert_pairs(s: Seq<usize>, pos: int, x: usize, rel: spec_fn(usize, usize) -> bool)
    requires
        0 <= pos <= s.len(),
        forall|a: int, b: int| 0 <= a < b < s.len() ==> rel(#[trigger] s[a], #[trigger] s[b]),
        forall|a: int| 0 <= a < pos ==> rel(#[trigger] s[a], x),
        forall|a: int| pos <= a < s.len() ==> rel(x, #[trigger] s[a]),
    ensures
        forall|a: int, b: int|
            0 <= a < b < s.insert(pos, x).len() ==> rel(#[trigger] s.insert(pos, x)[a], #[trigger] s.insert(pos, x)[b]),
{
    let t = s.insert(pos, x);
    assert forall|a: int, b: int| 0 <= a < b < t.len() implies rel(#[trigger] t[a], #[trigger] t[b]) by {
        if b < pos {
            assert(t[a] == s[a] && t[b] == s[b]);
        } else if b == pos {
            assert(t[a] == s[a]);
        } else if a < pos {
            assert(t[a] == s[a] && t[b] == s[b - 1]);
        } else if a == pos {
            assert(t[b] == s[b - 1]);
        } else {
            assert(t[a] == s[a - 1] && t[b] == s[b - 1]);
        }
    }
}

/// The order in which the declarations `items` are written (see
/// [`reference_order`]), and how many of them were placed after all they
/// depend on.
pub fn reference_permutation(items: &Vec<CItem>) -> (r: (Vec<usize>, usize))
    ensures
        reference_order(items@, r.0@, r.1 as int),
{
    let n = items.len();
    let m = dependency_matrix(items);
    let mut orders: Vec<usize> = Vec::new();
    let mut placed: Vec<bool> = Vec::new();
    let mut steps: Vec<usize> = Vec::new();
    let mut i: usize = 0;
    while i < n
        invariant
            n == items@.len(),
            i <= n,
            orders@.len() == i,
            placed@.len() == i,
            steps@.len() == i,
            forall|a: int| 0 <= a < i ==> steps@[a] == 0,
            forall|a: int| 0 <= a < i ==> orders@[a] == item_order(#[trigger] items@[a]),
            forall|a: int| 0 <= a < i ==> !placed@[a],
        decreases n - i,
    {
        orders.push(items[i].source_order());
        placed.push(false);
        steps.push(0);
        i = i + 1;
    }
    proof {
        lemma_count_all_unset(placed@);
    }
    let mut sorted: Vec<usize> = Vec::new();
    let mut ready: Vec<usize> = Vec::new();
    let mut i: usize = 0;
    while i < n
        invariant
            n == items@.len(),
            i <= n,
            orders@.len() == n,
            placed@.len() == n,
            sorted@.len() == 0,
            m@.len() == n,
            forall|a: int| 0 <= a < n ==> (#[trigger] m@[a])@.len() == n,
            forall|a: int, j: int| 0 <= a < n && 0 <= j < n ==> m@[a]@[j] == depends(items@, a, j),
            forall|a: int| 0 <= a < n ==> !placed@[a],
            forall|a: int| 0 <= a < ready@.len() ==> (#[trigger] ready@[a]) < n,
            forall|a: int, b: int|
                0 <= a < b < ready@.len() ==> orders@[#[trigger] ready@[a] as int] <= orders@[#[trigger] ready@[b] as int],
            distinct(ready@),
            forall|a: int| 0 <= a < ready@.len() ==> (#[trigger] ready@[a]) < i && ready_after(items@, sorted@, ready@[a] as int),
            forall|x: int| 0 <= x < i && ready_after(items@, sorted@, x) ==> ready@.contains(x as usize),
            steps@.len() == n,
            forall|a: int| 0 <= a < n ==> steps@[a] == 0,
            forall|a: int, b: int|
                0 <= a < b < ready@.len() ==> orders@[#[trigger] ready@[a] as int] == orders@[#[trigger] ready@[b] as int]
                    ==> ready@[a] < ready@[b],
        decreases n - i,
    {
        if all_deps_placed(&m, &placed, i) {
            proof {
                assert(deps_within(items@, i as int, sorted@)) by {
                    assert forall|j: int| #[trigger] depends(items@, i as int, j) implies sorted@.contains(j as usize) by {
                        assert(m@[i as int]@[j]);
                        assert(placed@[j]);
                    }
                }
                assert(!ready@.contains(i));
            }
            let ghost before = ready@;
            let pos = insert_by_order(&mut ready, i, &orders, true);
            proof {
                let rel = |u: usize, v: usize| orders@[u as int] == orders@[v as int] ==> u < v;
                assert forall|a: int| 0 <= a < pos implies rel(#[trigger] before[a], i) by {
                    assert(before[a] < i);
                }
                assert forall|a: int| pos <= a < before.len() implies rel(i, #[trigger] before[a]) by {}
                assert forall|a: int, b: int| 0 <= a < b < before.len() implies rel(#[trigger] before[a], #[trigger] before[b]) by {}
                lemma_insert_pairs(before, pos as int, i, rel);
                assert forall|a: int| 0 <= a < ready@.len() implies (#[trigger] ready@[a]) < i + 1 && ready_after(items@, sorted@, ready@[a] as int) by {
                    if ready@[a] != i {
                        assert(before.contains(ready@[a]));
                        let b = choose|b: int| 0 <= b < before.len() && before[b] == ready@[a];
                    }
                }
            }
        } else {
            proof {
                let j = choose|j: int| 0 <= j < placed@.len() && m@[i as int]@[j] && !placed@[j];
                assert(depends(items@, i as int, j));
                assert(!deps_within(items@, i as int, sorted@));
            }
        }
        i = i + 1;
    }
    while ready.len() > 0
        invariant
            n == items@.len(),
            orders@.len() == n,
            placed@.len() == n,
            forall|a: int| 0 <= a < n ==> orders@[a] == item_order(#[trigger] items@[a]),
            m@.len() == n,
            forall|a: int| 0 <= a < n ==> (#[trigger] m@[a])@.len() == n,
            forall|a: int, j: int| 0 <= a < n && 0 <= j < n ==> m@[a]@[j] == depends(items@, a, j),
            forall|x: int| 0 <= x < n ==> (placed@[x] <==> sorted@.contains(x as usize)),
            forall|a: int| 0 <= a < sorted@.len() ==> (#[trigger] sorted@[a]) < n,
            distinct(sorted@),
            sorted@.len() + crate::selection::count_unset(placed@) == n,
            forall|a: int| 0 <= a < ready@.len() ==> (#[trigger] ready@[a]) < n,
            forall|a: int, b: int|
                0 <= a < b < ready@.len() ==> orders@[#[trigger] ready@[a] as int] <= orders@[#[trigger] ready@[b] as int],
            distinct(ready@),
            forall|a: int| 0 <= a < ready@.len() ==> ready_after(items@, sorted@, #[trigger] ready@[a] as int),
            forall|x: int| ready_after(items@, sorted@, x) ==> ready@.contains(x as usize),
            forall|t: int| 0 <= t < sorted@.len() ==> deps_within(items@, #[trigger] sorted@[t] as int, sorted@.subrange(0, t)),
            forall|t: int, x: int|
                0 <= t < sorted@.len() && 0 <= x < n && !sorted@.subrange(0, t).contains(x as usize)
                    && deps_within(items@, x, sorted@.subrange(0, t)) ==> item_order(
                    items@[#[trigger] sorted@[t] as int],
                ) <= item_order(#[trigger] items@[x]),
            steps@.len() == n,
            forall|a: int| 0 <= a < ready@.len() ==> steps@[#[trigger] ready@[a] as int] <= sorted@.len()
                && ready_at(items@, sorted@, ready@[a] as int, steps@[ready@[a] as int] as int),
            forall|a: int, b: int|
                0 <= a < b < ready@.len() ==> orders@[#[trigger] ready@[a] as int] == orders@[#[trigger] ready@[b] as int]
                    ==> goes_first(steps@[ready@[a] as int] as int, ready@[a] as int, steps@[ready@[b] as int] as int, ready@[b] as int),
            forall|t: int, x: int|
                0 <= t < sorted@.len() && 0 <= x < n && x != sorted@[t] && !sorted@.subrange(0, t).contains(x as usize)
                    && deps_within(items@, x, sorted@.subrange(0, t)) && item_order(items@[#[trigger] sorted@[t] as int])
                    == item_order(#[trigger] items@[x]) ==> tie_broken(items@, sorted@, sorted@[t] as int, x),
        decreases crate::selection::count_unset(placed@),
    {
        let ghost old_sorted = sorted@;
        let ghost old_ready = ready@;
        let ghost old_placed = placed@;
        let idx = ready.remove(0);
        proof {
            assert(old_ready[0] == idx);
            assert(ready_after(items@, old_sorted, idx as int));
            assert(!placed@[idx as int]);
            crate::selection::lemma_count_set(placed@, idx as int);
            assert forall|x: int| 0 <= x < n && !old_sorted.contains(x as usize) && deps_within(items@, x, old_sorted)
                implies orders@[idx as int] <= item_order(#[trigger] items@[x]) by {
                assert(ready_after(items@, old_sorted, x));
                assert(old_ready.contains(x as usize));
                let a = choose|a: int| 0 <= a < old_ready.len() && old_ready[a] == x as usize;
                if a > 0 {
                    assert(orders@[old_ready[0] as int] <= orders@[old_ready[a] as int]);
                }
            }
        }
        sorted.push(idx);
        placed.set(idx, true);
        proof {
            assert(sorted@.subrange(0, old_sorted.len() as int) =~= old_sorted);
            assert forall|a: int| 0 <= a < old_ready.len() implies ready_at(items@, sorted@, #[trigger] old_ready[a] as int, steps@[old_ready[a] as int] as int) by {
                lemma_ready_at_extend(items@, old_sorted, sorted@, old_ready[a] as int, steps@[old_ready[a] as int] as int);
            }
            assert forall|t: int, x: int|
                0 <= t < sorted@.len() && 0 <= x < n && x != sorted@[t] && !sorted@.subrange(0, t).contains(x as usize)
                    && deps_within(items@, x, sorted@.subrange(0, t)) && item_order(items@[#[trigger] sorted@[t] as int])
                    == item_order(#[trigger] items@[x]) implies tie_broken(items@, sorted@, sorted@[t] as int, x) by {
                if t < old_sorted.len() {
                    assert(sorted@.subrange(0, t) =~= old_sorted.subrange(0, t));
                    assert(sorted@[t] == old_sorted[t]);
                    assert(tie_broken(items@, old_sorted, old_sorted[t] as int, x));
                    let (sy, sx) = choose|sy: int, sx: int| #[trigger] ready_at(items@, old_sorted, old_sorted[t] as int, sy)
                        && #[trigger] ready_at(items@, old_sorted, x, sx) && goes_first(sy, old_sorted[t] as int, sx, x);
                    lemma_ready_at_extend(items@, old_sorted, sorted@, old_sorted[t] as int, sy);
                    lemma_ready_at_extend(items@, old_sorted, sorted@, x, sx);
                } else {
                    assert(sorted@.subrange(0, t) =~= old_sorted);
                    assert(sorted@[t] == idx);
                    assert(ready_after(items@, old_sorted, x));
                    assert(old_ready.contains(x as usize));
                    let a = choose|a: int| 0 <= a < old_ready.len() && old_ready[a] == x as usize;
                    assert(a != 0);
                    assert(orders@[old_ready[0] as int] == orders@[old_ready[a] as int]);
                    let sy = steps@[idx as int] as int;
                    let sx = steps@[x] as int;
                    assert(ready_at(items@, sorted@, idx as int, sy));
                    assert(ready_at(items@, sorted@, x, sx));
                    assert(goes_first(sy, idx as int, sx, x));
                }
            }
            assert(sorted@.subrange(0, old_sorted.len() as int) =~= old_sorted);
            assert forall|t: int| 0 <= t < old_sorted.len() implies sorted@.subrange(0, t) =~= old_sorted.subrange(0, t) by {}
            assert forall|x: usize| #[trigger] sorted@.contains(x) <==> old_sorted.contains(x) || x == idx by {
                if sorted@.contains(x) {
                    let a = choose|a: int| 0 <= a < sorted@.len() && sorted@[a] == x;
                    if a < old_sorted.len() {
                        assert(old_sorted[a] == x);
                    }
                }
                if old_sorted.contains(x) {
                    let a = choose|a: int| 0 <= a < old_sorted.len() && old_sorted[a] == x;
                    assert(sorted@[a] == x);
                }
                if x == idx {
                    assert(sorted@[old_sorted.len() as int] == x);
                }
            }
            assert forall|j: int| #[trigger] depends(items@, idx as int, j) implies old_sorted.contains(j as usize) by {
                assert(deps_within(items@, idx as int, old_sorted));
            }
            assert forall|x: usize| old_ready.contains(x) && x != idx implies #[trigger] ready@.contains(x) by {
                let a = choose|a: int| 0 <= a < old_ready.len() && old_ready[a] == x;
                assert(a > 0);
                assert(ready@[a - 1] == x);
            }
            assert forall|a: int| 0 <= a < ready@.len() implies (#[trigger] ready@[a]) != idx by {
                assert(ready@[a] == old_ready[a + 1]);
            }
            assert forall|a: int| 0 <= a < ready@.len() implies ready_after(items@, sorted@, #[trigger] ready@[a] as int)
                && !depends(items@, ready@[a] as int, idx as int) by {
                let y = ready@[a] as int;
                assert(ready@[a] == old_ready[a + 1]);
                assert(ready_after(items@, old_sorted, y));
                assert forall|j: int| #[trigger] depends(items@, y, j) implies sorted@.contains(j as usize) by {
                    assert(old_sorted.contains(j as usize));
                }
                if depends(items@, y, idx as int) {
                    assert(old_sorted.contains(idx));
                }
            }
            assert forall|x: int| #[trigger] ready_after(items@, sorted@, x) && !depends(items@, x, idx as int)
                implies ready@.contains(x as usize) by {
                assert forall|j: int| #[trigger] depends(items@, x, j) implies old_sorted.contains(j as usize) by {
                    assert(sorted@.contains(j as usize));
                }
                assert(ready_after(items@, old_sorted, x));
                assert(old_ready.contains(x as usize));
            }
        }
        proof {
            assert(!old_sorted.contains(idx));
            assert forall|a: int| 0 <= a < ready@.len() implies steps@[#[trigger] ready@[a] as int] < sorted@.len()
                && ready_at(items@, sorted@, ready@[a] as int, steps@[ready@[a] as int] as int) by {
                assert(ready@[a] == old_ready[a + 1]);
            }
            assert forall|a: int, b: int|
                0 <= a < b < ready@.len() && orders@[#[trigger] ready@[a] as int] == orders@[#[trigger] ready@[b] as int]
                    implies goes_first(steps@[ready@[a] as int] as int, ready@[a] as int, steps@[ready@[b] as int] as int, ready@[b] as int) by {
                assert(ready@[a] == old_ready[a + 1]);
                assert(ready@[b] == old_ready[b + 1]);
            }
        }
        let mut i: usize = 0;
        while i < n
            invariant
                n == items@.len(),
                i <= n,
                idx < n,
                orders@.len() == n,
                placed@.len() == n,
                m@.len() == n,
                forall|a: int| 0 <= a < n ==> (#[trigger] m@[a])@.len() == n,
                forall|a: int, j: int| 0 <= a < n && 0 <= j < n ==> m@[a]@[j] == depends(items@, a, j),
                forall|x: int| 0 <= x < n ==> (placed@[x] <==> sorted@.contains(x as usize)),
                sorted@ == old_sorted.push(idx),
                forall|x: usize| #[trigger] sorted@.contains(x) <==> old_sorted.contains(x) || x == idx,
                forall|a: int| 0 <= a < ready@.len() ==> (#[trigger] ready@[a]) < n,
                forall|a: int, b: int|
                    0 <= a < b < ready@.len() ==> orders@[#[trigger] ready@[a] as int] <= orders@[#[trigger] ready@[b] as int],
                distinct(ready@),
                forall|a: int| 0 <= a < ready@.len() ==> ready_after(items@, sorted@, #[trigger] ready@[a] as int),
                forall|a: int| 0 <= a < ready@.len() ==> (#[trigger] ready@[a]) < i || !depends(items@, ready@[a] as int, idx as int),
                forall|x: int| #[trigger] ready_after(items@, sorted@, x) && (x < i || !depends(items@, x, idx as int)) ==> ready@.contains(x as usize),
                forall|x: usize| old_ready.contains(x) && x != idx ==> #[trigger] ready@.contains(x),
                steps@.len() == n,
                !old_sorted.contains(idx),
                forall|a: int| 0 <= a < ready@.len() ==> steps@[#[trigger] ready@[a] as int] <= sorted@.len()
                    && ready_at(items@, sorted@, ready@[a] as int, steps@[ready@[a] as int] as int),
                forall|a: int, b: int|
                    0 <= a < b < ready@.len() ==> orders@[#[trigger] ready@[a] as int] == orders@[#[trigger] ready@[b] as int]
                        ==> goes_first(steps@[ready@[a] as int] as int, ready@[a] as int, steps@[ready@[b] as int] as int, ready@[b] as int),
                forall|a: int| 0 <= a < ready@.len() && steps@[#[trigger] ready@[a] as int] == sorted@.len() ==> ready@[a] < i,
            decreases n - i,
        {
            if m[i][idx] && !placed[i] && all_deps_placed(&m, &placed, i) {
                proof {
                    assert(deps_within(items@, i as int, sorted@)) by {
                        assert forall|j: int| #[trigger] depends(items@, i as int, j) implies sorted@.contains(j as usize) by {
                            assert(m@[i as int]@[j]);
                            assert(placed@[j]);
                        }
                    }
                    if ready@.contains(i) {
                        let a = choose|a: int| 0 <= a < ready@.len() && ready@[a] == i;
                        assert(depends(items@, i as int, idx as int));
                    }
                }
                let l = sorted.len();
                let ghost old_steps = steps@;
                steps.set(i, l);
                let ghost before = ready@;
                let pos = insert_by_order(&mut ready, i, &orders, false);
                proof {
                    assert forall|a: int| 0 <= a < before.len() implies (#[trigger] before[a]) != i by {}
                    assert forall|a: int| 0 <= a < before.len() implies steps@[#[trigger] before[a] as int] == old_steps[before[a] as int] by {}
                    assert(sorted@.subrange(0, l as int) =~= sorted@);
                    assert(sorted@.subrange(0, l - 1) =~= old_sorted);
                    assert(depends(items@, i as int, idx as int));
                    assert(ready_at(items@, sorted@, i as int, l as int));
                    let rel = |u: usize, v: usize| orders@[u as int] == orders@[v as int] ==> goes_first(
                        steps@[u as int] as int, u as int, steps@[v as int] as int, v as int);
                    assert forall|a: int| 0 <= a < pos implies rel(#[trigger] before[a], i) by {}
                    assert forall|a: int| pos <= a < before.len() implies rel(i, #[trigger] before[a]) by {
                        if steps@[before[a] as int] == l {
                            assert(before[a] < i);
                        }
                    }
                    assert forall|a: int, b: int| 0 <= a < b < before.len() implies rel(#[trigger] before[a], #[trigger] before[b]) by {}
                    lemma_insert_pairs(before, pos as int, i, rel);
                    assert forall|a: int| 0 <= a < ready@.len() implies steps@[#[trigger] ready@[a] as int] <= sorted@.len()
                        && ready_at(items@, sorted@, ready@[a] as int, steps@[ready@[a] as int] as int)
                        && (steps@[ready@[a] as int] == sorted@.len() ==> ready@[a] < i + 1) by {
                        if a < pos {
                            assert(ready@[a] == before[a]);
                        } else if a > pos {
                            assert(ready@[a] == before[a - 1]);
                        }
                    }
                    assert forall|a: int| 0 <= a < ready@.len() implies ready_after(items@, sorted@, #[trigger] ready@[a] as int)
                        && (ready@[a] < i + 1 || !depends(items@, ready@[a] as int, idx as int)) by {
                        if ready@[a] != i {
                            assert(before.contains(ready@[a]));
                            let b = choose|b: int| 0 <= b < before.len() && before[b] == ready@[a];
                        }
                    }
                }
            } else {
                proof {
                    if ready_after(items@, sorted@, i as int) {
                        assert(!depends(items@, i as int, idx as int)) by {
                            if depends(items@, i as int, idx as int) {
                                assert(m@[i as int]@[idx as int]);
                                assert forall|j: int| 0 <= j < placed@.len() && m@[i as int]@[j] implies placed@[j] by {
                                    assert(depends(items@, i as int, j));
                                }
                            }
                        }
                    }
                }
            }
            i = i + 1;
        }
        proof {
            assert forall|x: int| ready_after(items@, sorted@, x) implies ready@.contains(x as usize) by {}
        }
    }
    let ghost kahn = sorted@;
    let kc = sorted.len();
    let mut rest: Vec<usize> = Vec::new();
    let mut x: usize = 0;
    while x < n
        invariant
            n == items@.len(),
            x <= n,
            orders@.len() == n,
            placed@.len() == n,
            kahn == sorted@,
            forall|y: int| 0 <= y < n ==> (placed@[y] <==> sorted@.contains(y as usize)),
            forall|a: int| 0 <= a < rest@.len() ==> (#[trigger] rest@[a]) < x && !placed@[rest@[a] as int],
            forall|y: int| 0 <= y < x && !placed@[y] ==> rest@.contains(y as usize),
            rest@.len() == crate::selection::count_unset(placed@.subrange(0, x as int)),
            distinct(rest@),
            forall|a: int, b: int|
                0 <= a < b < rest@.len() ==> orders@[#[trigger] rest@[a] as int] <= orders@[#[trigger] rest@[b] as int],
            forall|a: int, b: int|
                0 <= a < b < rest@.len() ==> orders@[#[trigger] rest@[a] as int] < orders@[#[trigger] rest@[b] as int]
                    || (orders@[rest@[a] as int] == orders@[rest@[b] as int] && rest@[a] < rest@[b]),
        decreases n - x,
    {
        assert(placed@.subrange(0, x + 1).drop_last() =~= placed@.subrange(0, x as int));
        if !placed[x] {
            proof {
                if rest@.contains(x) {
                    let a = choose|a: int| 0 <= a < rest@.len() && rest@[a] == x;
                }
            }
            let ghost before = rest@;
            let pos = insert_by_order(&mut rest, x, &orders, true);
            proof {
                let rel = |u: usize, v: usize| orders@[u as int] < orders@[v as int] || (orders@[u as int]
                    == orders@[v as int] && u < v);
                assert forall|a: int| 0 <= a < pos implies rel(#[trigger] before[a], x) by {
                    assert(before[a] < x);
                }
                assert forall|a: int| pos <= a < before.len() implies rel(x, #[trigger] before[a]) by {}
                assert forall|a: int, b: int| 0 <= a < b < before.len() implies rel(#[trigger] before[a], #[trigger] before[b]) by {}
                lemma_insert_pairs(before, pos as int, x, rel);
                assert forall|a: int| 0 <= a < rest@.len() implies (#[trigger] rest@[a]) < x + 1 && !placed@[rest@[a] as int] by {
                    if rest@[a] != x {
                        let b = choose|b: int| 0 <= b < before.len() && before[b] == rest@[a];
                    }
                }
                assert forall|y: int| 0 <= y < x + 1 && !placed@[y] implies rest@.contains(y as usize) by {
                    if y < x {
                        assert(before.contains(y as usize));
                    }
                }
            }
        }
        x = x + 1;
    }
    assert(placed@.subrange(0, n as int) =~= placed@);
    let mut perm = sorted;
    let ghost rest_view = rest@;
    let mut a: usize = 0;
    while a < rest.len()
        invariant
            a <= rest@.len(),
            rest@ == rest_view,
            perm@ == kahn + rest_view.subrange(0, a as int),
        decreases rest.len() - a,
    {
        perm.push(rest[a]);
        a = a + 1;
        assert(perm@ =~= kahn + rest_view.subrange(0, a as int));
    }
    proof {
        assert(rest_view.subrange(0, rest_view.len() as int) =~= rest_view);
        assert(perm@.subrange(0, kc as int) =~= kahn);
        assert forall|t: int| 0 <= t < kc implies perm@.subrange(0, t) =~= kahn.subrange(0, t) by {}
        assert forall|c: int, d: int| 0 <= c < d < perm@.len() implies perm@[c] != perm@[d] by {
            if d >= kc && c < kc {
                assert(!placed@[perm@[d] as int]);
                assert(placed@[perm@[c] as int]) by {
                    assert(kahn.contains(perm@[c]));
                }
            } else if c >= kc {
                assert(perm@[c] == rest_view[c - kc]);
                assert(perm@[d] == rest_view[d - kc]);
            }
        }
        assert forall|t: int, x: int|
            0 <= t < kc && 0 <= x < items@.len() && !perm@.subrange(0, t).contains(x as usize) && deps_within(
                items@,
                x,
                perm@.subrange(0, t),
            ) implies item_order(items@[#[trigger] perm@[t] as int]) <= item_order(#[trigger] items@[x]) by {
            assert(perm@[t] == kahn[t]);
        }
        assert forall|x: int|
            0 <= x < items@.len() && !perm@.subrange(0, kc as int).contains(x as usize) implies !#[trigger] deps_within(
                items@,
                x,
                perm@.subrange(0, kc as int),
            ) by {
            if deps_within(items@, x, kahn) {
                assert(ready_after(items@, kahn, x));
            }
        }
        assert forall|t: int, x: int|
            0 <= t < kc && 0 <= x < items@.len() && x != perm@[t] && !perm@.subrange(0, t).contains(x as usize)
                && deps_within(items@, x, perm@.subrange(0, t)) && item_order(items@[#[trigger] perm@[t] as int])
                == item_order(#[trigger] items@[x]) implies tie_broken(items@, perm@, perm@[t] as int, x) by {
            assert(perm@[t] == kahn[t]);
            assert(tie_broken(items@, kahn, kahn[t] as int, x));
            let (sy, sx) = choose|sy: int, sx: int| #[trigger] ready_at(items@, kahn, kahn[t] as int, sy)
                && #[trigger] ready_at(items@, kahn, x, sx) && goes_first(sy, kahn[t] as int, sx, x);
            lemma_ready_at_extend(items@, kahn, perm@, kahn[t] as int, sy);
            lemma_ready_at_extend(items@, kahn, perm@, x, sx);
        }
        assert forall|c: int, d: int| kc <= c < d < perm@.len() implies item_order(items@[#[trigger] perm@[c] as int])
            < item_order(items@[#[trigger] perm@[d] as int]) || (item_order(items@[perm@[c] as int]) == item_order(
            items@[perm@[d] as int]) && perm@[c] < perm@[d]) by {
            assert(perm@[c] == rest_view[c - kc]);
            assert(perm@[d] == rest_view[d - kc]);
        }
    }
    (perm, kc)
}

/// The declarations of `items` other than functions, in order.
pub open spec fn types_of(items: Seq<CItem>) -> Seq<CItem>
    decreases items.len(),
{
    if items.len() == 0 {
        Seq::empty()
    } else if items.last() is Function {
        types_of(items.drop_last())
    } else {
        types_of(items.drop_last()).push(items.last())
    }
}

/// The functions of `items`, in order.
pub open spec fn functions_of(items: Seq<CItem>) -> Seq<CItem>
    decreases items.len(),
{
    if items.len() == 0 {
        Seq::empty()
    } else if items.last() is Function {
        functions_of(items.drop_last()).push(items.last())
    } else {
        functions_of(items.drop_last())
    }
}

/// Whether `out` is `items` written in reference order: the declarations
/// other than functions permuted as [`reference_order`] says, then the
/// functions as they came.
pub open spec fn in_reference_order(items: Seq<CItem>, out: Seq<CItem>) -> bool {
    exists|p: Seq<usize>, kc: int|
        reference_order(types_of(items), p, kc) && out == permuted(types_of(items), p) + functions_of(items)
}

/// The order declarations are written in is determined: two outputs in
/// reference order of the same declarations are the same.
pub proof fn lemma_reference_order_determined(items: Seq<CItem>, out1: Seq<CItem>, out2: Seq<CItem>)
    requires
        in_reference_order(items, out1),
        in_reference_order(items, out2),
    ensures
        out1 == out2,
{
    let (p1, k1) = choose|p: Seq<usize>, kc: int|
        reference_order(types_of(items), p, kc) && out1 == permuted(types_of(items), p) + functions_of(items);
    let (p2, k2) = choose|p: Seq<usize>, kc: int|
        reference_order(types_of(items), p, kc) && out2 == permuted(types_of(items), p) + functions_of(items);
    lemma_reference_order_unique(types_of(items), p1, k1, p2, k2);
}

/// Splitting declarations into functions and the rest loses and adds
/// nothing: the lengths add up, the rest holds no function, and every
/// declaration is on its side.
proof fn lemma_split(items: Seq<CItem>)
    ensures
        types_of(items).len() + functions_of(items).len() == items.len(),
        forall|k: int| 0 <= k < types_of(items).len() ==> !(#[trigger] types_of(items)[k] is Function),
        forall|i: int| 0 <= i < items.len() ==> if items[i] is Function {
            functions_of(items).contains(#[trigger] items[i])
        } else {
            types_of(items).contains(items[i])
        },
    decreases items.len(),
{
    if items.len() > 0 {
        let init = items.drop_last();
        lemma_split(init);
        assert forall|i: int| 0 <= i < items.len() implies if items[i] is Function {
            functions_of(items).contains(#[trigger] items[i])
        } else {
            types_of(items).contains(items[i])
        } by {
            if i < items.len() - 1 {
                assert(items[i] == init[i]);
                if items[i] is Function {
                    let k = choose|k: int| 0 <= k < functions_of(init).len() && functions_of(init)[k] == items[i];
                    if items.last() is Function {
                        assert(functions_of(items)[k] == items[i]);
                    }
                } else {
                    let k = choose|k: int| 0 <= k < types_of(init).len() && types_of(init)[k] == items[i];
                    if !(items.last() is Function) {
                        assert(types_of(items)[k] == items[i]);
                    }
                }
            } else {
                if items[i] is Function {
                    assert(functions_of(items)[functions_of(items).len() - 1] == items[i]);
                } else {
                    assert(types_of(items)[types_of(items).len() - 1] == items[i]);
                }
            }
        }
    }
}

/// What sorting into reference order keeps: the output has as many entries
/// as the input and holds every declaration of it; the declarations other
/// than functions come first, then the functions, in their order.
pub proof fn lemma_sorted_laws(items: Seq<CItem>, out: Seq<CItem>)
    requires
        in_reference_order(items, out),
    ensures
        out.len() == items.len(),
        forall|i: int| 0 <= i < items.len() ==> out.contains(#[trigger] items[i]),
        forall|j: int| 0 <= j < types_of(items).len() ==> !(#[trigger] out[j] is Function),
        out.subrange(types_of(items).len() as int, out.len() as int) == functions_of(items),
{
    lemma_split(items);
    let ts = types_of(items);
    let (p, kc) = choose|p: Seq<usize>, kc: int|
        reference_order(ts, p, kc) && out == permuted(ts, p) + functions_of(items);
    assert(out.subrange(ts.len() as int, out.len() as int) =~= functions_of(items));
    assert forall|j: int| 0 <= j < ts.len() implies !(#[trigger] out[j] is Function) by {
        assert(out[j] == ts[p[j] as int]);
    }
    assert forall|i: int| 0 <= i < items.len() implies out.contains(#[trigger] items[i]) by {
        if items[i] is Function {
            let k = choose|k: int| 0 <= k < functions_of(items).len() && functions_of(items)[k] == items[i];
            assert(out[ts.len() + k] == items[i]);
        } else {
            let k = choose|k: int| 0 <= k < ts.len() && ts[k] == items[i];
            lemma_permutation_covers_at(p, ts.len(), k);
            let j = choose|j: int| 0 <= j < p.len() && p[j] as int == k;
            assert(p.len() == ts.len());
            assert(permuted(ts, p)[j] == ts[p[j] as int]);
            assert(out[j] == items[i]);
        }
    }
}

fn split_functions(items: Vec<CItem>) -> (r: (Vec<CItem>, Vec<CItem>))
    ensures
        r.0@ == types_of(items@),
        r.1@ == functions_of(items@),
{
    let ghost orig = items@;
    let n = items.len();
    let mut rest = items;
    let mut types: Vec<CItem> = Vec::new();
    let mut funcs: Vec<CItem> = Vec::new();
    let mut i: usize = 0;
    while i < n
        invariant
            n == orig.len(),
            i <= n,
            rest@ == orig.subrange(i as int, n as int),
            types@ == types_of(orig.subrange(0, i as int)),
            funcs@ == functions_of(orig.subrange(0, i as int)),
        decreases n - i,
    {
        assert(orig.subrange(0, i + 1).drop_last() =~= orig.subrange(0, i as int));
        let item = rest.remove(0);
        if item.is_function() {
            funcs.push(item);
        } else {
            types.push(item);
        }
        i = i + 1;
        assert(rest@ =~= orig.subrange(i as int, n as int));
    }
    assert(orig.subrange(0, n as int) =~= orig);
    (types, funcs)
}

fn apply_permutation(items: Vec<CItem>, p: &Vec<usize>) -> (r: Vec<CItem>)
    requires
        is_permutation(p@, items@.len()),
    ensures
        r@ == permuted(items@, p@),
{
    let ghost orig = items@;
    let n = items.len();
    let mut rest = items;
    let mut slots: Vec<Option<CItem>> = Vec::new();
    let mut i: usize = 0;
    while i < n
        invariant
            n == orig.len(),
            i <= n,
            rest@ == orig.subrange(i as int, n as int),
            slots@.len() == i,
            forall|a: int| 0 <= a < i ==> slots@[a] == Some(orig[a]),
        decreases n - i,
    {
        let item = rest.remove(0);
        slots.push(Some(item));
        i = i + 1;
        assert(rest@ =~= orig.subrange(i as int, n as int));
    }
    let mut out: Vec<CItem> = Vec::new();
    let mut t: usize = 0;
    while t < n
        invariant
            n == orig.len(),
            is_permutation(p@, n as nat),
            t <= n,
            slots@.len() == n,
            forall|a: int| 0 <= a < n ==> slots@[a] == if p@.subrange(0, t as int).contains(a as usize) {
                None
            } else {
                Some(orig[a])
            },
            out@ == permuted(orig, p@.subrange(0, t as int)),
        decreases n - t,
    {
        let at = p[t];
        proof {
            if p@.subrange(0, t as int).contains(at) {
                let b = choose|b: int| 0 <= b < t && p@[b] == at;
                assert(p@[b] != p@[t as int]);
            }
        }
        let slot = slots.remove(at);
        slots.insert(at, None);
        match slot {
            Some(item) => {
                out.push(item);
            },
            None => {},
        }
        proof {
            assert forall|a: int| 0 <= a < n implies slots@[a] == if p@.subrange(0, t + 1).contains(a as usize) {
                None
            } else {
                Some(orig[a])
            } by {
                if a != at {
                    if p@.subrange(0, t as int).contains(a as usize) {
                        let b = choose|b: int| 0 <= b < t && p@[b] == a as usize;
                        assert(p@.subrange(0, t + 1)[b] == a as usize);
                    }
                    if p@.subrange(0, t + 1).contains(a as usize) {
                        let b = choose|b: int| 0 <= b < t + 1 && #[trigger] p@.subrange(0, t + 1)[b] == a as usize;
                        assert(p@.subrange(0, t as int)[b] == a as usize);
                    }
                } else {
                    assert(p@.subrange(0, t + 1)[t as int] == at);
                }
            }
        }
        t = t + 1;
        assert(out@ =~= permuted(orig, p@.subrange(0, t as int)));
    }
    assert(p@.subrange(0, n as int) =~= p@);
    out
}

/// Puts the declarations other than functions after what they reference,
/// then the functions in their order (see [`in_reference_order`]).
pub fn sort_items_in_reference_order(items: &mut Vec<CItem>)
    ensures
        in_reference_order(old(items)@, final(items)@),
{
    let mut taken: Vec<CItem> = Vec::new();
    std::mem::swap(&mut taken, items);
    *items = sorted_in_reference_order(taken);
}

fn sorted_in_reference_order(items: Vec<CItem>) -> (r: Vec<CItem>)
    ensures
        in_reference_order(items@, r@),
{
    let ghost orig = items@;
    let (types, mut funcs) = split_functions(items);
    let (p, kc) = reference_permutation(&types);
    let mut out = apply_permutation(types, &p);
    let ghost placed = out@;
    out.append(&mut funcs);
    proof {
        assert(out@ == permuted(types_of(orig), p@) + functions_of(orig));
        assert(reference_order(types_of(orig), p@, kc as int));
    }
    out
}

} // verus!
