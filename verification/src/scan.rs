//! Converting the items of a crate and its dependencies, in source order.

use vstd::prelude::*;
use crate::config::TerraffiConfig;
use crate::convert::{items_from, item_error, takes_extra_position};
use crate::items::CItem;
use crate::syntax::RustItem;

verus! {

/// An item, and whether the functions it becomes are kept: they are for
/// the crate itself, not for its dependencies.
pub type Tagged = (RustItem, bool);

/// The items of one crate, tagged.
pub open spec fn crate_tagged(items: Seq<RustItem>, keep_functions: bool) -> Seq<Tagged> {
    items.map_values(|i: RustItem| (i, keep_functions))
}

/// The items of the dependency crates, in order, their functions dropped.
pub open spec fn deps_tagged(deps: Seq<Vec<RustItem>>) -> Seq<Tagged>
    decreases deps.len(),
{
    if deps.len() == 0 {
        Seq::empty()
    } else {
        deps_tagged(deps.drop_last()) + crate_tagged(deps.last()@, false)
    }
}

/// Everything that is scanned: the dependencies' items, then the crate's own.
pub open spec fn scan_input(deps: Seq<Vec<RustItem>>, root: Seq<RustItem>) -> Seq<Tagged> {
    deps_tagged(deps) + crate_tagged(root, true)
}

/// How many source positions an item takes: none for a `mod` declaration,
/// two for a tagged union, one otherwise.
pub open spec fn positions(item: RustItem) -> int {
    if item is ModDecl {
        0
    } else if takes_extra_position(item) {
        2
    } else {
        1
    }
}

/// The source position after the items `ts`.
pub open spec fn position_after(ts: Seq<Tagged>) -> int
    decreases ts.len(),
{
    if ts.len() == 0 {
        0
    } else {
        position_after(ts.drop_last()) + positions(ts.last().0)
    }
}

/// `v` without its functions, unless they are kept.
pub open spec fn kept(v: Seq<CItem>, keep_functions: bool) -> Seq<CItem>
    decreases v.len(),
{
    if v.len() == 0 {
        Seq::empty()
    } else if keep_functions || !(v.last() is Function) {
        kept(v.drop_last(), keep_functions).push(v.last())
    } else {
        kept(v.drop_last(), keep_functions)
    }
}

/// Why scanning `ts` fails: the reason of the first item that cannot be
/// converted.
pub open spec fn scan_error(ts: Seq<Tagged>) -> Option<Seq<char>>
    decreases ts.len(),
{
    if ts.len() == 0 {
        None
    } else {
        match scan_error(ts.drop_last()) {
            Some(m) => Some(m),
            None => if ts.last().0 is ModDecl {
                None
            } else {
                item_error(ts.last().0)
            },
        }
    }
}

/// Whether `out` is what scanning `ts` gives: each item converted at its
/// source position (see [`items_from`]), `mod` declarations skipped, the
/// functions of dependencies dropped.
pub open spec fn scanned(ts: Seq<Tagged>, cfg: &TerraffiConfig, out: Seq<CItem>) -> bool
    decreases ts.len(),
{
    if ts.len() == 0 {
        out.len() == 0
    } else if ts.last().0 is ModDecl {
        scanned(ts.drop_last(), cfg, out)
    } else {
        exists|v: Seq<CItem>|
            items_from(ts.last().0, position_after(ts.drop_last()) as usize, cfg, v) && ends_with_items(
                out,
                #[trigger] kept(v, ts.last().1),
            ) && scanned(ts.drop_last(), cfg, out.subrange(0, out.len() - kept(v, ts.last().1).len()))
    }
}

/// Whether `s` ends with `tail`.
pub open spec fn ends_with_items(s: Seq<CItem>, tail: Seq<CItem>) -> bool {
    tail.len() <= s.len() && s.subrange(s.len() - tail.len(), s.len() as int) == tail
}

proof fn lemma_scanned_step(
    ts: Seq<Tagged>,
    item: RustItem,
    keep_functions: bool,
    cfg: &TerraffiConfig,
    pre: Seq<CItem>,
    v: Seq<CItem>,
)
    requires
        scanned(ts, cfg, pre),
        !(item is ModDecl),
        items_from(item, position_after(ts) as usize, cfg, v),
    ensures
        scanned(ts.push((item, keep_functions)), cfg, pre + kept(v, keep_functions)),
{
    let next = ts.push((item, keep_functions));
    assert(next.drop_last() =~= ts);
    assert(next.last() == (item, keep_functions));
    let k = kept(v, keep_functions);
    let out = pre + k;
    assert(out.subrange(out.len() - k.len(), out.len() as int) =~= k);
    assert(out.subrange(0, out.len() - k.len()) =~= pre);
    assert(items_from(next.last().0, position_after(next.drop_last()) as usize, cfg, v));
    assert(ends_with_items(out, kept(v, next.last().1)));
    assert(scanned(next.drop_last(), cfg, out.subrange(0, out.len() - kept(v, next.last().1).len())));
    assert(!(next.last().0 is ModDecl));
    assert(scanned(next, cfg, out));
}

proof fn lemma_position_bound(ts: Seq<Tagged>)
    ensures
        0 <= position_after(ts) <= 2 * ts.len(),
    decreases ts.len(),
{
    if ts.len() > 0 {
        lemma_position_bound(ts.drop_last());
    }
}

fn push_kept(out: &mut Vec<CItem>, v: Vec<CItem>, keep_functions: bool)
    ensures
        final(out)@ == old(out)@ + kept(v@, keep_functions),
{
    let ghost orig = v@;
    let ghost start = out@;
    let n = v.len();
    let mut rest = v;
    let mut i: usize = 0;
    while i < n
        invariant
            n == orig.len(),
            i <= n,
            rest@ == orig.subrange(i as int, n as int),
            out@ == start + kept(orig.subrange(0, i as int), keep_functions),
        decreases n - i,
    {
        assert(orig.subrange(0, i + 1).drop_last() =~= orig.subrange(0, i as int));
        let item = rest.remove(0);
        if keep_functions || !item.is_function() {
            out.push(item);
        }
        i = i + 1;
        assert(rest@ =~= orig.subrange(i as int, n as int));
        assert(out@ =~= start + kept(orig.subrange(0, i as int), keep_functions));
    }
    assert(orig.subrange(0, n as int) =~= orig);
}

/// Converts the items of one crate, appending them to `out` and advancing
/// `source_order` past them; `prev` are the items scanned before.
fn scan_crate(
    items: &Vec<RustItem>,
    keep_functions: bool,
    config: &TerraffiConfig,
    source_order: &mut usize,
    out: &mut Vec<CItem>,
    Ghost(prev): Ghost<Seq<Tagged>>,
) -> (r: Result<(), String>)
    requires
        scanned(prev, config, old(out)@),
        scan_error(prev) is None,
        *old(source_order) == position_after(prev),
        2 * (prev.len() + items@.len()) < usize::MAX,
    ensures
        match r {
            Ok(()) => {
                &&& scan_error(prev + crate_tagged(items@, keep_functions)) is None
                &&& scanned(prev + crate_tagged(items@, keep_functions), config, final(out)@)
                &&& *final(source_order) == position_after(prev + crate_tagged(items@, keep_functions))
            },
            Err(m) => scan_error(prev + crate_tagged(items@, keep_functions)) == Some(m@),
        },
{
    let mut i: usize = 0;
    assert(prev + crate_tagged(items@.subrange(0, 0), keep_functions) =~= prev);
    while i < items.len()
        invariant
            i <= items@.len(),
            2 * (prev.len() + items@.len()) < usize::MAX,
            scan_error(prev + crate_tagged(items@.subrange(0, i as int), keep_functions)) is None,
            scanned(prev + crate_tagged(items@.subrange(0, i as int), keep_functions), config, out@),
            *source_order == position_after(prev + crate_tagged(items@.subrange(0, i as int), keep_functions)),
        decreases items.len() - i,
    {
        let ghost ts = prev + crate_tagged(items@.subrange(0, i as int), keep_functions);
        let ghost next = prev + crate_tagged(items@.subrange(0, i + 1), keep_functions);
        proof {
            assert(next =~= ts.push((items@[i as int], keep_functions)));
            assert(next.drop_last() =~= ts);
            lemma_position_bound(ts);
        }
        let item = &items[i];
        if let RustItem::ModDecl(_) = item {
        } else {
            let ghost pre = out@;
            match CItem::from_item(item, source_order, config) {
                Ok(v) => {
                    let ghost vv = v@;
                    push_kept(out, v, keep_functions);
                    proof {
                        assert(next.last() == (items@[i as int], keep_functions));
                        assert(next.drop_last() == ts);
                        assert(scanned(next.drop_last(), config, pre) && items_from(
                            next.last().0,
                            position_after(next.drop_last()) as usize,
                            config,
                            vv,
                        ) && out@ == pre + kept(vv, next.last().1));
                        lemma_scanned_step(ts, items@[i as int], keep_functions, config, pre, vv);
                        assert(next == ts.push((items@[i as int], keep_functions)));
                    }
                    *source_order = *source_order + 1;
                },
                Err(m) => {
                    proof {
                        assert(next.last() == (items@[i as int], keep_functions));
                        assert(next.drop_last() == ts);
                        assert(scan_error(next) == Some(m@));
                        let full = prev + crate_tagged(items@, keep_functions);
                        assert(full =~= next + crate_tagged(items@.subrange(i + 1, items@.len() as int), keep_functions));
                        lemma_scan_error_append(next, crate_tagged(items@.subrange(i + 1, items@.len() as int), keep_functions));
                    }
                    return Err(m);
                },
            }
        }
        i = i + 1;
    }
    assert(items@.subrange(0, items@.len() as int) =~= items@);
    Ok(())
}

/// Converts the items of the dependency crates, dropping their functions,
/// then those of the crate itself, in one run of source positions (see
/// [`scanned`] and [`scan_error`]).
pub fn scan_items(deps: &Vec<Vec<RustItem>>, root: &Vec<RustItem>, config: &TerraffiConfig) -> (r: Result<
    Vec<CItem>,
    String,
>)
    requires
        2 * scan_input(deps@, root@).len() < usize::MAX,
    ensures
        match r {
            Ok(v) => scan_error(scan_input(deps@, root@)) is None && scanned(scan_input(deps@, root@), config, v@),
            Err(m) => scan_error(scan_input(deps@, root@)) == Some(m@),
        },
{
    let mut out: Vec<CItem> = Vec::new();
    let mut source_order: usize = 0;
    let mut d: usize = 0;
    proof {
        assert(deps@.subrange(0, 0) =~= Seq::<Vec<RustItem>>::empty());
    }
    while d < deps.len()
        invariant
            d <= deps@.len(),
            2 * scan_input(deps@, root@).len() < usize::MAX,
            scan_error(deps_tagged(deps@.subrange(0, d as int))) is None,
            scanned(deps_tagged(deps@.subrange(0, d as int)), config, out@),
            source_order == position_after(deps_tagged(deps@.subrange(0, d as int))),
            deps_tagged(deps@.subrange(0, d as int)).len() <= deps_tagged(deps@).len(),
        decreases deps.len() - d,
    {
        let ghost prev = deps_tagged(deps@.subrange(0, d as int));
        proof {
            assert(deps@.subrange(0, d + 1).drop_last() =~= deps@.subrange(0, d as int));
            assert(deps_tagged(deps@.subrange(0, d + 1)) == prev + crate_tagged(deps@[d as int]@, false));
            lemma_deps_prefix_len(deps@, d as int + 1);
        }
        match scan_crate(&deps[d], false, config, &mut source_order, &mut out, Ghost(prev)) {
            Ok(()) => {},
            Err(m) => {
                proof {
                    lemma_scan_error_extends(
                        deps_tagged(deps@.subrange(0, d + 1)),
                        deps_tagged(deps@),
                        deps@,
                        d as int + 1,
                    );
                    lemma_scan_error_append(deps_tagged(deps@), crate_tagged(root@, true));
                }
                return Err(m);
            },
        }
        d = d + 1;
    }
    assert(deps@.subrange(0, deps@.len() as int) =~= deps@);
    match scan_crate(root, true, config, &mut source_order, &mut out, Ghost(deps_tagged(deps@))) {
        Ok(()) => Ok(out),
        Err(m) => Err(m),
    }
}

proof fn lemma_deps_prefix_len(deps: Seq<Vec<RustItem>>, d: int)
    requires
        0 <= d <= deps.len(),
    ensures
        deps_tagged(deps.subrange(0, d)).len() <= deps_tagged(deps).len(),
    decreases deps.len() - d,
{
    if d < deps.len() {
        lemma_deps_prefix_len(deps, d + 1);
        assert(deps.subrange(0, d + 1).drop_last() =~= deps.subrange(0, d));
    } else {
        assert(deps.subrange(0, d) =~= deps);
    }
}

proof fn lemma_scan_error_append(a: Seq<Tagged>, b: Seq<Tagged>)
    requires
        scan_error(a) is Some,
    ensures
        scan_error(a + b) == scan_error(a),
    decreases b.len(),
{
    if b.len() == 0 {
        assert(a + b =~= a);
    } else {
        lemma_scan_error_append(a, b.drop_last());
        assert((a + b).drop_last() =~= a + b.drop_last());
    }
}

proof fn lemma_scan_error_extends(pre: Seq<Tagged>, all: Seq<Tagged>, deps: Seq<Vec<RustItem>>, d: int)
    requires
        0 <= d <= deps.len(),
        pre == deps_tagged(deps.subrange(0, d)),
        all == deps_tagged(deps),
        scan_error(pre) is Some,
    ensures
        scan_error(all) == scan_error(pre),
    decreases deps.len() - d,
{
    if d < deps.len() {
        assert(deps.subrange(0, d + 1).drop_last() =~= deps.subrange(0, d));
        lemma_scan_error_append(pre, crate_tagged(deps[d]@, false));
        lemma_scan_error_extends(deps_tagged(deps.subrange(0, d + 1)), all, deps, d + 1);
    } else {
        assert(deps.subrange(0, d) =~= deps);
    }
}

} // verus!
