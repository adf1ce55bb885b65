//! Which scanned items make it into the header: the exported ones, the types
//! they reference, each type once.

use vstd::prelude::*;
use crate::config::{TerraffiConfig, name_set, contains_name, insert_name};
use crate::items::{CItem, TerraffiExportStatus, item_name, item_status, item_refs};
use crate::text::str_eq;

verus! {

/// The items of `items` whose flag in `keep` is set, in order.
pub open spec fn select(items: Seq<CItem>, keep: Seq<bool>) -> Seq<CItem>
    decreases items.len(),
{
    if items.len() == 0 {
        Seq::empty()
    } else {
        let rest = select(items.drop_last(), keep);
        if keep[items.len() - 1] {
            rest.push(items.last())
        } else {
            rest
        }
    }
}

proof fn lemma_select_prefix(items: Seq<CItem>, keep: Seq<bool>, i: int)
    requires
        0 <= i < items.len(),
    ensures
        select(items.subrange(0, i + 1), keep) == if keep[i] {
            select(items.subrange(0, i), keep).push(items[i])
        } else {
            select(items.subrange(0, i), keep)
        },
{
    assert(items.subrange(0, i + 1).drop_last() =~= items.subrange(0, i));
}

/// Keeps the items whose flag is set, moving them out of `items`.
pub fn retain_flagged(items: Vec<CItem>, keep: &Vec<bool>) -> (r: Vec<CItem>)
    requires
        keep@.len() == items@.len(),
    ensures
        r@ == select(items@, keep@),
{
    let ghost orig = items@;
    let n = items.len();
    let mut rest = items;
    let mut out: Vec<CItem> = Vec::new();
    let mut i: usize = 0;
    while i < n
        invariant
            n == orig.len(),
            keep@.len() == n,
            i <= n,
            rest@ == orig.subrange(i as int, n as int),
            out@ == select(orig.subrange(0, i as int), keep@),
        decreases n - i,
    {
        let item = rest.remove(0);
        proof {
            lemma_select_prefix(orig, keep@, i as int);
        }
        if keep[i] {
            out.push(item);
        }
        i = i + 1;
        assert(rest@ =~= orig.subrange(i as int, n as int));
    }
    assert(orig.subrange(0, n as int) =~= orig);
    out
}

/// Whether the configuration exports `item` directly: annotated items are,
/// ignored ones are not, public ones by the configuration's rule for
/// functions or for types.
pub open spec fn exported(item: CItem, cfg: &TerraffiConfig) -> bool {
    match item_status(item) {
        TerraffiExportStatus::ExplicitlyIgnored => false,
        TerraffiExportStatus::ExplicitlyExported => true,
        TerraffiExportStatus::Public => if item is Function {
            cfg.is_export_public_functions
        } else {
            cfg.is_export_public_types
        },
        TerraffiExportStatus::NotExported => false,
    }
}

/// Whether the configuration exports `item` directly (see [`exported`]).
pub fn is_item_exported(item: &CItem, config: &TerraffiConfig) -> (r: bool)
    ensures
        r == exported(*item, config),
{
    match item.export_status() {
        TerraffiExportStatus::ExplicitlyIgnored => false,
        TerraffiExportStatus::ExplicitlyExported => true,
        TerraffiExportStatus::Public => if item.is_function() {
            config.is_export_public_functions
        } else {
            config.is_export_public_types
        },
        TerraffiExportStatus::NotExported => false,
    }
}

/// The names of the enums written in the source, not made for a tagged union.
pub open spec fn real_enum_names(items: Seq<CItem>) -> Set<Seq<char>> {
    Set::new(
        |n: Seq<char>|
            exists|i: int|
                0 <= i < items.len() && (#[trigger] items[i] matches CItem::Enum(e)
                    && !e.is_synthesised_from_discriminated_union && e.name@ == n),
    )
}

/// Whether `item` survives: a tag enum made for a tagged union gives way to
/// an enum of the same name written in the source.
pub open spec fn not_shadowed(item: CItem, real_names: Set<Seq<char>>) -> bool {
    !(item matches CItem::Enum(e) && e.is_synthesised_from_discriminated_union && real_names.contains(e.name@))
}

/// The flags that keep all but the shadowed tag enums (see [`not_shadowed`]).
pub fn shadow_flags(items: &Vec<CItem>) -> (r: Vec<bool>)
    ensures
        r@.len() == items@.len(),
        forall|i: int| 0 <= i < items@.len() ==> r@[i] == not_shadowed(items@[i], real_enum_names(items@)),
{
    let mut real_names: Vec<String> = Vec::new();
    let mut i: usize = 0;
    while i < items.len()
        invariant
            i <= items@.len(),
            forall|n: Seq<char>| name_set(real_names@).contains(n) <==> exists|j: int|
                0 <= j < i && (#[trigger] items@[j] matches CItem::Enum(e)
                    && !e.is_synthesised_from_discriminated_union && e.name@ == n),
        decreases items.len() - i,
    {
        let ghost before = real_names@;
        if let CItem::Enum(e) = &items[i] {
            if !e.is_synthesised_from_discriminated_union {
                insert_name(&mut real_names, e.name.as_str());
            }
        }
        proof {
            assert forall|n: Seq<char>| name_set(real_names@).contains(n) <==> exists|j: int|
                0 <= j < i + 1 && (#[trigger] items@[j] matches CItem::Enum(e)
                    && !e.is_synthesised_from_discriminated_union && e.name@ == n) by {
                if name_set(real_names@).contains(n) && !name_set(before).contains(n) {
                    assert(items@[i as int] matches CItem::Enum(e)
                        && !e.is_synthesised_from_discriminated_union && e.name@ == n);
                }
            }
        }
        i = i + 1;
    }
    assert(name_set(real_names@) =~= real_enum_names(items@));
    let mut keep: Vec<bool> = Vec::new();
    let mut k: usize = 0;
    while k < items.len()
        invariant
            k <= items@.len(),
            name_set(real_names@) == real_enum_names(items@),
            keep@.len() == k,
            forall|j: int| 0 <= j < k ==> keep@[j] == not_shadowed(items@[j], real_enum_names(items@)),
        decreases items.len() - k,
    {
        let flag = match &items[k] {
            CItem::Enum(e) => !(e.is_synthesised_from_discriminated_union && contains_name(&real_names, e.name.as_str())),
            _ => true,
        };
        keep.push(flag);
        k = k + 1;
    }
    keep
}

/// The types the directly exported items of `items` reference.
pub open spec fn seed_refs(items: Seq<CItem>, cfg: &TerraffiConfig) -> Set<Seq<char>>
    decreases items.len(),
{
    if items.len() == 0 {
        Set::empty()
    } else if exported(items.last(), cfg) {
        seed_refs(items.drop_last(), cfg).union(item_refs(items.last()))
    } else {
        seed_refs(items.drop_last(), cfg)
    }
}

/// Whether an item passes on what it references once it is referenced
/// itself: a struct or a tagged union that is not ignored.
pub open spec fn passes_on(item: CItem) -> bool {
    item_status(item) != TerraffiExportStatus::ExplicitlyIgnored && (item is Struct
        || item is DiscriminatedUnion)
}

/// Whether every referenced struct or tagged union of `items` has what it
/// references in `names` too.
pub open spec fn closed_under(items: Seq<CItem>, names: Set<Seq<char>>) -> bool {
    forall|i: int|
        0 <= i < items.len() && passes_on(#[trigger] items[i]) && names.contains(item_name(items[i]))
            ==> item_refs(items[i]).subset_of(names)
}

/// Whether `names` is the least set that holds `init` and is closed under
/// references (see [`closed_under`]).
pub open spec fn is_reference_closure(items: Seq<CItem>, init: Set<Seq<char>>, names: Set<Seq<char>>) -> bool {
    &&& init.subset_of(names)
    &&& closed_under(items, names)
    &&& forall|s: Set<Seq<char>>| #[trigger] closed_under(items, s) && init.subset_of(s) ==> names.subset_of(s)
}

/// Two least closures of the same start are the same set.
pub proof fn lemma_closure_unique(items: Seq<CItem>, init: Set<Seq<char>>, a: Set<Seq<char>>, b: Set<Seq<char>>)
    requires
        is_reference_closure(items, init, a),
        is_reference_closure(items, init, b),
    ensures
        a == b,
{
    assert(a.subset_of(b));
    assert(b.subset_of(a));
    assert(a =~= b);
}

/// The number of unset flags.
pub open spec fn count_unset(v: Seq<bool>) -> nat
    decreases v.len(),
{
    if v.len() == 0 {
        0
    } else {
        count_unset(v.drop_last()) + if v.last() {
            0nat
        } else {
            1nat
        }
    }
}

/// Setting an unset flag leaves one fewer unset.
pub proof fn lemma_count_set(v: Seq<bool>, i: int)
    requires
        0 <= i < v.len(),
        !v[i],
    ensures
        count_unset(v.update(i, true)) + 1 == count_unset(v),
    decreases v.len(),
{
    if i == v.len() - 1 {
        assert(v.update(i, true).drop_last() =~= v.drop_last());
    } else {
        lemma_count_set(v.drop_last(), i);
        assert(v.update(i, true).drop_last() =~= v.drop_last().update(i, true));
    }
}

/// Adds to `names` the exported items' references and, repeatedly, what the
/// referenced structs and tagged unions reference, until nothing changes.
pub fn close_references(items: &Vec<CItem>, config: &TerraffiConfig, names: &mut Vec<String>)
    ensures
        is_reference_closure(
            items@,
            name_set(old(names)@).union(seed_refs(items@, config)),
            name_set(final(names)@),
        ),
{
    let ghost init = name_set(old(names)@).union(seed_refs(items@, config));
    let mut i: usize = 0;
    while i < items.len()
        invariant
            i <= items@.len(),
            name_set(names@) == name_set(old(names)@).union(seed_refs(items@.subrange(0, i as int), config)),
        decreases items.len() - i,
    {
        assert(items@.subrange(0, i + 1).drop_last() =~= items@.subrange(0, i as int));
        if is_item_exported(&items[i], config) {
            items[i].collect_referenced_type_names(names);
        }
        i = i + 1;
        assert(name_set(names@) =~= name_set(old(names)@).union(
            seed_refs(items@.subrange(0, i as int), config),
        ));
    }
    assert(items@.subrange(0, items@.len() as int) =~= items@);
    // Each struct or tagged union hands on its references at most once.
    let mut done: Vec<bool> = Vec::new();
    let mut k: usize = 0;
    while k < items.len()
        invariant
            k <= items@.len(),
            done@.len() == k,
            forall|j: int| 0 <= j < k ==> !done@[j],
        decreases items.len() - k,
    {
        done.push(false);
        k = k + 1;
    }
    loop
        invariant
            done@.len() == items@.len(),
            init.subset_of(name_set(names@)),
            forall|j: int|
                0 <= j < items@.len() && #[trigger] done@[j] ==> item_refs(items@[j]).subset_of(
                    name_set(names@),
                ),
            forall|j: int|
                0 <= j < items@.len() && #[trigger] done@[j] ==> passes_on(items@[j]) && name_set(
                    names@,
                ).contains(item_name(items@[j])),
            forall|s: Set<Seq<char>>|
                #[trigger] closed_under(items@, s) && init.subset_of(s) ==> name_set(names@).subset_of(s),
        ensures
            is_reference_closure(items@, init, name_set(names@)),
        decreases count_unset(done@),
    {
        let mut progressed = false;
        let ghost start_count = count_unset(done@);
        let mut j: usize = 0;
        while j < items.len()
            invariant
                j <= items@.len(),
                done@.len() == items@.len(),
                init.subset_of(name_set(names@)),
                forall|x: int|
                    0 <= x < items@.len() && #[trigger] done@[x] ==> item_refs(items@[x]).subset_of(
                        name_set(names@),
                    ),
                forall|x: int|
                    0 <= x < items@.len() && #[trigger] done@[x] ==> passes_on(items@[x]) && name_set(
                        names@,
                    ).contains(item_name(items@[x])),
                forall|s: Set<Seq<char>>|
                    #[trigger] closed_under(items@, s) && init.subset_of(s) ==> name_set(names@).subset_of(s),
                progressed ==> count_unset(done@) < start_count,
                !progressed ==> count_unset(done@) == start_count,
                !progressed ==> forall|x: int|
                    0 <= x < j && passes_on(#[trigger] items@[x]) && name_set(names@).contains(
                        item_name(items@[x]),
                    ) ==> done@[x],
            decreases items.len() - j,
        {
            let item = &items[j];
            let eligible = !done[j] && item.export_status() != TerraffiExportStatus::ExplicitlyIgnored
                && match item {
                CItem::Struct(_) => true,
                CItem::DiscriminatedUnion(_) => true,
                _ => false,
            } && contains_name(names, item.name());
            if eligible {
                let ghost before = name_set(names@);
                let ghost done_before = done@;
                item.collect_referenced_type_names(names);
                proof {
                    lemma_count_set(done_before, j as int);
                    assert forall|s: Set<Seq<char>>|
                        #[trigger] closed_under(items@, s) && init.subset_of(s) implies name_set(
                            names@,
                        ).subset_of(s) by {
                        assert(before.subset_of(s));
                        assert(s.contains(item_name(items@[j as int])));
                        assert(item_refs(items@[j as int]).subset_of(s));
                    }
                }
                done.set(j, true);
                progressed = true;
            }
            j = j + 1;
        }
        if !progressed {
            proof {
                assert forall|x: int|
                    0 <= x < items@.len() && passes_on(#[trigger] items@[x]) && name_set(
                        names@,
                    ).contains(item_name(items@[x])) implies item_refs(items@[x]).subset_of(
                    name_set(names@),
                ) by {
                    assert(done@[x]);
                }
                assert(closed_under(items@, name_set(names@)));
            }
            break;
        }
    }
}

/// Whether `item` belongs in the header: nothing ignored, functions when
/// exported, other items when exported or referenced.
pub open spec fn relevant(item: CItem, cfg: &TerraffiConfig, referenced: Set<Seq<char>>) -> bool {
    item_status(item) != TerraffiExportStatus::ExplicitlyIgnored && if item is Function {
        exported(item, cfg)
    } else {
        exported(item, cfg) || referenced.contains(item_name(item))
    }
}

/// The flags that keep the items that belong in the header (see [`relevant`]).
pub fn relevance_flags(items: &Vec<CItem>, config: &TerraffiConfig, referenced: &Vec<String>) -> (r: Vec<bool>)
    ensures
        r@.len() == items@.len(),
        forall|i: int| 0 <= i < items@.len() ==> r@[i] == relevant(items@[i], config, name_set(referenced@)),
{
    let mut keep: Vec<bool> = Vec::new();
    let mut k: usize = 0;
    while k < items.len()
        invariant
            k <= items@.len(),
            keep@.len() == k,
            forall|j: int| 0 <= j < k ==> keep@[j] == relevant(items@[j], config, name_set(referenced@)),
        decreases items.len() - k,
    {
        let item = &items[k];
        let flag = item.export_status() != TerraffiExportStatus::ExplicitlyIgnored && if item.is_function() {
            is_item_exported(item, config)
        } else {
            is_item_exported(item, config) || contains_name(referenced, item.name())
        };
        keep.push(flag);
        k = k + 1;
    }
    keep
}

/// Whether `item` is an opaque forward declaration.
pub open spec fn is_opaque(item: CItem) -> bool {
    item matches CItem::Typedef(t) && t.inner_type is None
}

/// Whether the item at `j` is a declaration named `n`.
pub open spec fn declares_name(items: Seq<CItem>, j: int, n: Seq<char>) -> bool {
    !(items[j] is Function) && item_name(items[j]) == n
}

/// Whether the item at `k` is the one kept of its name: the first full
/// definition of the name if there is one, else its first declaration.
/// Functions are all kept.
pub open spec fn representative(items: Seq<CItem>, k: int) -> bool {
    let n = item_name(items[k]);
    if items[k] is Function {
        true
    } else if exists|j: int| 0 <= j < items.len() && #[trigger] declares_name(items, j, n) && !is_opaque(items[j]) {
        !is_opaque(items[k]) && forall|j: int| 0 <= j < k && #[trigger] declares_name(items, j, n) ==> is_opaque(items[j])
    } else {
        forall|j: int| 0 <= j < k ==> !#[trigger] declares_name(items, j, n)
    }
}

fn opaque(item: &CItem) -> (r: bool)
    ensures
        r == is_opaque(*item),
{
    match item {
        CItem::Typedef(t) => t.inner_type.is_none(),
        _ => false,
    }
}

/// The flags that keep one declaration of each name (see [`representative`]).
pub fn dedup_flags(items: &Vec<CItem>) -> (r: Vec<bool>)
    ensures
        r@.len() == items@.len(),
        forall|i: int| 0 <= i < items@.len() ==> r@[i] == representative(items@, i),
{
    let mut keep: Vec<bool> = Vec::new();
    let mut k: usize = 0;
    while k < items.len()
        invariant
            k <= items@.len(),
            keep@.len() == k,
            forall|j: int| 0 <= j < k ==> keep@[j] == representative(items@, j),
        decreases items.len() - k,
    {
        let ghost n = item_name(items@[k as int]);
        let flag = if items[k].is_function() {
            true
        } else {
            let name = items[k].name();
            let mut any_full = false;
            let mut full_before = false;
            let mut any_before = false;
            let mut j: usize = 0;
            while j < items.len()
                invariant
                    j <= items@.len(),
                    k < items@.len(),
                    name@ == n,
                    any_full == exists|x: int| 0 <= x < j && #[trigger] declares_name(items@, x, n) && !is_opaque(items@[x]),
                    full_before == exists|x: int| 0 <= x < j && x < k && #[trigger] declares_name(items@, x, n) && !is_opaque(items@[x]),
                    any_before == exists|x: int| 0 <= x < j && x < k && #[trigger] declares_name(items@, x, n),
                decreases items.len() - j,
            {
                let same = !items[j].is_function() && str_eq(items[j].name(), name);
                if same {
                    let o = opaque(&items[j]);
                    if !o {
                        any_full = true;
                        if j < k {
                            full_before = true;
                        }
                    }
                    if j < k {
                        any_before = true;
                    }
                }
                proof {
                    assert(same == declares_name(items@, j as int, n));
                }
                j = j + 1;
            }
            if any_full {
                !opaque(&items[k]) && !full_before
            } else {
                !any_before
            }
        };
        proof {
            assert(flag == representative(items@, k as int));
        }
        keep.push(flag);
        k = k + 1;
    }
    keep
}

/// The positions of the set flags among the first `n` of `keep`, in order.
pub open spec fn kept_positions(n: nat, keep: Seq<bool>) -> Seq<int>
    decreases n,
{
    if n == 0 {
        Seq::empty()
    } else {
        let r = kept_positions((n - 1) as nat, keep);
        if keep[n - 1] {
            r.push(n - 1)
        } else {
            r
        }
    }
}

/// The items [`select`] keeps are those at the set flags, in order.
pub proof fn lemma_select_positions(items: Seq<CItem>, keep: Seq<bool>)
    ensures
        select(items, keep).len() == kept_positions(items.len(), keep).len(),
        forall|t: int|
            0 <= t < select(items, keep).len() ==> #[trigger] select(items, keep)[t] == items[kept_positions(
                items.len(),
                keep,
            )[t]],
        forall|t: int|
            0 <= t < kept_positions(items.len(), keep).len() ==> 0 <= #[trigger] kept_positions(items.len(), keep)[t]
                < items.len() && keep[kept_positions(items.len(), keep)[t]],
        forall|a: int, b: int|
            0 <= a < b < kept_positions(items.len(), keep).len() ==> #[trigger] kept_positions(items.len(), keep)[a]
                < #[trigger] kept_positions(items.len(), keep)[b],
        forall|j: int| 0 <= j < items.len() && keep[j] ==> kept_positions(items.len(), keep).contains(j),
    decreases items.len(),
{
    if items.len() > 0 {
        let n = items.len();
        lemma_select_positions(items.drop_last(), keep);
        assert(items.drop_last().len() == (n - 1) as nat);
        let r = kept_positions((n - 1) as nat, keep);
        assert forall|j: int| 0 <= j < n && keep[j] implies kept_positions(n, keep).contains(j) by {
            if j == n - 1 {
                assert(kept_positions(n, keep).last() == j);
            } else {
                assert(r.contains(j));
                let k = choose|k: int| 0 <= k < r.len() && r[k] == j;
                assert(kept_positions(n, keep)[k] == j);
            }
        }
        assert forall|t: int|
            0 <= t < select(items, keep).len() implies #[trigger] select(items, keep)[t] == items[kept_positions(
                n,
                keep,
            )[t]] by {
            if t < select(items.drop_last(), keep).len() {
                assert(items.drop_last()[r[t]] == items[r[t]]);
            }
        }
    }
}

/// Nothing ignored reaches the header: every item chosen for it is not
/// explicitly ignored.
pub proof fn lemma_chosen_not_ignored(s1: Seq<CItem>, cfg: &TerraffiConfig, referenced: Set<Seq<char>>)
    ensures
        forall|t: int|
            0 <= t < chosen_items(s1, cfg, referenced).len() ==> item_status(
                #[trigger] chosen_items(s1, cfg, referenced)[t],
            ) != TerraffiExportStatus::ExplicitlyIgnored,
{
    let f1 = Seq::new(s1.len(), |i: int| relevant(s1[i], cfg, referenced));
    let s2 = select(s1, f1);
    let f2 = Seq::new(s2.len(), |i: int| representative(s2, i));
    lemma_select_positions(s1, f1);
    lemma_select_positions(s2, f2);
    assert forall|t: int| 0 <= t < chosen_items(s1, cfg, referenced).len() implies item_status(
        #[trigger] chosen_items(s1, cfg, referenced)[t],
    ) != TerraffiExportStatus::ExplicitlyIgnored by {
        let j = kept_positions(s2.len(), f2)[t];
        let i = kept_positions(s1.len(), f1)[j];
        assert(s2[j] == s1[i]);
        assert(f1[i]);
    }
}

/// The items chosen for the header: those that belong in it (see
/// [`relevant`]), then one declaration of each name (see [`representative`]).
pub open spec fn chosen_items(s1: Seq<CItem>, cfg: &TerraffiConfig, referenced: Set<Seq<char>>) -> Seq<CItem> {
    let s2 = select(s1, Seq::new(s1.len(), |i: int| relevant(s1[i], cfg, referenced)));
    select(s2, Seq::new(s2.len(), |i: int| representative(s2, i)))
}

/// Every exported function reaches the header, and only those: a function
/// is among the chosen items exactly when it is an exported function of the
/// scanned ones.
pub proof fn lemma_chosen_functions(s1: Seq<CItem>, cfg: &TerraffiConfig, referenced: Set<Seq<char>>)
    ensures
        forall|t: int|
            0 <= t < chosen_items(s1, cfg, referenced).len() && (#[trigger] chosen_items(s1, cfg, referenced)[t]) is Function
                ==> exported(chosen_items(s1, cfg, referenced)[t], cfg),
        forall|i: int|
            0 <= i < s1.len() && (#[trigger] s1[i]) is Function && exported(s1[i], cfg) ==> chosen_items(
                s1,
                cfg,
                referenced,
            ).contains(s1[i]),
{
    let f1 = Seq::new(s1.len(), |i: int| relevant(s1[i], cfg, referenced));
    let s2 = select(s1, f1);
    let f2 = Seq::new(s2.len(), |i: int| representative(s2, i));
    let c = chosen_items(s1, cfg, referenced);
    lemma_select_positions(s1, f1);
    lemma_select_positions(s2, f2);
    assert forall|t: int| 0 <= t < c.len() && (#[trigger] c[t]) is Function implies exported(c[t], cfg) by {
        let j = kept_positions(s2.len(), f2)[t];
        let i = kept_positions(s1.len(), f1)[j];
        assert(s2[j] == s1[i]);
        assert(f1[i]);
    }
    assert forall|i: int| 0 <= i < s1.len() && (#[trigger] s1[i]) is Function && exported(s1[i], cfg) implies c.contains(
        s1[i],
    ) by {
        assert(f1[i]);
        let ks = kept_positions(s1.len(), f1);
        assert(ks.contains(i));
        let j = choose|j: int| 0 <= j < ks.len() && ks[j] == i;
        assert(s2[j] == s1[i]);
        assert(f2[j]);
        let ks2 = kept_positions(s2.len(), f2);
        assert(ks2.contains(j));
        let t = choose|t: int| 0 <= t < ks2.len() && ks2[t] == j;
        assert(c[t] == s1[i]);
    }
}

/// No name is declared twice in the header: the chosen declarations other
/// than functions have distinct names.
pub proof fn lemma_chosen_names_distinct(s1: Seq<CItem>, cfg: &TerraffiConfig, referenced: Set<Seq<char>>)
    ensures
        forall|a: int, b: int|
            0 <= a < b < chosen_items(s1, cfg, referenced).len() && !(#[trigger] chosen_items(s1, cfg, referenced)[a] is Function)
                && !(#[trigger] chosen_items(s1, cfg, referenced)[b] is Function) ==> item_name(
                chosen_items(s1, cfg, referenced)[a],
            ) != item_name(chosen_items(s1, cfg, referenced)[b]),
{
    let f1 = Seq::new(s1.len(), |i: int| relevant(s1[i], cfg, referenced));
    let s2 = select(s1, f1);
    let f2 = Seq::new(s2.len(), |i: int| representative(s2, i));
    let c = chosen_items(s1, cfg, referenced);
    lemma_select_positions(s2, f2);
    assert forall|a: int, b: int|
        0 <= a < b < c.len() && !(#[trigger] c[a] is Function) && !(#[trigger] c[b] is Function) implies item_name(c[a])
            != item_name(c[b]) by {
        let ks = kept_positions(s2.len(), f2);
        let ja = ks[a];
        let jb = ks[b];
        assert(ja < jb);
        assert(c[a] == s2[ja] && c[b] == s2[jb]);
        assert(representative(s2, ja) && representative(s2, jb));
        if item_name(c[a]) == item_name(c[b]) {
            let n = item_name(s2[jb]);
            assert(declares_name(s2, ja, n));
            if exists|j: int| 0 <= j < s2.len() && #[trigger] declares_name(s2, j, n) && !is_opaque(s2[j]) {
                assert(!is_opaque(s2[ja]));
            }
        }
    }
}

} // verus!
