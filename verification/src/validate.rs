//! Validation of the items about to be emitted.
//!
//! The header generator names any type it does not recognise verbatim, so a Rust
//! type with no C equivalent would become an undefined C typename and the header
//! would fail only when the consumer compiles their C, several steps removed from
//! the cause. This module catches that at generation time instead.

use vstd::prelude::*;
use crate::config::{name_set, contains_name, insert_name};
use crate::ctype::{CType, referenced_names};
use crate::items::{CItem, CStructField, CTaggedUnionVariant, CFunctionParam, item_name};
use crate::order::{sorted_of, sort_names};
use crate::text::{owned, copy_string, str_eq};

verus! {

/// The advice for a Rust type that can never cross the FFI boundary, matched
/// on its outermost path segment.
pub open spec fn suggestion_text(t: Seq<char>) -> Option<Seq<char>> {
    if t == "String"@ || t == "CString"@ || t == "OsString"@ || t == "PathBuf"@ {
        Some("use `CStringBuffer` for an owned string, or `CStringPtr` for a borrowed one"@)
    } else if t == "str"@ || t == "CStr"@ || t == "OsStr"@ || t == "Path"@ {
        Some("use `CStringPtr` or `CStringPtrRef` for a borrowed string"@)
    } else if t == "Vec"@ {
        Some("use `CVec<T>` for an owned buffer, or `CSlice<T>` / `CSliceRef<T>` for a borrowed one"@)
    } else if t == "VecDeque"@ || t == "HashMap"@ || t == "BTreeMap"@ || t == "HashSet"@ || t
        == "BTreeSet"@ || t == "LinkedList"@ || t == "BinaryHeap"@ {
        Some("Rust collections have no stable C layout; expose the contents as a `CSlice<T>` or a `#[repr(C)]` type"@)
    } else if t == "Box"@ {
        Some("use `BoxPtr<T>` for an owned pointer, or `CHandle<T>` for an opaque handle"@)
    } else if t == "Rc"@ || t == "Arc"@ {
        Some("use `CHandle<T>`, or expose the value as an opaque pointer"@)
    } else if t == "Cell"@ || t == "RefCell"@ || t == "Mutex"@ || t == "RwLock"@ {
        Some("Rust cell and lock types have no stable C layout; expose the guarded value instead"@)
    } else if t == "Cow"@ {
        Some("use `CStringBuffer` / `CStringPtr`, or a `#[repr(C)]` type"@)
    } else if t == "Result"@ {
        Some("return a `#[repr(C)]` status enum and pass the value back by out-parameter"@)
    } else if t == "Range"@ || t == "RangeInclusive"@ || t == "Duration"@ || t == "Instant"@ || t
        == "SystemTime"@ {
        Some("these types have no stable C layout; expose their parts as a `#[repr(C)]` struct"@)
    } else {
        None
    }
}

/// The advice for a Rust type with no C layout (see [`suggestion_text`]).
pub fn suggestion_for(rust_type: &str) -> (r: Option<String>)
    ensures
        match r {
            Some(s) => suggestion_text(rust_type@) == Some(s@),
            None => suggestion_text(rust_type@) is None,
        },
{
    let t = rust_type;
    if str_eq(t, "String") || str_eq(t, "CString") || str_eq(t, "OsString") || str_eq(t, "PathBuf") {
        Some(owned("use `CStringBuffer` for an owned string, or `CStringPtr` for a borrowed one"))
    } else if str_eq(t, "str") || str_eq(t, "CStr") || str_eq(t, "OsStr") || str_eq(t, "Path") {
        Some(owned("use `CStringPtr` or `CStringPtrRef` for a borrowed string"))
    } else if str_eq(t, "Vec") {
        Some(owned("use `CVec<T>` for an owned buffer, or `CSlice<T>` / `CSliceRef<T>` for a borrowed one"))
    } else if str_eq(t, "VecDeque") || str_eq(t, "HashMap") || str_eq(t, "BTreeMap") || str_eq(t, "HashSet")
        || str_eq(t, "BTreeSet") || str_eq(t, "LinkedList") || str_eq(t, "BinaryHeap") {
        Some(owned("Rust collections have no stable C layout; expose the contents as a `CSlice<T>` or a `#[repr(C)]` type"))
    } else if str_eq(t, "Box") {
        Some(owned("use `BoxPtr<T>` for an owned pointer, or `CHandle<T>` for an opaque handle"))
    } else if str_eq(t, "Rc") || str_eq(t, "Arc") {
        Some(owned("use `CHandle<T>`, or expose the value as an opaque pointer"))
    } else if str_eq(t, "Cell") || str_eq(t, "RefCell") || str_eq(t, "Mutex") || str_eq(t, "RwLock") {
        Some(owned("Rust cell and lock types have no stable C layout; expose the guarded value instead"))
    } else if str_eq(t, "Cow") {
        Some(owned("use `CStringBuffer` / `CStringPtr`, or a `#[repr(C)]` type"))
    } else if str_eq(t, "Result") {
        Some(owned("return a `#[repr(C)]` status enum and pass the value back by out-parameter"))
    } else if str_eq(t, "Range") || str_eq(t, "RangeInclusive") || str_eq(t, "Duration") || str_eq(t, "Instant")
        || str_eq(t, "SystemTime") {
        Some(owned("these types have no stable C layout; expose their parts as a `#[repr(C)]` struct"))
    } else {
        None
    }
}

/// A single place where a type could not be resolved to a C declaration.
#[derive(Debug, Clone, PartialEq, Eq)]
pub struct UnresolvedType {
    /// The Rust type name that could not be resolved.
    pub name: String,
    /// Human-readable description of where it was referenced.
    pub location: String,
}

/// A type name and the place it is used.
pub type Use = (Seq<char>, Seq<char>);

/// The type names and places of unresolved references.
pub open spec fn uses_view(us: Seq<UnresolvedType>) -> Seq<Use> {
    us.map_values(|u: UnresolvedType| (u.name@, u.location@))
}

/// Where a struct field is.
pub open spec fn field_loc(s: Seq<char>, f: Seq<char>) -> Seq<char> {
    "struct `"@ + s + "`, field `"@ + f + "`"@
}

/// Where a tagged union variant's field is.
pub open spec fn variant_field_loc(u: Seq<char>, v: Seq<char>, f: Seq<char>) -> Seq<char> {
    "union `"@ + u + "`, variant `"@ + v + "`, field `"@ + f + "`"@
}

/// Where a function parameter is.
pub open spec fn param_loc(f: Seq<char>, p: Seq<char>) -> Seq<char> {
    "function `"@ + f + "`, parameter `"@ + p + "`"@
}

/// Where a function's return type is.
pub open spec fn return_loc(f: Seq<char>) -> Seq<char> {
    "function `"@ + f + "`, return type"@
}

/// A type checked at a place.
pub type Check = (CType, Seq<char>);

/// The checks for the fields of struct `s`.
pub open spec fn field_checks(s: Seq<char>, fs: Seq<CStructField>) -> Seq<Check>
    decreases fs.len(),
{
    if fs.len() == 0 {
        Seq::empty()
    } else {
        field_checks(s, fs.drop_last()).push((fs.last().ty, field_loc(s, fs.last().name@)))
    }
}

/// The checks for the fields of variant `v` of union `u`.
pub open spec fn variant_checks(u: Seq<char>, v: Seq<char>, fs: Seq<CStructField>) -> Seq<Check>
    decreases fs.len(),
{
    if fs.len() == 0 {
        Seq::empty()
    } else {
        variant_checks(u, v, fs.drop_last()).push((fs.last().ty, variant_field_loc(u, v, fs.last().name@)))
    }
}

/// The checks for the variants of union `u`.
pub open spec fn union_checks(u: Seq<char>, vs: Seq<CTaggedUnionVariant>) -> Seq<Check>
    decreases vs.len(),
{
    if vs.len() == 0 {
        Seq::empty()
    } else {
        union_checks(u, vs.drop_last()) + variant_checks(u, vs.last().name@, vs.last().fields@)
    }
}

/// The checks for the parameters of function `f`.
pub open spec fn param_checks(f: Seq<char>, ps: Seq<CFunctionParam>) -> Seq<Check>
    decreases ps.len(),
{
    if ps.len() == 0 {
        Seq::empty()
    } else {
        param_checks(f, ps.drop_last()).push((ps.last().ty, param_loc(f, ps.last().name@)))
    }
}

/// The types an item references, each with the place it is used.
pub open spec fn item_checks(i: CItem) -> Seq<Check> {
    match i {
        CItem::Struct(s) => field_checks(s.name@, s.fields@),
        CItem::DiscriminatedUnion(u) => union_checks(u.name@, u.variants@),
        CItem::Function(f) => param_checks(f.name@, f.params@).push((f.return_type, return_loc(f.name@))),
        CItem::Typedef(t) => match t.inner_type {
            Some(ty) => seq![(ty, "typedef `"@ + t.name@ + "`"@)],
            None => Seq::empty(),
        },
        CItem::Bitflags(b) => seq![(b.underlying_type, "bitflags `"@ + b.name@ + "`"@)],
        CItem::Const(c) => seq![(c.ty, "constant `"@ + c.name@ + "`"@)],
        _ => Seq::empty(),
    }
}

/// The names each check references, in increasing order, with its place.
pub open spec fn check_uses(cs: Seq<Check>) -> Seq<Use>
    decreases cs.len(),
{
    if cs.len() == 0 {
        Seq::empty()
    } else {
        check_uses(cs.drop_last()) + sorted_of(referenced_names(cs.last().0)).map_values(
            |n: Seq<char>| (n, cs.last().1),
        )
    }
}

/// The uses that all of `items` make, in order.
pub open spec fn items_uses(items: Seq<CItem>) -> Seq<Use>
    decreases items.len(),
{
    if items.len() == 0 {
        Seq::empty()
    } else {
        items_uses(items.drop_last()) + check_uses(item_checks(items.last()))
    }
}

/// The names of the types `items` declare.
pub open spec fn declared_names(items: Seq<CItem>) -> Set<Seq<char>> {
    Set::new(|n: Seq<char>| exists|i: int| 0 <= i < items.len() && !(items[i] is Function) && item_name(#[trigger] items[i]) == n)
}

/// `acc` extended by the uses of `us` that name neither a declared nor an
/// assumed type, each kept once.
pub open spec fn keep_unresolved(acc: Seq<Use>, us: Seq<Use>, declared: Set<Seq<char>>, assumed: Set<Seq<char>>) -> Seq<Use>
    decreases us.len(),
{
    if us.len() == 0 {
        acc
    } else {
        let u = us[0];
        let next = if declared.contains(u.0) || assumed.contains(u.0) || acc.contains(u) {
            acc
        } else {
            acc.push(u)
        };
        keep_unresolved(next, us.drop_first(), declared, assumed)
    }
}

/// Extending by two runs of uses is extending by one, then the other.
pub proof fn lemma_keep_concat(acc: Seq<Use>, a: Seq<Use>, b: Seq<Use>, d: Set<Seq<char>>, s: Set<Seq<char>>)
    ensures
        keep_unresolved(acc, a + b, d, s) == keep_unresolved(keep_unresolved(acc, a, d, s), b, d, s),
    decreases a.len(),
{
    if a.len() > 0 {
        assert((a + b).drop_first() =~= a.drop_first() + b);
        assert((a + b)[0] == a[0]);
        let u = a[0];
        let next = if d.contains(u.0) || s.contains(u.0) || acc.contains(u) {
            acc
        } else {
            acc.push(u)
        };
        lemma_keep_concat(next, a.drop_first(), b, d, s);
    } else {
        assert(a + b =~= b);
    }
}

/// Every type that `items` reference but do not declare, nor `assumed`
/// names, with where it is used: in item order, then place order, then
/// name order; each name and place once.
pub open spec fn unresolved_of(items: Seq<CItem>, assumed: Set<Seq<char>>) -> Seq<Use> {
    keep_unresolved(Seq::empty(), items_uses(items), declared_names(items), assumed)
}

/// Whether no use occurs twice in `us`.
pub open spec fn no_repeats(us: Seq<Use>) -> bool {
    forall|a: int, b: int| 0 <= a < b < us.len() ==> us[a] != us[b]
}

proof fn lemma_keep_exact(acc: Seq<Use>, us: Seq<Use>, d: Set<Seq<char>>, s: Set<Seq<char>>)
    requires
        no_repeats(acc),
    ensures
        no_repeats(keep_unresolved(acc, us, d, s)),
        forall|u: Use|
            #[trigger] keep_unresolved(acc, us, d, s).contains(u) <==> acc.contains(u) || (us.contains(u)
                && !d.contains(u.0) && !s.contains(u.0)),
    decreases us.len(),
{
    if us.len() > 0 {
        let u0 = us[0];
        let next = if d.contains(u0.0) || s.contains(u0.0) || acc.contains(u0) {
            acc
        } else {
            acc.push(u0)
        };
        if !(d.contains(u0.0) || s.contains(u0.0) || acc.contains(u0)) {
            assert forall|a: int, b: int| 0 <= a < b < next.len() implies next[a] != next[b] by {
                if b == acc.len() {
                    assert(acc.contains(acc[a]));
                }
            }
        }
        lemma_keep_exact(next, us.drop_first(), d, s);
        assert forall|u: Use|
            #[trigger] keep_unresolved(acc, us, d, s).contains(u) <==> acc.contains(u) || (us.contains(u)
                && !d.contains(u.0) && !s.contains(u.0)) by {
            assert(next.contains(u) <==> acc.contains(u) || (u == u0 && !d.contains(u0.0) && !s.contains(u0.0))) by {
                if !(d.contains(u0.0) || s.contains(u0.0) || acc.contains(u0)) {
                    if next.contains(u) && !acc.contains(u) {
                        let k = choose|k: int| 0 <= k < next.len() && next[k] == u;
                        if k < acc.len() {
                            assert(acc[k] == u);
                        }
                    }
                    if acc.contains(u) {
                        let k = choose|k: int| 0 <= k < acc.len() && acc[k] == u;
                        assert(next[k] == u);
                    }
                    if u == u0 {
                        assert(next[acc.len() as int] == u);
                    }
                }
            }
            assert(us.contains(u) <==> u == u0 || us.drop_first().contains(u)) by {
                if us.contains(u) && u != u0 {
                    let k = choose|k: int| 0 <= k < us.len() && us[k] == u;
                    assert(us.drop_first()[k - 1] == u);
                }
                if us.drop_first().contains(u) {
                    let k = choose|k: int| 0 <= k < us.drop_first().len() && us.drop_first()[k] == u;
                    assert(us[k + 1] == u);
                }
            }
        }
    }
}

/// The unresolved references of `items` are exactly the uses of a type
/// that `items` do not declare and that is not assumed declared; each
/// named once, at each place.
pub proof fn lemma_unresolved_exact(items: Seq<CItem>, assumed: Set<Seq<char>>)
    ensures
        no_repeats(unresolved_of(items, assumed)),
        forall|u: Use|
            #[trigger] unresolved_of(items, assumed).contains(u) <==> items_uses(items).contains(u)
                && !declared_names(items).contains(u.0) && !assumed.contains(u.0),
{
    lemma_keep_exact(Seq::empty(), items_uses(items), declared_names(items), assumed);
}

/// The uses in `us` that do not name `n`.
pub open spec fn without_name(us: Seq<Use>, n: Seq<char>) -> Seq<Use>
    decreases us.len(),
{
    if us.len() == 0 {
        Seq::empty()
    } else if us.last().0 == n {
        without_name(us.drop_last(), n)
    } else {
        without_name(us.drop_last(), n).push(us.last())
    }
}

proof fn lemma_without_name_contains(us: Seq<Use>, n: Seq<char>, u: Use)
    ensures
        without_name(us, n).contains(u) <==> us.contains(u) && u.0 != n,
    decreases us.len(),
{
    if us.len() > 0 {
        lemma_without_name_contains(us.drop_last(), n, u);
        if us.contains(u) && u != us.last() {
            let k = choose|k: int| 0 <= k < us.len() && us[k] == u;
            assert(us.drop_last()[k] == u);
        }
        if us.drop_last().contains(u) {
            let k = choose|k: int| 0 <= k < us.drop_last().len() && us.drop_last()[k] == u;
            assert(us[k] == u);
        }
        if without_name(us.drop_last(), n).contains(u) {
            let k = choose|k: int| 0 <= k < without_name(us.drop_last(), n).len() && without_name(us.drop_last(), n)[k] == u;
            if us.last().0 != n {
                assert(without_name(us, n)[k] == u);
            }
        }
        if us.last().0 != n && u == us.last() {
            assert(without_name(us, n).last() == u);
        }
    }
}

proof fn lemma_keep_assume_one(acc: Seq<Use>, us: Seq<Use>, d: Set<Seq<char>>, s: Set<Seq<char>>, n: Seq<char>)
    ensures
        keep_unresolved(without_name(acc, n), us, d, s.insert(n)) == without_name(keep_unresolved(acc, us, d, s), n),
    decreases us.len(),
{
    if us.len() > 0 {
        let u0 = us[0];
        let next = if d.contains(u0.0) || s.contains(u0.0) || acc.contains(u0) {
            acc
        } else {
            acc.push(u0)
        };
        let acc2 = without_name(acc, n);
        let next2 = if d.contains(u0.0) || s.insert(n).contains(u0.0) || acc2.contains(u0) {
            acc2
        } else {
            acc2.push(u0)
        };
        lemma_without_name_contains(acc, n, u0);
        assert(acc.push(u0).drop_last() == acc);
        assert(next2 == without_name(next, n));
        lemma_keep_assume_one(next, us.drop_first(), d, s, n);
    }
}

/// Assuming one more type declared removes the references to that type from
/// the unresolved ones, and nothing else.
pub proof fn lemma_assume_declared_suppresses_only(items: Seq<CItem>, assumed: Set<Seq<char>>, n: Seq<char>)
    ensures
        unresolved_of(items, assumed.insert(n)) == without_name(unresolved_of(items, assumed), n),
{
    assert(without_name(Seq::<Use>::empty(), n) == Seq::<Use>::empty());
    lemma_keep_assume_one(Seq::empty(), items_uses(items), declared_names(items), assumed, n);
}

fn pair_seen(found: &Vec<UnresolvedType>, name: &String, loc: &String) -> (r: bool)
    ensures
        r == uses_view(found@).contains((name@, loc@)),
{
    let mut i: usize = 0;
    while i < found.len()
        invariant
            i <= found@.len(),
            forall|j: int| 0 <= j < i ==> uses_view(found@)[j] != (name@, loc@),
        decreases found.len() - i,
    {
        if str_eq(found[i].name.as_str(), name.as_str()) && str_eq(found[i].location.as_str(), loc.as_str()) {
            assert(uses_view(found@)[i as int] == (name@, loc@));
            return true;
        }
        i = i + 1;
    }
    false
}

/// Records the unresolved names that `ty` references at `loc`.
fn check_one(
    found: &mut Vec<UnresolvedType>,
    ty: &CType,
    loc: &String,
    declared: &Vec<String>,
    assumed: &Vec<String>,
)
    ensures
        uses_view(final(found)@) == keep_unresolved(
            uses_view(old(found)@),
            sorted_of(referenced_names(*ty)).map_values(|n: Seq<char>| (n, loc@)),
            name_set(declared@),
            name_set(assumed@),
        ),
{
    let mut names: Vec<String> = Vec::new();
    ty.collect_referenced_type_names(&mut names);
    assert(name_set(Seq::<String>::empty()) =~= Set::<Seq<char>>::empty());
    assert(name_set(names@) =~= referenced_names(*ty));
    let sorted = sort_names(&names);
    let ghost us = sorted_of(referenced_names(*ty)).map_values(|n: Seq<char>| (n, loc@));
    let ghost d = name_set(declared@);
    let ghost a = name_set(assumed@);
    let ghost target = keep_unresolved(uses_view(found@), us, d, a);
    let mut k: usize = 0;
    assert(us.subrange(0, us.len() as int) =~= us);
    while k < sorted.len()
        invariant
            k <= sorted@.len(),
            us.len() == sorted@.len(),
            d == name_set(declared@),
            a == name_set(assumed@),
            forall|j: int| 0 <= j < sorted@.len() ==> (#[trigger] us[j]) == (sorted@[j]@, loc@),
            target == keep_unresolved(uses_view(found@), us.subrange(k as int, us.len() as int), d, a),
        decreases sorted.len() - k,
    {
        let ghost rest = us.subrange(k as int, us.len() as int);
        assert(rest.drop_first() =~= us.subrange(k + 1, us.len() as int));
        assert(rest[0] == (sorted@[k as int]@, loc@));
        let n = &sorted[k];
        let ghost before = uses_view(found@);
        let in_declared = contains_name(declared, n.as_str());
        let in_assumed = contains_name(assumed, n.as_str());
        let seen = pair_seen(found, n, loc);
        let skip = in_declared || in_assumed || seen;
        assert(n@ == rest[0].0);
        assert((n@, loc@) == rest[0]);
        assert(in_declared == d.contains(n@));
        assert(in_assumed == a.contains(n@));
        assert(seen == before.contains((n@, loc@)));
        assert(skip == (d.contains(rest[0].0) || a.contains(rest[0].0) || before.contains(rest[0])));
        if !skip {
            found.push(UnresolvedType { name: copy_string(n), location: copy_string(loc) });
            assert(uses_view(found@) =~= before.push((n@, loc@)));
        }
        assert(keep_unresolved(before, rest, d, a) == keep_unresolved(uses_view(found@), rest.drop_first(), d, a));
        k = k + 1;
    }
    assert(us.subrange(sorted@.len() as int, us.len() as int) =~= Seq::<Use>::empty());
}


/// The uses of two runs of checks are those of each, in turn.
pub proof fn lemma_check_uses_concat(a: Seq<Check>, b: Seq<Check>)
    ensures
        check_uses(a + b) == check_uses(a) + check_uses(b),
    decreases b.len(),
{
    if b.len() == 0 {
        assert(a + b =~= a);
        assert(check_uses(a) + check_uses(b) =~= check_uses(a));
    } else {
        assert((a + b).drop_last() =~= a + b.drop_last());
        assert((a + b).last() == b.last());
        lemma_check_uses_concat(a, b.drop_last());
        assert(check_uses(a + b) =~= check_uses(a) + check_uses(b));
    }
}

fn cat3(a: &str, b: &String, c: &str) -> (r: String)
    ensures
        r@ == a@ + b@ + c@,
{
    let mut s = owned(a);
    s.append(b.as_str());
    s.append(c);
    s
}

fn cat5(a: &str, b: &String, c: &str, d: &String, e: &str) -> (r: String)
    ensures
        r@ == a@ + b@ + c@ + d@ + e@,
{
    let mut s = cat3(a, b, c);
    s.append(d.as_str());
    s.append(e);
    s
}

/// Records one check, extending what was found (see [`keep_unresolved`]).
fn check_step(
    found: &mut Vec<UnresolvedType>,
    done: Ghost<Seq<Check>>,
    c: Ghost<Check>,
    ty: &CType,
    loc: &String,
    declared: &Vec<String>,
    assumed: &Vec<String>,
    base: Ghost<Seq<Use>>,
)
    requires
        uses_view(old(found)@) == keep_unresolved(base@, check_uses(done@), name_set(declared@), name_set(assumed@)),
        c@ == (*ty, loc@),
    ensures
        uses_view(final(found)@) == keep_unresolved(
            base@,
            check_uses(done@.push(c@)),
            name_set(declared@),
            name_set(assumed@),
        ),
{
    check_one(found, ty, loc, declared, assumed);
    proof {
        let d = name_set(declared@);
        let a = name_set(assumed@);
        let us = sorted_of(referenced_names(*ty)).map_values(|n: Seq<char>| (n, loc@));
        assert(done@.push(c@).drop_last() =~= done@);
        assert(check_uses(done@.push(c@)) == check_uses(done@) + us);
        lemma_keep_concat(base@, check_uses(done@), us, d, a);
    }
}

fn check_item(found: &mut Vec<UnresolvedType>, item: &CItem, declared: &Vec<String>, assumed: &Vec<String>)
    ensures
        uses_view(final(found)@) == keep_unresolved(
            uses_view(old(found)@),
            check_uses(item_checks(*item)),
            name_set(declared@),
            name_set(assumed@),
        ),
{
    let ghost base = uses_view(found@);
    let ghost d = name_set(declared@);
    let ghost a = name_set(assumed@);
    assert(keep_unresolved(base, Seq::<Use>::empty(), d, a) == base);
    match item {
        CItem::Struct(st) => {
            let mut i: usize = 0;
            while i < st.fields.len()
                invariant
                    i <= st.fields@.len(),
                    uses_view(found@) == keep_unresolved(
                        base,
                        check_uses(field_checks(st.name@, st.fields@.subrange(0, i as int))),
                        name_set(declared@),
                        name_set(assumed@),
                    ),
                decreases st.fields.len() - i,
            {
                let f = &st.fields[i];
                let loc = cat5("struct `", &st.name, "`, field `", &f.name, "`");
                let ghost pre = st.fields@.subrange(0, i as int);
                assert(st.fields@.subrange(0, i + 1).drop_last() =~= pre);
                check_step(found, Ghost(field_checks(st.name@, pre)), Ghost((f.ty, loc@)), &f.ty, &loc, declared, assumed, Ghost(base));
                i = i + 1;
            }
            assert(st.fields@.subrange(0, st.fields@.len() as int) =~= st.fields@);
        },
        CItem::DiscriminatedUnion(u) => {
            let mut j: usize = 0;
            while j < u.variants.len()
                invariant
                    j <= u.variants@.len(),
                    uses_view(found@) == keep_unresolved(
                        base,
                        check_uses(union_checks(u.name@, u.variants@.subrange(0, j as int))),
                        name_set(declared@),
                        name_set(assumed@),
                    ),
                decreases u.variants.len() - j,
            {
                let v = &u.variants[j];
                let ghost done = union_checks(u.name@, u.variants@.subrange(0, j as int));
                let mut i: usize = 0;
                assert(done + variant_checks(u.name@, v.name@, v.fields@.subrange(0, 0)) =~= done);
                while i < v.fields.len()
                    invariant
                        i <= v.fields@.len(),
                        uses_view(found@) == keep_unresolved(
                            base,
                            check_uses(done + variant_checks(u.name@, v.name@, v.fields@.subrange(0, i as int))),
                            name_set(declared@),
                            name_set(assumed@),
                        ),
                    decreases v.fields.len() - i,
                {
                    let f = &v.fields[i];
                    let mut loc = cat5("union `", &u.name, "`, variant `", &v.name, "`, field `");
                    loc.append(f.name.as_str());
                    loc.append("`");
                    let ghost pre = v.fields@.subrange(0, i as int);
                    assert(v.fields@.subrange(0, i + 1).drop_last() =~= pre);
                    let ghost c = (f.ty, loc@);
                    assert(done + variant_checks(u.name@, v.name@, v.fields@.subrange(0, i + 1)) =~= (done
                        + variant_checks(u.name@, v.name@, pre)).push(c));
                    check_step(found, Ghost(done + variant_checks(u.name@, v.name@, pre)), Ghost(c), &f.ty, &loc, declared, assumed, Ghost(base));
                    i = i + 1;
                }
                assert(v.fields@.subrange(0, v.fields@.len() as int) =~= v.fields@);
                assert(u.variants@.subrange(0, j + 1).drop_last() =~= u.variants@.subrange(0, j as int));
                j = j + 1;
            }
            assert(u.variants@.subrange(0, u.variants@.len() as int) =~= u.variants@);
        },
        CItem::Function(f) => {
            let mut i: usize = 0;
            while i < f.params.len()
                invariant
                    i <= f.params@.len(),
                    uses_view(found@) == keep_unresolved(
                        base,
                        check_uses(param_checks(f.name@, f.params@.subrange(0, i as int))),
                        name_set(declared@),
                        name_set(assumed@),
                    ),
                decreases f.params.len() - i,
            {
                let p = &f.params[i];
                let loc = cat5("function `", &f.name, "`, parameter `", &p.name, "`");
                let ghost pre = f.params@.subrange(0, i as int);
                assert(f.params@.subrange(0, i + 1).drop_last() =~= pre);
                check_step(found, Ghost(param_checks(f.name@, pre)), Ghost((p.ty, loc@)), &p.ty, &loc, declared, assumed, Ghost(base));
                i = i + 1;
            }
            assert(f.params@.subrange(0, f.params@.len() as int) =~= f.params@);
            let loc = cat3("function `", &f.name, "`, return type");
            check_step(found, Ghost(param_checks(f.name@, f.params@)), Ghost((f.return_type, loc@)), &f.return_type, &loc, declared, assumed, Ghost(base));
        },
        CItem::Typedef(t) => {
            if let Some(inner) = &t.inner_type {
                let loc = cat3("typedef `", &t.name, "`");
                assert(seq![(*inner, loc@)] =~= Seq::<Check>::empty().push((*inner, loc@)));
                check_step(found, Ghost(Seq::empty()), Ghost((*inner, loc@)), inner, &loc, declared, assumed, Ghost(base));
            }
        },
        CItem::Bitflags(b) => {
            let loc = cat3("bitflags `", &b.name, "`");
            assert(seq![(b.underlying_type, loc@)] =~= Seq::<Check>::empty().push((b.underlying_type, loc@)));
            check_step(found, Ghost(Seq::empty()), Ghost((b.underlying_type, loc@)), &b.underlying_type, &loc, declared, assumed, Ghost(base));
        },
        CItem::Const(c) => {
            let loc = cat3("constant `", &c.name, "`");
            assert(seq![(c.ty, loc@)] =~= Seq::<Check>::empty().push((c.ty, loc@)));
            check_step(found, Ghost(Seq::empty()), Ghost((c.ty, loc@)), &c.ty, &loc, declared, assumed, Ghost(base));
        },
        _ => {},
    }
}

/// Collects every type referenced by `items` that `items` does not also
/// declare, nor `assumed_declared` names (see [`unresolved_of`]).
pub fn find_unresolved(items: &Vec<CItem>, assumed_declared: &Vec<String>) -> (r: Vec<UnresolvedType>)
    ensures
        uses_view(r@) == unresolved_of(items@, name_set(assumed_declared@)),
{
    let mut declared: Vec<String> = Vec::new();
    let mut i: usize = 0;
    while i < items.len()
        invariant
            i <= items@.len(),
            name_set(declared@) == declared_names(items@.subrange(0, i as int)),
        decreases items.len() - i,
    {
        let ghost before = name_set(declared@);
        if !items[i].is_function() {
            insert_name(&mut declared, items[i].name());
        }
        proof {
            let pre = items@.subrange(0, i + 1);
            assert(declared_names(pre) =~= if items@[i as int] is Function {
                declared_names(items@.subrange(0, i as int))
            } else {
                declared_names(items@.subrange(0, i as int)).insert(item_name(items@[i as int]))
            }) by {
                assert forall|n: Seq<char>| declared_names(pre).contains(n) implies (if items@[i as int] is Function {
                    declared_names(items@.subrange(0, i as int))
                } else {
                    declared_names(items@.subrange(0, i as int)).insert(item_name(items@[i as int]))
                }).contains(n) by {
                    let k = choose|k: int| 0 <= k < pre.len() && !(pre[k] is Function) && item_name(#[trigger] pre[k]) == n;
                    if k < i {
                        assert(items@.subrange(0, i as int)[k] == pre[k]);
                    }
                }
                assert forall|n: Seq<char>| (if items@[i as int] is Function {
                    declared_names(items@.subrange(0, i as int))
                } else {
                    declared_names(items@.subrange(0, i as int)).insert(item_name(items@[i as int]))
                }).contains(n) implies declared_names(pre).contains(n) by {
                    if declared_names(items@.subrange(0, i as int)).contains(n) {
                        let k = choose|k: int| 0 <= k < i && !(items@.subrange(0, i as int)[k] is Function) && item_name(#[trigger] items@.subrange(0, i as int)[k]) == n;
                        assert(pre[k] == items@.subrange(0, i as int)[k]);
                    } else {
                        assert(pre[i as int] == items@[i as int]);
                    }
                }
            }
        }
        i = i + 1;
    }
    assert(items@.subrange(0, items@.len() as int) =~= items@);
    let ghost d = name_set(declared@);
    let ghost a = name_set(assumed_declared@);
    let mut found: Vec<UnresolvedType> = Vec::new();
    let mut k: usize = 0;
    while k < items.len()
        invariant
            k <= items@.len(),
            d == name_set(declared@),
            a == name_set(assumed_declared@),
            uses_view(found@) == keep_unresolved(Seq::empty(), items_uses(items@.subrange(0, k as int)), d, a),
        decreases items.len() - k,
    {
        let ghost pre = items@.subrange(0, k as int);
        let ghost before = uses_view(found@);
        check_item(&mut found, &items[k], &declared, assumed_declared);
        proof {
            assert(items@.subrange(0, k + 1).drop_last() =~= pre);
            lemma_keep_concat(Seq::empty(), items_uses(pre), check_uses(item_checks(items@[k as int])), d, a);
        }
        k = k + 1;
    }
    assert(items@.subrange(0, items@.len() as int) =~= items@);
    found
}

/// Why a type cannot be emitted in the position it was used.
#[derive(Debug, Clone, Copy, PartialEq, Eq, Structural)]
#[non_exhaustive]
pub enum UnrepresentableReason {
    /// A slice or vector where the length has nowhere to go.
    SliceOrVector,
    /// A unit or tuple type, which becomes `void` and is only valid as a return type.
    Void,
}

/// A type used somewhere C cannot represent it.
#[derive(Debug, Clone, PartialEq, Eq)]
pub struct UnrepresentableType {
    /// Human-readable description of where it was used.
    pub location: String,
    /// Why it cannot be emitted there.
    pub reason: UnrepresentableReason,
}

/// Whether `t` holds a slice or vector at any depth.
pub open spec fn has_slice_or_vec(t: CType) -> bool
    decreases t, 1nat,
{
    match t {
        CType::Slice { .. } => true,
        CType::Vec { .. } => true,
        CType::Pointer { inner, .. } => has_slice_or_vec(*inner),
        CType::Array { inner, .. } => has_slice_or_vec(*inner),
        CType::FnPointer { return_type, params } => has_slice_or_vec(*return_type) || any_slice_or_vec(params@),
        _ => false,
    }
}

/// Whether some type of `ps` holds a slice or vector.
pub open spec fn any_slice_or_vec(ps: Seq<CType>) -> bool
    decreases ps, 0nat,
{
    if ps.len() == 0 {
        false
    } else {
        any_slice_or_vec(ps.drop_last()) || has_slice_or_vec(ps.last())
    }
}

/// Whether `t` is `void` or an array of it; a pointer to void is fine.
pub open spec fn bare_void(t: CType) -> bool
    decreases t,
{
    match t {
        CType::Void => true,
        CType::Array { inner, .. } => bare_void(*inner),
        _ => false,
    }
}

/// Whether a field of type `t` cannot be emitted: a slice or vector directly
/// in field position expands into members; nested anywhere else it cannot.
pub open spec fn field_unrepresentable(t: CType) -> bool {
    match t {
        CType::Slice { inner, .. } => has_slice_or_vec(*inner),
        CType::Vec { inner, .. } => has_slice_or_vec(*inner),
        _ => has_slice_or_vec(t),
    }
}

/// A place and why its type cannot be emitted there.
pub type Report = (Seq<char>, UnrepresentableReason);

/// What a type at `loc` is reported for: a misplaced slice or vector, then a bare `void`.
pub open spec fn reports_at(t: CType, loc: Seq<char>, is_field: bool) -> Seq<Report> {
    (if (if is_field { field_unrepresentable(t) } else { has_slice_or_vec(t) }) {
        seq![(loc, UnrepresentableReason::SliceOrVector)]
    } else {
        Seq::empty()
    }) + (if bare_void(t) {
        seq![(loc, UnrepresentableReason::Void)]
    } else {
        Seq::empty()
    })
}

/// The reports for the fields of struct `s`.
pub open spec fn field_reports(s: Seq<char>, fs: Seq<CStructField>) -> Seq<Report>
    decreases fs.len(),
{
    if fs.len() == 0 {
        Seq::empty()
    } else {
        field_reports(s, fs.drop_last()) + reports_at(fs.last().ty, field_loc(s, fs.last().name@), true)
    }
}

/// The reports for the fields of variant `v` of union `u`.
pub open spec fn variant_reports(u: Seq<char>, v: Seq<char>, fs: Seq<CStructField>) -> Seq<Report>
    decreases fs.len(),
{
    if fs.len() == 0 {
        Seq::empty()
    } else {
        variant_reports(u, v, fs.drop_last()) + reports_at(fs.last().ty, variant_field_loc(u, v, fs.last().name@), true)
    }
}

/// The reports for the variants of union `u`.
pub open spec fn union_reports(u: Seq<char>, vs: Seq<CTaggedUnionVariant>) -> Seq<Report>
    decreases vs.len(),
{
    if vs.len() == 0 {
        Seq::empty()
    } else {
        union_reports(u, vs.drop_last()) + variant_reports(u, vs.last().name@, vs.last().fields@)
    }
}

/// The reports for the parameters of function `f`.
pub open spec fn param_reports(f: Seq<char>, ps: Seq<CFunctionParam>) -> Seq<Report>
    decreases ps.len(),
{
    if ps.len() == 0 {
        Seq::empty()
    } else {
        param_reports(f, ps.drop_last()) + reports_at(ps.last().ty, param_loc(f, ps.last().name@), false)
    }
}

/// The reports for an item; `void` is legal as a return type, so only the
/// slice rule applies there.
pub open spec fn item_reports(i: CItem) -> Seq<Report> {
    match i {
        CItem::Function(f) => param_reports(f.name@, f.params@) + if has_slice_or_vec(f.return_type) {
            seq![(return_loc(f.name@), UnrepresentableReason::SliceOrVector)]
        } else {
            Seq::empty()
        },
        CItem::Typedef(t) => match t.inner_type {
            Some(ty) => reports_at(ty, "type alias `"@ + t.name@ + "`"@, false),
            None => Seq::empty(),
        },
        CItem::Struct(s) => field_reports(s.name@, s.fields@),
        CItem::DiscriminatedUnion(u) => union_reports(u.name@, u.variants@),
        CItem::Const(c) => reports_at(c.ty, "constant `"@ + c.name@ + "`"@, false),
        _ => Seq::empty(),
    }
}

/// The reports for all of `items`, in order.
pub open spec fn unrepresentable_of(items: Seq<CItem>) -> Seq<Report>
    decreases items.len(),
{
    if items.len() == 0 {
        Seq::empty()
    } else {
        unrepresentable_of(items.drop_last()) + item_reports(items.last())
    }
}

/// The places and reasons of reports.
pub open spec fn reports_view(v: Seq<UnrepresentableType>) -> Seq<Report> {
    v.map_values(|u: UnrepresentableType| (u.location@, u.reason))
}

/// Returns true if `ty` contains a slice or vector at any depth.
pub fn contains_slice_or_vec(ty: &CType) -> (r: bool)
    ensures
        r == has_slice_or_vec(*ty),
    decreases ty,
{
    match ty {
        CType::Slice { .. } | CType::Vec { .. } => true,
        CType::Pointer { inner, .. } | CType::Array { inner, .. } => contains_slice_or_vec(inner),
        CType::FnPointer { return_type, params } => {
            if contains_slice_or_vec(return_type) {
                return true;
            }
            let mut i: usize = 0;
            while i < params.len()
                invariant
                    *ty matches CType::FnPointer { params: p, .. } && p == *params,
                    i <= params@.len(),
                    !any_slice_or_vec(params@.subrange(0, i as int)),
                decreases params.len() - i,
            {
                proof {
                    assert(decreases_to!(*params => params@));
                    assert(decreases_to!(params@ => params@[i as int]));
                }
                assert(params@.subrange(0, i + 1).drop_last() =~= params@.subrange(0, i as int));
                if contains_slice_or_vec(&params[i]) {
                    proof {
                        lemma_any_slice_prefix(params@, i as int + 1);
                    }
                    return true;
                }
                i = i + 1;
            }
            assert(params@.subrange(0, params@.len() as int) =~= params@);
            false
        },
        _ => false,
    }
}

proof fn lemma_any_slice_prefix(ps: Seq<CType>, k: int)
    requires
        0 <= k <= ps.len(),
        any_slice_or_vec(ps.subrange(0, k)),
    ensures
        any_slice_or_vec(ps),
    decreases ps.len() - k,
{
    if k < ps.len() {
        assert(ps.subrange(0, k + 1).drop_last() =~= ps.subrange(0, k));
        lemma_any_slice_prefix(ps, k + 1);
    } else {
        assert(ps.subrange(0, k) =~= ps);
    }
}

/// Returns true if `ty` is `void`, or an array of it.
pub fn is_bare_void(ty: &CType) -> (r: bool)
    ensures
        r == bare_void(*ty),
    decreases ty,
{
    match ty {
        CType::Void => true,
        CType::Array { inner, .. } => is_bare_void(inner),
        _ => false,
    }
}

/// Returns true if a field of type `ty` cannot be emitted correctly.
pub fn field_is_unrepresentable(ty: &CType) -> (r: bool)
    ensures
        r == field_unrepresentable(*ty),
{
    match ty {
        CType::Slice { inner, .. } | CType::Vec { inner, .. } => contains_slice_or_vec(inner),
        _ => contains_slice_or_vec(ty),
    }
}

fn report_at(found: &mut Vec<UnrepresentableType>, ty: &CType, loc: &String, is_field: bool)
    ensures
        reports_view(final(found)@) == reports_view(old(found)@) + reports_at(*ty, loc@, is_field),
{
    let ghost before = reports_view(found@);
    let bad = if is_field {
        field_is_unrepresentable(ty)
    } else {
        contains_slice_or_vec(ty)
    };
    if bad {
        found.push(UnrepresentableType { location: copy_string(loc), reason: UnrepresentableReason::SliceOrVector });
    }
    let ghost mid = reports_view(found@);
    if is_bare_void(ty) {
        found.push(UnrepresentableType { location: copy_string(loc), reason: UnrepresentableReason::Void });
    }
    assert(reports_view(found@) =~= before + reports_at(*ty, loc@, is_field));
}

fn report_item(found: &mut Vec<UnrepresentableType>, item: &CItem)
    ensures
        reports_view(final(found)@) == reports_view(old(found)@) + item_reports(*item),
{
    let ghost base = reports_view(found@);
    match item {
        CItem::Function(f) => {
            let mut i: usize = 0;
            while i < f.params.len()
                invariant
                    i <= f.params@.len(),
                    reports_view(found@) == base + param_reports(f.name@, f.params@.subrange(0, i as int)),
                decreases f.params.len() - i,
            {
                let p = &f.params[i];
                let loc = cat5("function `", &f.name, "`, parameter `", &p.name, "`");
                assert(f.params@.subrange(0, i + 1).drop_last() =~= f.params@.subrange(0, i as int));
                report_at(found, &p.ty, &loc, false);
                i = i + 1;
            }
            assert(f.params@.subrange(0, f.params@.len() as int) =~= f.params@);
            let ghost mid = reports_view(found@);
            assert(mid == base + param_reports(f.name@, f.params@));
            if contains_slice_or_vec(&f.return_type) {
                let loc = cat3("function `", &f.name, "`, return type");
                let ghost l = loc@;
                found.push(UnrepresentableType { location: loc, reason: UnrepresentableReason::SliceOrVector });
                assert(reports_view(found@) =~= mid.push((l, UnrepresentableReason::SliceOrVector)));
                assert(reports_view(found@) =~= base + item_reports(*item));
            } else {
                assert(reports_view(found@) =~= base + item_reports(*item));
            }
        },
        CItem::Typedef(t) => {
            if let Some(inner) = &t.inner_type {
                let loc = cat3("type alias `", &t.name, "`");
                report_at(found, inner, &loc, false);
            } else {
                assert(reports_view(found@) =~= base + item_reports(*item));
            }
        },
        CItem::Struct(st) => {
            let mut i: usize = 0;
            while i < st.fields.len()
                invariant
                    i <= st.fields@.len(),
                    reports_view(found@) == base + field_reports(st.name@, st.fields@.subrange(0, i as int)),
                decreases st.fields.len() - i,
            {
                let f = &st.fields[i];
                let loc = cat5("struct `", &st.name, "`, field `", &f.name, "`");
                assert(st.fields@.subrange(0, i + 1).drop_last() =~= st.fields@.subrange(0, i as int));
                report_at(found, &f.ty, &loc, true);
                assert(reports_view(found@) =~= base + field_reports(st.name@, st.fields@.subrange(0, i + 1)));
                i = i + 1;
            }
            assert(st.fields@.subrange(0, st.fields@.len() as int) =~= st.fields@);
        },
        CItem::DiscriminatedUnion(u) => {
            let mut j: usize = 0;
            while j < u.variants.len()
                invariant
                    j <= u.variants@.len(),
                    reports_view(found@) == base + union_reports(u.name@, u.variants@.subrange(0, j as int)),
                decreases u.variants.len() - j,
            {
                let v = &u.variants[j];
                let ghost mid = reports_view(found@);
                let mut i: usize = 0;
                while i < v.fields.len()
                    invariant
                        i <= v.fields@.len(),
                        reports_view(found@) == mid + variant_reports(u.name@, v.name@, v.fields@.subrange(0, i as int)),
                    decreases v.fields.len() - i,
                {
                    let f = &v.fields[i];
                    let mut loc = cat5("union `", &u.name, "`, variant `", &v.name, "`, field `");
                    loc.append(f.name.as_str());
                    loc.append("`");
                    assert(v.fields@.subrange(0, i + 1).drop_last() =~= v.fields@.subrange(0, i as int));
                    report_at(found, &f.ty, &loc, true);
                    assert(reports_view(found@) =~= mid + variant_reports(u.name@, v.name@, v.fields@.subrange(0, i + 1)));
                    i = i + 1;
                }
                assert(v.fields@.subrange(0, v.fields@.len() as int) =~= v.fields@);
                assert(u.variants@.subrange(0, j + 1).drop_last() =~= u.variants@.subrange(0, j as int));
                assert(reports_view(found@) =~= base + union_reports(u.name@, u.variants@.subrange(0, j + 1)));
                j = j + 1;
            }
            assert(u.variants@.subrange(0, u.variants@.len() as int) =~= u.variants@);
        },
        CItem::Const(c) => {
            let loc = cat3("constant `", &c.name, "`");
            report_at(found, &c.ty, &loc, false);
        },
        _ => {
            assert(reports_view(found@) =~= base + item_reports(*item));
        },
    }
}

/// Finds slice and vector types used where C has no way to carry the length,
/// and `void` used other than as a return type (see [`unrepresentable_of`]).
pub fn find_unrepresentable(items: &Vec<CItem>) -> (r: Vec<UnrepresentableType>)
    ensures
        reports_view(r@) == unrepresentable_of(items@),
{
    let mut found: Vec<UnrepresentableType> = Vec::new();
    let mut k: usize = 0;
    while k < items.len()
        invariant
            k <= items@.len(),
            reports_view(found@) == unrepresentable_of(items@.subrange(0, k as int)),
        decreases items.len() - k,
    {
        assert(items@.subrange(0, k + 1).drop_last() =~= items@.subrange(0, k as int));
        report_item(&mut found, &items[k]);
        k = k + 1;
    }
    assert(items@.subrange(0, items@.len() as int) =~= items@);
    found
}

/// How one unresolved use is described: where it is, then what to use
/// instead or what to check.
pub open spec fn describe_text(name: Seq<char>, loc: Seq<char>) -> Seq<char> {
    "  `"@ + name + "` in "@ + loc + "\n      "@ + match suggestion_text(name) {
        Some(sugg) => "`"@ + name + "` is not FFI-safe: "@ + sugg + ".\n"@,
        None => "no C declaration for `"@ + name
            + "` was found. Check the spelling, that the type is `#[repr(C)]` or `#[repr(transparent)]`, and that its crate is being scanned.\n"@,
    }
}

/// The descriptions of all of `us`.
pub open spec fn describe_all(us: Seq<Use>) -> Seq<char>
    decreases us.len(),
{
    if us.len() == 0 {
        Seq::empty()
    } else {
        describe_all(us.drop_last()) + describe_text(us.last().0, us.last().1)
    }
}

/// The message for unresolved types: a count, the descriptions, and how to
/// declare or allow them.
pub open spec fn unresolved_message(us: Seq<Use>) -> Seq<char> {
    "terraffi could not resolve "@ + crate::convert::dec_text(us.len()) + " "@ + (if us.len() == 1 {
        "type"@
    } else {
        "types"@
    }) + " to a C declaration:\n\n"@ + describe_all(us)
        + "\nEmitting these would produce a header that does not compile. If a type is declared in a header you pull in with `add_include`, list it with `assume_declared(..)`. To downgrade this to a warning, use `allow_unresolved_types()`.\n"@
}

impl UnresolvedType {
    /// Appends how this use is described (see [`describe_text`]).
    pub fn describe(&self, out: &mut String)
        ensures
            final(out)@ == old(out)@ + describe_text(self.name@, self.location@),
    {
        out.append("  `");
        out.append(self.name.as_str());
        out.append("` in ");
        out.append(self.location.as_str());
        out.append("\n      ");
        match suggestion_for(self.name.as_str()) {
            Some(suggestion) => {
                out.append("`");
                out.append(self.name.as_str());
                out.append("` is not FFI-safe: ");
                out.append(suggestion.as_str());
                out.append(".\n");
            },
            None => {
                out.append("no C declaration for `");
                out.append(self.name.as_str());
                out.append(
                    "` was found. Check the spelling, that the type is `#[repr(C)]` or `#[repr(transparent)]`, and that its crate is being scanned.\n",
                );
            },
        }
    }
}

/// Error returned when the generated header would reference undeclared C types.
#[derive(Debug, Clone, PartialEq, Eq)]
pub struct UnresolvedTypesError {
    /// Every unresolved reference found, in a stable order.
    pub unresolved: Vec<UnresolvedType>,
}

impl UnresolvedTypesError {
    /// The error's message (see [`unresolved_message`]).
    pub fn to_string(&self) -> (r: String)
        ensures
            r@ == unresolved_message(uses_view(self.unresolved@)),
    {
        let count = self.unresolved.len();
        let mut out = owned("terraffi could not resolve ");
        let c = crate::convert::dec_string(count);
        out.append(c.as_str());
        out.append(" ");
        if count == 1 {
            out.append("type");
        } else {
            out.append("types");
        }
        out.append(" to a C declaration:\n\n");
        let ghost head = out@;
        let ghost uv = uses_view(self.unresolved@);
        let mut i: usize = 0;
        while i < self.unresolved.len()
            invariant
                i <= self.unresolved@.len(),
                uv == uses_view(self.unresolved@),
                out@ == head + describe_all(uv.subrange(0, i as int)),
            decreases self.unresolved.len() - i,
        {
            assert(uv.subrange(0, i + 1).drop_last() =~= uv.subrange(0, i as int));
            self.unresolved[i].describe(&mut out);
            i = i + 1;
        }
        assert(uv.subrange(0, uv.len() as int) =~= uv);
        out.append(
            "\nEmitting these would produce a header that does not compile. If a type is declared in a header you pull in with `add_include`, list it with `assume_declared(..)`. To downgrade this to a warning, use `allow_unresolved_types()`.\n",
        );
        out
    }
}

/// Why slices and vectors cannot stand outside fields, and what to use instead.
pub const SLICE_EXPLANATION: &'static str = "\n`CSlice`, `CSliceRef`, `CSliceMutRef`, `CVec`, `CVecRef` and `CVecMutRef` are a pointer and a length (and a capacity, for vectors). Terraffi represents them by expanding into adjacent members, which it can only do directly in a struct field or a tagged union variant. In any other position - a function signature, a type alias, behind a pointer, or inside an array - it would emit the pointer alone, dropping the length and mismatching the ABI.\n\nUse `CArrayPtr<T>` or `CArrayPtrMut<T>` with a separate `usize` length, or move the slice into a `#[repr(C)]` struct and use a pointer to that.\n";

/// Why `void` is only a return type, and what to do instead.
pub const VOID_EXPLANATION: &'static str = "\nRust's unit type `()` and tuples have no C representation, so terraffi emits them as `void`. That is only valid as a function's return type: C rejects a `void` field and a `void` parameter as incomplete types.\n\nRemove the field, or give it a concrete `#[repr(C)]` type. A pointer to void is unaffected - `*const c_void` remains `const void*`.\n";

/// Error returned when an item uses a type C has no valid spelling for.
#[derive(Debug, Clone, PartialEq, Eq)]
pub struct UnrepresentableTypesError {
    /// Every offending use, in a stable order.
    pub unrepresentable: Vec<UnrepresentableType>,
}

/// The places of `rs`, one indented line each.
pub open spec fn report_lines(rs: Seq<Report>) -> Seq<char>
    decreases rs.len(),
{
    if rs.len() == 0 {
        Seq::empty()
    } else {
        report_lines(rs.drop_last()) + "  "@ + rs.last().0 + "\n"@
    }
}

/// Whether some report of `rs` has reason `why`.
pub open spec fn has_reason(rs: Seq<Report>, why: UnrepresentableReason) -> bool {
    exists|i: int| 0 <= i < rs.len() && (#[trigger] rs[i]).1 == why
}

/// The message for unrepresentable uses: a count, the places, and an
/// explanation of each reason that occurred.
pub open spec fn unrepresentable_message(rs: Seq<Report>) -> Seq<char> {
    "terraffi found "@ + crate::convert::dec_text(rs.len()) + " "@ + (if rs.len() == 1 {
        "use"@
    } else {
        "uses"@
    }) + " of a type C cannot represent where it was used:\n\n"@ + report_lines(rs) + (if has_reason(
        rs,
        UnrepresentableReason::SliceOrVector,
    ) {
        SLICE_EXPLANATION@
    } else {
        Seq::empty()
    }) + (if has_reason(rs, UnrepresentableReason::Void) {
        VOID_EXPLANATION@
    } else {
        Seq::empty()
    })
}

impl UnrepresentableTypesError {
    /// The error's message (see [`unrepresentable_message`]).
    pub fn to_string(&self) -> (r: String)
        ensures
            r@ == unrepresentable_message(reports_view(self.unrepresentable@)),
    {
        let count = self.unrepresentable.len();
        let mut out = owned("terraffi found ");
        let c = crate::convert::dec_string(count);
        out.append(c.as_str());
        out.append(" ");
        if count == 1 {
            out.append("use");
        } else {
            out.append("uses");
        }
        out.append(" of a type C cannot represent where it was used:\n\n");
        let ghost head = out@;
        let ghost rv = reports_view(self.unrepresentable@);
        let mut has_slice = false;
        let mut has_void = false;
        let mut i: usize = 0;
        while i < self.unrepresentable.len()
            invariant
                i <= self.unrepresentable@.len(),
                rv == reports_view(self.unrepresentable@),
                out@ == head + report_lines(rv.subrange(0, i as int)),
                has_slice == exists|k: int| 0 <= k < i && (#[trigger] rv[k]).1 == UnrepresentableReason::SliceOrVector,
                has_void == exists|k: int| 0 <= k < i && (#[trigger] rv[k]).1 == UnrepresentableReason::Void,
            decreases self.unrepresentable.len() - i,
        {
            let u = &self.unrepresentable[i];
            assert(rv.subrange(0, i + 1).drop_last() =~= rv.subrange(0, i as int));
            assert(rv[i as int] == (u.location@, u.reason));
            out.append("  ");
            out.append(u.location.as_str());
            out.append("\n");
            if u.reason == UnrepresentableReason::SliceOrVector {
                has_slice = true;
            }
            if u.reason == UnrepresentableReason::Void {
                has_void = true;
            }
            i = i + 1;
        }
        assert(rv.subrange(0, rv.len() as int) =~= rv);
        if has_slice {
            out.append(SLICE_EXPLANATION);
        }
        if has_void {
            out.append(VOID_EXPLANATION);
        }
        out
    }
}
} // verus!
