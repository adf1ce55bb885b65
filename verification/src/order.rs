//! Lexicographic order on names, and names listed in that order.

use vstd::prelude::*;
use crate::config::name_set;
use crate::text::{chars_of, copy_string};

verus! {

/// Whether `a` sorts strictly before `b`, character by character; for UTF-8
/// strings this is the order that comparing their bytes gives.
pub open spec fn lex_lt(a: Seq<char>, b: Seq<char>) -> bool
    decreases a.len(),
{
    if a.len() == 0 {
        b.len() > 0
    } else if b.len() == 0 {
        false
    } else if a[0] < b[0] {
        true
    } else if a[0] > b[0] {
        false
    } else {
        lex_lt(a.drop_first(), b.drop_first())
    }
}

/// No name sorts before itself.
pub proof fn lemma_lex_irreflexive(a: Seq<char>)
    ensures
        !lex_lt(a, a),
    decreases a.len(),
{
    if a.len() > 0 {
        lemma_lex_irreflexive(a.drop_first());
    }
}

/// The order is transitive.
pub proof fn lemma_lex_transitive(a: Seq<char>, b: Seq<char>, c: Seq<char>)
    requires
        lex_lt(a, b),
        lex_lt(b, c),
    ensures
        lex_lt(a, c),
    decreases a.len(),
{
    if a.len() > 0 && b.len() > 0 && c.len() > 0 {
        if a[0] == b[0] && b[0] == c[0] {
            lemma_lex_transitive(a.drop_first(), b.drop_first(), c.drop_first());
        }
    }
}

/// Distinct names are ordered one way or the other.
pub proof fn lemma_lex_total(a: Seq<char>, b: Seq<char>)
    requires
        a != b,
    ensures
        lex_lt(a, b) || lex_lt(b, a),
    decreases a.len(),
{
    if a.len() > 0 && b.len() > 0 && a[0] == b[0] {
        if a.drop_first() == b.drop_first() {
            assert(a =~= seq![a[0]] + a.drop_first());
            assert(b =~= seq![b[0]] + b.drop_first());
        }
        lemma_lex_total(a.drop_first(), b.drop_first());
    } else if a.len() == 0 && b.len() == 0 {
        assert(a =~= b);
    }
}

/// No two names sort both ways.
pub proof fn lemma_lex_asymmetric(a: Seq<char>, b: Seq<char>)
    requires
        lex_lt(a, b),
    ensures
        !lex_lt(b, a),
{
    if lex_lt(b, a) {
        lemma_lex_transitive(a, b, a);
        lemma_lex_irreflexive(a);
    }
}

/// Whether `s` lists its names in strictly increasing order.
pub open spec fn strictly_sorted(s: Seq<Seq<char>>) -> bool {
    forall|i: int, j: int| 0 <= i < j < s.len() ==> lex_lt(#[trigger] s[i], #[trigger] s[j])
}

/// The names of `ns` in increasing order.
pub open spec fn sorted_of(ns: Set<Seq<char>>) -> Seq<Seq<char>> {
    choose|s: Seq<Seq<char>>| strictly_sorted(s) && s.to_set() == ns
}

/// Two strictly sorted listings of the same names are the same.
pub proof fn lemma_sorted_unique(s1: Seq<Seq<char>>, s2: Seq<Seq<char>>)
    requires
        strictly_sorted(s1),
        strictly_sorted(s2),
        s1.to_set() == s2.to_set(),
    ensures
        s1 == s2,
    decreases s1.len(),
{
    if s1.len() == 0 {
        if s2.len() > 0 {
            assert(s2.to_set().contains(s2[0]));
        }
        assert(s1 =~= s2);
    } else if s2.len() == 0 {
        assert(s1.to_set().contains(s1[0]));
    } else {
        let a = s1[0];
        let b = s2[0];
        assert(s1.to_set().contains(a));
        assert(s2.to_set().contains(b));
        if a != b {
            assert(s2.contains(a));
            let j = choose|j: int| 0 <= j < s2.len() && s2[j] == a;
            assert(s1.contains(b));
            let k = choose|k: int| 0 <= k < s1.len() && s1[k] == b;
            assert(j > 0 && k > 0);
            assert(lex_lt(b, a));
            assert(lex_lt(a, b));
            lemma_lex_asymmetric(a, b);
        }
        let t1 = s1.drop_first();
        let t2 = s2.drop_first();
        assert forall|x: Seq<char>| t1.to_set().contains(x) == t2.to_set().contains(x) by {
            if t1.contains(x) {
                let i = choose|i: int| 0 <= i < t1.len() && t1[i] == x;
                assert(s1[i + 1] == x);
                assert(lex_lt(a, x));
                lemma_lex_irreflexive(a);
                assert(s1.contains(x));
                assert(s1.to_set().contains(x));
                assert(s2.to_set().contains(x));
                assert(s2.contains(x));
                let m = choose|m: int| 0 <= m < s2.len() && s2[m] == x;
                assert(m != 0);
                assert(t2[m - 1] == x);
            }
            if t2.contains(x) {
                let i = choose|i: int| 0 <= i < t2.len() && t2[i] == x;
                assert(s2[i + 1] == x);
                assert(lex_lt(b, x));
                lemma_lex_irreflexive(b);
                assert(s2.contains(x));
                assert(s2.to_set().contains(x));
                assert(s1.to_set().contains(x));
                assert(s1.contains(x));
                let m = choose|m: int| 0 <= m < s1.len() && s1[m] == x;
                assert(m != 0);
                assert(t1[m - 1] == x);
            }
        }
        assert(t1.to_set() =~= t2.to_set());
        lemma_sorted_unique(t1, t2);
        assert(s1 =~= seq![a] + t1);
        assert(s2 =~= seq![b] + t2);
    }
}

/// Whether `a` sorts strictly before `b`.
pub fn lex_less(a: &Vec<char>, b: &Vec<char>) -> (r: bool)
    ensures
        r == lex_lt(a@, b@),
{
    let mut i: usize = 0;
    assert(a@.subrange(0, a@.len() as int) =~= a@);
    assert(b@.subrange(0, b@.len() as int) =~= b@);
    while i < a.len() && i < b.len()
        invariant
            i <= a@.len(),
            i <= b@.len(),
            a@.subrange(0, i as int) == b@.subrange(0, i as int),
            lex_lt(a@, b@) == lex_lt(a@.subrange(i as int, a@.len() as int), b@.subrange(i as int, b@.len() as int)),
        decreases a.len() - i,
    {
        let x = a[i];
        let y = b[i];
        let ghost ra = a@.subrange(i as int, a@.len() as int);
        let ghost rb = b@.subrange(i as int, b@.len() as int);
        if x < y {
            return true;
        }
        if x > y {
            return false;
        }
        assert(ra.drop_first() =~= a@.subrange(i + 1, a@.len() as int));
        assert(rb.drop_first() =~= b@.subrange(i + 1, b@.len() as int));
        assert(a@[i as int] == b@[i as int]);
        assert(a@.subrange(0, i + 1) =~= a@.subrange(0, i as int).push(a@[i as int]));
        assert(b@.subrange(0, i + 1) =~= b@.subrange(0, i as int).push(b@[i as int]));
        i = i + 1;
    }
    i < b.len()
}

/// The names of `names`, without repeats, in increasing order.
pub fn sort_names(names: &Vec<String>) -> (r: Vec<String>)
    ensures
        r@.map_values(|s: String| s@) == sorted_of(name_set(names@)),
{
    let mut out: Vec<String> = Vec::new();
    let ghost mut view: Seq<Seq<char>> = Seq::empty();
    let mut i: usize = 0;
    while i < names.len()
        invariant
            i <= names@.len(),
            view == out@.map_values(|s: String| s@),
            strictly_sorted(view),
            view.to_set() == name_set(names@.subrange(0, i as int)),
        decreases names.len() - i,
    {
        let nv = chars_of(names[i].as_str());
        let mut p: usize = 0;
        while p < out.len() && lex_less(&chars_of(out[p].as_str()), &nv)
            invariant
                p <= out@.len(),
                view == out@.map_values(|s: String| s@),
                strictly_sorted(view),
                nv@ == names@[i as int]@,
                i < names@.len(),
                forall|k: int| 0 <= k < p ==> lex_lt(#[trigger] view[k], nv@),
            decreases out.len() - p,
        {
            p = p + 1;
        }
        let dup = p < out.len() && !lex_less(&nv, &chars_of(out[p].as_str()));
        proof {
            if p < view.len() {
                assert(view[p as int] == out@[p as int]@);
                if dup && view[p as int] != nv@ {
                    lemma_lex_total(view[p as int], nv@);
                }
                if !dup {
                    assert(lex_lt(nv@, view[p as int]));
                }
            }
        }
        let ghost sub = names@.subrange(0, i + 1);
        assert(sub.drop_last() =~= names@.subrange(0, i as int));
        if !dup {
            proof {
                assert forall|k: int| p <= k < view.len() implies lex_lt(nv@, #[trigger] view[k]) by {
                    if k > p {
                        lemma_lex_transitive(nv@, view[p as int], view[k]);
                    }
                }
            }
            let ghost old_view = view;
            out.insert(p, copy_string(&names[i]));
            proof {
                view = old_view.insert(p as int, nv@);
                assert(view =~= out@.map_values(|s: String| s@));
                assert forall|a: int, b: int| 0 <= a < b < view.len() implies lex_lt(
                    #[trigger] view[a],
                    #[trigger] view[b],
                ) by {
                    if b < p {
                        assert(view[a] == old_view[a]);
                        assert(view[b] == old_view[b]);
                    } else if b == p {
                        assert(view[a] == old_view[a]);
                    } else if a < p {
                        assert(view[a] == old_view[a]);
                        assert(view[b] == old_view[b - 1]);
                    } else if a == p {
                        assert(view[b] == old_view[b - 1]);
                    } else {
                        assert(view[a] == old_view[a - 1]);
                        assert(view[b] == old_view[b - 1]);
                    }
                }
                assert(view.to_set() =~= old_view.to_set().insert(nv@)) by {
                    assert forall|x: Seq<char>| view.to_set().contains(x) == old_view.to_set().insert(nv@).contains(x) by {
                        if view.contains(x) {
                            let k = choose|k: int| 0 <= k < view.len() && view[k] == x;
                            if k < p {
                                assert(old_view[k] == x);
                            } else if k > p {
                                assert(old_view[k - 1] == x);
                            }
                        }
                        if old_view.contains(x) {
                            let k = choose|k: int| 0 <= k < old_view.len() && old_view[k] == x;
                            if k < p {
                                assert(view[k] == x);
                            } else {
                                assert(view[k + 1] == x);
                            }
                        }
                        if x == nv@ {
                            assert(view[p as int] == x);
                        }
                    }
                }
                assert(name_set(sub) =~= name_set(names@.subrange(0, i as int)).insert(nv@)) by {
                    assert forall|x: Seq<char>| name_set(sub).contains(x) == name_set(names@.subrange(0, i as int)).insert(nv@).contains(x) by {
                        if name_set(sub).contains(x) {
                            let k = choose|k: int| 0 <= k < sub.len() && (#[trigger] sub[k])@ == x;
                            if k < i {
                                assert(names@.subrange(0, i as int)[k] == sub[k]);
                            }
                        }
                        if name_set(names@.subrange(0, i as int)).contains(x) {
                            let k = choose|k: int| 0 <= k < i && (#[trigger] names@.subrange(0, i as int)[k])@ == x;
                            assert(sub[k] == names@.subrange(0, i as int)[k]);
                        }
                        if x == nv@ {
                            assert(sub[i as int]@ == x);
                        }
                    }
                }
            }
        } else {
            proof {
                assert(view.contains(nv@)) by {
                    assert(view[p as int] == nv@);
                }
                assert(view.to_set() =~= view.to_set().insert(nv@));
                assert(name_set(sub) =~= name_set(names@.subrange(0, i as int)).insert(nv@)) by {
                    assert forall|x: Seq<char>| name_set(sub).contains(x) == name_set(names@.subrange(0, i as int)).insert(nv@).contains(x) by {
                        if name_set(sub).contains(x) {
                            let k = choose|k: int| 0 <= k < sub.len() && (#[trigger] sub[k])@ == x;
                            if k < i {
                                assert(names@.subrange(0, i as int)[k] == sub[k]);
                            }
                        }
                        if name_set(names@.subrange(0, i as int)).contains(x) {
                            let k = choose|k: int| 0 <= k < i && (#[trigger] names@.subrange(0, i as int)[k])@ == x;
                            assert(sub[k] == names@.subrange(0, i as int)[k]);
                        }
                        if x == nv@ {
                            assert(sub[i as int]@ == x);
                        }
                    }
                }
            }
        }
        i = i + 1;
    }
    assert(names@.subrange(0, names@.len() as int) =~= names@);
    proof {
        let s = sorted_of(name_set(names@));
        assert(strictly_sorted(view) && view.to_set() == name_set(names@));
        lemma_sorted_unique(s, view);
    }
    out
}

} // verus!
