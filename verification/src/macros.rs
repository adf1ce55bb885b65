//! Macro definitions added to the header by the user, given as C text.

use vstd::prelude::*;
use crate::doc::{CDoc, opt_view};
use crate::items::{CMacro, TerraffiExportStatus};
use crate::text::{
    chars_of, string_of, trim, trim_start, trim_chars, starts_with, has_prefix, find_at, find_first,
    find_in, has_char, is_ws, char_is_whitespace, slice_chars, owned,
};

verus! {

/// Where the first whitespace character of `s` is.
pub open spec fn first_ws(s: Seq<char>) -> Option<int> {
    if exists|i: int| 0 <= i < s.len() && is_ws(#[trigger] s[i]) {
        Some(choose|i: int| 0 <= i < s.len() && is_ws(#[trigger] s[i]) && forall|j: int| 0 <= j < i ==> !is_ws(#[trigger] s[j]))
    } else {
        None
    }
}

/// `s` split at its first whitespace character: the text before it, and the
/// rest trimmed; all of `s` and nothing where it has none.
pub open spec fn split_at_ws(s: Seq<char>) -> (Seq<char>, Seq<char>) {
    match first_ws(s) {
        Some(i) => (s.subrange(0, i), trim(s.subrange(i + 1, s.len() as int))),
        None => (s, Seq::empty()),
    }
}

/// The doc, the name and the definition that the text of a macro holds: an
/// optional leading `/** doc */`, then `#define` (which may be left out),
/// then the name, with its parameter list for a function-like macro, and
/// the definition after it.
pub open spec fn macro_parts(value: Seq<char>) -> (Seq<char>, Seq<char>, Seq<char>) {
    let t = trim(value);
    let (doc, d0) = if starts_with(t, "/**"@) {
        match find_first(t, "*/"@) {
            Some(e) => (trim(t.subrange(3, e)), trim(t.subrange(e + 2, t.len() as int))),
            None => (Seq::empty(), t),
        }
    } else {
        (Seq::empty(), t)
    };
    let d1 = trim_start(
        if starts_with(d0, "#define"@) {
            d0.subrange(7, d0.len() as int)
        } else {
            d0
        },
    );
    let (name, def) = if d1.contains('(') {
        match find_first(d1, ")"@) {
            Some(p) => (d1.subrange(0, p + 1), trim(d1.subrange(p + 1, d1.len() as int))),
            None => split_at_ws(d1),
        }
    } else {
        split_at_ws(d1)
    };
    (doc, name, def)
}

fn trim_start_chars(s: &Vec<char>) -> (r: Vec<char>)
    ensures
        r@ == trim_start(s@),
{
    let n = s.len();
    let mut a: usize = 0;
    assert(s@.subrange(0, n as int) =~= s@);
    while a < n && char_is_whitespace(s[a])
        invariant
            a <= n == s@.len(),
            trim_start(s@) == trim_start(s@.subrange(a as int, n as int)),
        decreases n - a,
    {
        assert(s@.subrange(a as int, n as int).drop_first() =~= s@.subrange(a + 1, n as int));
        a = a + 1;
    }
    slice_chars(s, a, n)
}

fn split_chars_at_ws(s: &Vec<char>) -> (r: (Vec<char>, Vec<char>))
    ensures
        (r.0@, r.1@) == split_at_ws(s@),
{
    let n = s.len();
    let mut i: usize = 0;
    while i < n
        invariant
            i <= n == s@.len(),
            forall|j: int| 0 <= j < i ==> !is_ws(#[trigger] s@[j]),
        decreases n - i,
    {
        if char_is_whitespace(s[i]) {
            proof {
                let c = choose|k: int| 0 <= k < s@.len() && is_ws(#[trigger] s@[k]) && forall|j: int| 0 <= j < k ==> !is_ws(#[trigger] s@[j]);
                if c < i {
                } else if c > i {
                    assert(!is_ws(s@[i as int]));
                }
                assert(c == i);
            }
            let rest = slice_chars(s, i + 1, n);
            return (slice_chars(s, 0, i), trim_chars(&rest));
        }
        i = i + 1;
    }
    proof {
        assert(s@.subrange(0, n as int) =~= s@);
    }
    (slice_chars(s, 0, n), Vec::new())
}

impl CMacro {
    /// A macro named `name` (with its parameter list for a function-like
    /// macro) defined as `definition`, with `doc` as its brief.
    pub fn new(name: &str, doc: &str, definition: &str) -> (r: CMacro)
        ensures
            r.name@ == name@,
            r.definition@ == definition@,
            doc@.len() == 0 ==> r.doc.brief is None && r.doc.description is None,
            doc@.len() > 0 ==> opt_view(r.doc.brief) == Some(doc@) && r.doc.description is None,
            r.export_status == TerraffiExportStatus::ExplicitlyExported,
            r.source_order == 0,
    {
        CMacro {
            name: owned(name),
            doc: CDoc::from_text(owned(doc)),
            definition: owned(definition),
            export_status: TerraffiExportStatus::ExplicitlyExported,
            source_order: 0,
        }
    }

    /// Reads a macro from its C text (see [`macro_parts`]). A doc comment
    /// that closes where it opens, `/**/`, is not accepted.
    pub fn from_definition(value: &str) -> (r: CMacro)
        requires
            !starts_with(trim(value@), "/**/"@),
        ensures
            r.name@ == macro_parts(value@).1,
            r.definition@ == macro_parts(value@).2,
            macro_parts(value@).0.len() == 0 ==> r.doc.brief is None && r.doc.description is None,
            macro_parts(value@).0.len() > 0 ==> opt_view(r.doc.brief) == Some(macro_parts(value@).0)
                && r.doc.description is None,
            r.export_status == TerraffiExportStatus::ExplicitlyExported,
            r.source_order == 0,
    {
        let t = trim_chars(&chars_of(value));
        proof {
            reveal_strlit("/**");
            reveal_strlit("*/");
            reveal_strlit("/**/");
            reveal_strlit("#define");
            reveal_strlit(")");
        }
        let mut doc: Vec<char> = Vec::new();
        let mut d0: Vec<char> = Vec::new();
        let mut have_d0 = false;
        if has_prefix(&t, "/**") {
            match find_in(&t, "*/", 0) {
                Some(e) => {
                    proof {
                        crate::text::lemma_find_at_match(t@, "*/"@, 0);
                        reveal_strlit("*/");
                        assert("*/"@.len() == 2);
                        assert(e + 2 <= t@.len());
                        if e < 3 {
                            assert(t@.subrange(e as int, e + 2) == "*/"@);
                            assert(t@.subrange(e as int, e + 2)[0] == t@[e as int]);
                            assert(t@.subrange(e as int, e + 2)[1] == t@[e + 1]);
                            assert(t@.subrange(0, 3) == "/**"@);
                            assert(t@.subrange(0, 3)[0] == t@[0]);
                            assert(t@.subrange(0, 3)[1] == t@[1]);
                            assert(t@.subrange(0, 3)[2] == t@[2]);
                            assert(e == 2);
                            assert(t@.subrange(0, 4) =~= "/**/"@);
                        }
                    }
                    let tl = t.len();
                    let inner = slice_chars(&t, 3, e);
                    doc = trim_chars(&inner);
                    let after = slice_chars(&t, e + 2, tl);
                    d0 = trim_chars(&after);
                    have_d0 = true;
                },
                None => {},
            }
        }
        if !have_d0 {
            d0 = t;
        }
        let d1 = if has_prefix(&d0, "#define") {
            let rest = slice_chars(&d0, 7, d0.len());
            trim_start_chars(&rest)
        } else {
            trim_start_chars(&d0)
        };
        let (name, def) = if has_char(&d1, '(') {
            match find_in(&d1, ")", 0) {
                Some(p) => {
                    let dl = d1.len();
                    proof {
                        reveal_strlit(")");
                        assert(")"@.len() == 1);
                    }
                    let rest = slice_chars(&d1, p + 1, dl);
                    (slice_chars(&d1, 0, p + 1), trim_chars(&rest))
                },
                None => split_chars_at_ws(&d1),
            }
        } else {
            split_chars_at_ws(&d1)
        };
        CMacro {
            name: string_of(name.as_slice()),
            doc: CDoc::from_text(string_of(doc.as_slice())),
            definition: string_of(def.as_slice()),
            export_status: TerraffiExportStatus::ExplicitlyExported,
            source_order: 0,
        }
    }
}

} // verus!
