//! `bitflags!` invocations read from their tokens.

use vstd::prelude::*;
use crate::convert::status_of;
use crate::ctype::{CType, c_scalar_layout, rust_scalar_layout, is_integer_layout};
use crate::doc::{CDoc, doc_view, attrs_doc, opt_view};
use crate::items::{CBitflags, CBitflagsConstant, TerraffiExportStatus};
use crate::literal::{tokens_c, rust_literal_tokens_to_c, is_punct, ident_of};
use crate::syntax::{RustAttr, RustToken, RustMacro, RustDelimiter, MetaKind, is_ident_token, token_text};
use crate::text::{owned, copy_string, str_eq};

verus! {

/// Whether `t` is a group delimited by `d`.
pub open spec fn is_group_of(t: RustToken, d: RustDelimiter) -> bool {
    match t {
        RustToken::Group { delimiter, .. } => delimiter == d,
        _ => false,
    }
}

/// Where the `struct` keyword of a `bitflags!` body stands, reading from `i`,
/// and the positions of the attribute and visibility tokens before it.
pub open spec fn bf_prefix(ts: Seq<RustToken>, i: int) -> (int, Seq<int>)
    decreases ts.len() - i,
{
    if i < 0 || i >= ts.len() {
        (ts.len() as int, Seq::empty())
    } else if is_punct(ts[i], '#') {
        if i + 1 < ts.len() && ts[i + 1] is Group {
            let (e, rest) = bf_prefix(ts, i + 2);
            (e, seq![i, i + 1] + rest)
        } else {
            let (e, rest) = bf_prefix(ts, i + 1);
            (e, seq![i] + rest)
        }
    } else if is_ident_token(ts[i], "pub"@) || is_ident_token(ts[i], "crate"@) {
        if i + 1 < ts.len() && is_group_of(ts[i + 1], RustDelimiter::Parenthesis) {
            let (e, rest) = bf_prefix(ts, i + 2);
            (e, seq![i, i + 1] + rest)
        } else {
            let (e, rest) = bf_prefix(ts, i + 1);
            (e, seq![i] + rest)
        }
    } else if is_ident_token(ts[i], "struct"@) {
        (i, Seq::empty())
    } else {
        bf_prefix(ts, i + 1)
    }
}

/// The attributes and visibility that the tokens `p` declare, when they read
/// as attributes followed by an optional visibility; the flag tells whether
/// the visibility is a plain `pub`.
pub open spec fn parse_prefix(p: Seq<RustToken>) -> Option<(Seq<RustAttr>, bool)>
    decreases p.len(),
{
    if p.len() == 0 {
        Some((Seq::empty(), false))
    } else if is_punct(p[0], '#') {
        if p.len() >= 2 && is_group_of(p[1], RustDelimiter::Bracket) && p[1]->Group_attr is Some {
            match parse_prefix(p.subrange(2, p.len() as int)) {
                Some((r, v)) => Some((seq![p[1]->Group_attr.unwrap()] + r, v)),
                None => None,
            }
        } else {
            None
        }
    } else if is_ident_token(p[0], "pub"@) {
        if p.len() == 1 {
            Some((Seq::empty(), true))
        } else if p.len() == 2 && is_group_of(p[1], RustDelimiter::Parenthesis) {
            Some((Seq::empty(), false))
        } else {
            None
        }
    } else {
        None
    }
}

/// The tokens of `ts` at the positions `idxs`.
pub open spec fn at_positions(ts: Seq<RustToken>, idxs: Seq<int>) -> Seq<RustToken> {
    idxs.map_values(|k: int| ts[k])
}

/// The export status and doc that the attributes and visibility of a
/// `bitflags!` body give: those of the declared attributes, or none at all
/// when the prefix does not read as attributes and a visibility.
pub open spec fn bf_head(ts: Seq<RustToken>) -> (TerraffiExportStatus, (Option<Seq<char>>, Option<Seq<char>>)) {
    match parse_prefix(at_positions(ts, bf_prefix(ts, 0).1)) {
        Some((attrs, is_pub)) => (status_of(attrs, is_pub), attrs_doc(attrs)),
        None => (TerraffiExportStatus::NotExported, (None, None)),
    }
}

/// The position of the first `;` from `j` on, or the length.
pub open spec fn semicolon_end(ts: Seq<RustToken>, j: int) -> int
    decreases ts.len() - j,
{
    if j < 0 || j >= ts.len() {
        ts.len() as int
    } else if is_punct(ts[j], ';') {
        j
    } else {
        semicolon_end(ts, j + 1)
    }
}

/// The doc of a flag whose attribute tokens run from `ps` to `j`.
pub open spec fn pending_doc(ts: Seq<RustToken>, ps: int, j: int) -> (Option<Seq<char>>, Option<Seq<char>>) {
    if ps < j {
        match parse_prefix(ts.subrange(ps, j)) {
            Some((attrs, _)) => attrs_doc(attrs),
            None => (None, None),
        }
    } else {
        (None, None)
    }
}

/// A flag: its name, its doc and its value spelled in C.
pub type FlagView = (Seq<char>, (Option<Seq<char>>, Option<Seq<char>>), Seq<char>);

/// The flags declared in the body tokens `ts` from position `j` on, the
/// attribute tokens of the next one starting at `ps`: each `const NAME = value;`
/// is a flag, and `const _ = ...;` is skipped.
pub open spec fn bf_consts(ts: Seq<RustToken>, j: int, ps: int) -> Seq<FlagView>
    decreases ts.len() + 2 - j,
{
    if j < 0 || j >= ts.len() {
        Seq::empty()
    } else if is_punct(ts[j], '#') {
        if j + 1 < ts.len() && ts[j + 1] is Group {
            bf_consts(ts, j + 2, ps)
        } else {
            bf_consts(ts, j + 1, ps)
        }
    } else if is_ident_token(ts[j], "const"@) {
        let j1 = j + 1;
        if j1 < ts.len() && ts[j1] is Ident {
            proof {
                lemma_semicolon_end(ts, j1);
                lemma_semicolon_end(ts, j1 + 2);
                lemma_semicolon_end(ts, j1 + 1);
            }
            if ident_of(ts[j1]) == "_"@ {
                let e = semicolon_end(ts, j1);
                let next = if e < ts.len() {
                    e + 1
                } else {
                    e
                };
                bf_consts(ts, next, next)
            } else {
                let j2 = j1 + 1;
                let j3 = if j2 < ts.len() && is_punct(ts[j2], '=') {
                    j2 + 1
                } else {
                    j2
                };
                let e = semicolon_end(ts, j3);
                let next = if e < ts.len() {
                    e + 1
                } else {
                    e
                };
                seq![(ident_of(ts[j1]), pending_doc(ts, ps, j), tokens_c(ts.subrange(j3, e)))]
                    + bf_consts(ts, next, next)
            }
        } else {
            bf_consts(ts, j1 + 1, j1 + 1)
        }
    } else {
        bf_consts(ts, j + 1, j + 1)
    }
}

/// Where the first `;` from `j` on stands.
pub proof fn lemma_semicolon_end(ts: Seq<RustToken>, j: int)
    ensures
        0 <= j <= ts.len() ==> j <= semicolon_end(ts, j) <= ts.len(),
        j > ts.len() ==> semicolon_end(ts, j) == ts.len(),
    decreases ts.len() - j,
{
    if 0 <= j < ts.len() && !is_punct(ts[j], ';') {
        lemma_semicolon_end(ts, j + 1);
    }
}

/// The C type of a `bitflags!` underlying integer type.
pub open spec fn flags_int(id: Seq<char>) -> Option<CType> {
    if id == "u8"@ {
        Some(CType::UInt8)
    } else if id == "u16"@ {
        Some(CType::UInt16)
    } else if id == "u32"@ {
        Some(CType::UInt32)
    } else if id == "u64"@ {
        Some(CType::UInt64)
    } else if id == "i8"@ {
        Some(CType::Int8)
    } else if id == "i16"@ {
        Some(CType::Int16)
    } else if id == "i32"@ {
        Some(CType::Int32)
    } else if id == "i64"@ {
        Some(CType::Int64)
    } else {
        None
    }
}

/// The typedef of a `bitflags!` type has the integer type it was declared
/// over: each underlying `uN`/`iN` gives the C integer of the same
/// signedness and width, and every fixed-width integer of at most 64 bits is
/// accepted as an underlying type.
pub proof fn lemma_flags_underlying_layout(id: Seq<char>)
    ensures
        flags_int(id) matches Some(c) ==> c_scalar_layout(c) == rust_scalar_layout(id) && is_integer_layout(
            rust_scalar_layout(id),
        ),
        is_integer_layout(rust_scalar_layout(id)) && id != "isize"@ && id != "usize"@ ==> flags_int(id) is Some,
{
    broadcast use vstd::layout::layout_of_primitives;
    reveal_strlit("f32");
    reveal_strlit("f64");
    reveal_strlit("i8");
    reveal_strlit("i16");
    reveal_strlit("i32");
    reveal_strlit("i64");
    reveal_strlit("isize");
    reveal_strlit("u8");
    reveal_strlit("u16");
    reveal_strlit("u32");
    reveal_strlit("u64");
    reveal_strlit("usize");
    reveal_strlit("bool");
    if id == "u8"@ {
        assert("u8"@.len() != "f32"@.len()); assert("u8"@ != "f32"@);
        assert("u8"@.len() != "f64"@.len()); assert("u8"@ != "f64"@);
        assert("u8"@[0] != "i8"@[0]); assert("u8"@ != "i8"@);
        assert("u8"@.len() != "i16"@.len()); assert("u8"@ != "i16"@);
        assert("u8"@.len() != "i32"@.len()); assert("u8"@ != "i32"@);
        assert("u8"@.len() != "i64"@.len()); assert("u8"@ != "i64"@);
        assert("u8"@.len() != "isize"@.len()); assert("u8"@ != "isize"@);
    }
    if id == "u16"@ {
        assert("u16"@[0] != "f32"@[0]); assert("u16"@ != "f32"@);
        assert("u16"@[0] != "f64"@[0]); assert("u16"@ != "f64"@);
        assert("u16"@.len() != "i8"@.len()); assert("u16"@ != "i8"@);
        assert("u16"@[0] != "i16"@[0]); assert("u16"@ != "i16"@);
        assert("u16"@[0] != "i32"@[0]); assert("u16"@ != "i32"@);
        assert("u16"@[0] != "i64"@[0]); assert("u16"@ != "i64"@);
        assert("u16"@.len() != "isize"@.len()); assert("u16"@ != "isize"@);
        assert("u16"@.len() != "u8"@.len()); assert("u16"@ != "u8"@);
    }
    if id == "u32"@ {
        assert("u32"@[0] != "f32"@[0]); assert("u32"@ != "f32"@);
        assert("u32"@[0] != "f64"@[0]); assert("u32"@ != "f64"@);
        assert("u32"@.len() != "i8"@.len()); assert("u32"@ != "i8"@);
        assert("u32"@[0] != "i16"@[0]); assert("u32"@ != "i16"@);
        assert("u32"@[0] != "i32"@[0]); assert("u32"@ != "i32"@);
        assert("u32"@[0] != "i64"@[0]); assert("u32"@ != "i64"@);
        assert("u32"@.len() != "isize"@.len()); assert("u32"@ != "isize"@);
        assert("u32"@.len() != "u8"@.len()); assert("u32"@ != "u8"@);
        assert("u32"@[1] != "u16"@[1]); assert("u32"@ != "u16"@);
    }
    if id == "u64"@ {
        assert("u64"@[0] != "f32"@[0]); assert("u64"@ != "f32"@);
        assert("u64"@[0] != "f64"@[0]); assert("u64"@ != "f64"@);
        assert("u64"@.len() != "i8"@.len()); assert("u64"@ != "i8"@);
        assert("u64"@[0] != "i16"@[0]); assert("u64"@ != "i16"@);
        assert("u64"@[0] != "i32"@[0]); assert("u64"@ != "i32"@);
        assert("u64"@[0] != "i64"@[0]); assert("u64"@ != "i64"@);
        assert("u64"@.len() != "isize"@.len()); assert("u64"@ != "isize"@);
        assert("u64"@.len() != "u8"@.len()); assert("u64"@ != "u8"@);
        assert("u64"@[1] != "u16"@[1]); assert("u64"@ != "u16"@);
        assert("u64"@[1] != "u32"@[1]); assert("u64"@ != "u32"@);
    }
    if id == "i8"@ {
        assert("i8"@.len() != "f32"@.len()); assert("i8"@ != "f32"@);
        assert("i8"@.len() != "f64"@.len()); assert("i8"@ != "f64"@);
    }
    if id == "i16"@ {
        assert("i16"@[0] != "f32"@[0]); assert("i16"@ != "f32"@);
        assert("i16"@[0] != "f64"@[0]); assert("i16"@ != "f64"@);
        assert("i16"@.len() != "i8"@.len()); assert("i16"@ != "i8"@);
    }
    if id == "i32"@ {
        assert("i32"@[0] != "f32"@[0]); assert("i32"@ != "f32"@);
        assert("i32"@[0] != "f64"@[0]); assert("i32"@ != "f64"@);
        assert("i32"@.len() != "i8"@.len()); assert("i32"@ != "i8"@);
        assert("i32"@[1] != "i16"@[1]); assert("i32"@ != "i16"@);
    }
    if id == "i64"@ {
        assert("i64"@[0] != "f32"@[0]); assert("i64"@ != "f32"@);
        assert("i64"@[0] != "f64"@[0]); assert("i64"@ != "f64"@);
        assert("i64"@.len() != "i8"@.len()); assert("i64"@ != "i8"@);
        assert("i64"@[1] != "i16"@[1]); assert("i64"@ != "i16"@);
        assert("i64"@[1] != "i32"@[1]); assert("i64"@ != "i32"@);
    }
}

/// How a token missing from its expected place is described in an error.
pub open spec fn token_desc(ts: Seq<RustToken>, i: int) -> Seq<char> {
    if 0 <= i < ts.len() {
        "Some("@ + token_text(ts[i]) + ")"@
    } else {
        "None"@
    }
}

/// Why a `bitflags!` body is refused, if it is: each step after `struct`
/// expects a name, `:`, an integer type and a braced body, in that order.
pub open spec fn bf_error(ts: Seq<RustToken>) -> Option<Seq<char>> {
    let s = bf_prefix(ts, 0).0;
    let n = s + 1;
    if !(0 <= n < ts.len() && ts[n] is Ident) {
        Some("Invalid bitflags type name token '"@ + token_desc(ts, n) + "'"@)
    } else if !(n + 1 < ts.len() && is_punct(ts[n + 1], ':')) {
        Some("Expected ':' character after bitflags type name"@)
    } else if !(n + 2 < ts.len() && ts[n + 2] is Ident) {
        Some("Invalid bitflags underlying type name token '"@ + token_desc(ts, n + 2) + "'"@)
    } else if flags_int(ident_of(ts[n + 2])) is None {
        Some("Invalid underlying type '"@ + ident_of(ts[n + 2]) + "'"@)
    } else if !(n + 3 < ts.len() && is_group_of(ts[n + 3], RustDelimiter::Brace)) {
        Some("Expected '{' after bitflags underlying type"@)
    } else {
        None
    }
}

/// The flags of a type: each one's name, doc and value.
pub open spec fn flags_view(cs: Seq<CBitflagsConstant>) -> Seq<FlagView> {
    cs.map_values(|c: CBitflagsConstant| (c.name@, doc_view(c.doc), c.value@))
}

/// Whether `b` is what an accepted `bitflags!` body `ts` becomes at `order`.
pub open spec fn bitflags_of(b: CBitflags, ts: Seq<RustToken>, order: usize) -> bool {
    let n = bf_prefix(ts, 0).0 + 1;
    let head = bf_head(ts);
    &&& b.name@ == ident_of(ts[n])
    &&& b.export_status == head.0
    &&& doc_view(b.doc) == head.1
    &&& b.source_order == order
    &&& flags_int(ident_of(ts[n + 2])) matches Some(t) && b.underlying_type == t
    &&& ts[n + 3] matches RustToken::Group { tokens, .. } && flags_view(b.constants@) == bf_consts(
        tokens@,
        0,
        0,
    )
}

/// The name, kind and string value of an attribute: all that the export
/// status and the doc read.
pub open spec fn attr_head(a: RustAttr) -> (Option<Seq<char>>, MetaKind, Option<Seq<char>>) {
    (opt_view(a.path_ident), a.kind, opt_view(a.str_value))
}

/// Attributes with equal heads give equal export statuses and docs.
pub proof fn lemma_heads_agree(a: Seq<RustAttr>, b: Seq<RustAttr>, is_pub: bool)
    requires
        a.len() == b.len(),
        forall|i: int| 0 <= i < a.len() ==> attr_head(#[trigger] a[i]) == attr_head(b[i]),
    ensures
        status_of(a, is_pub) == status_of(b, is_pub),
        attrs_doc(a) == attrs_doc(b),
{
    assert forall|n: Seq<char>| crate::syntax::has_attr(a, n) == crate::syntax::has_attr(b, n) by {
        if crate::syntax::has_attr(a, n) {
            let i = choose|i: int| 0 <= i < a.len() && crate::syntax::attr_named(#[trigger] a[i], n);
            assert(attr_head(a[i]) == attr_head(b[i]));
            assert(crate::syntax::attr_named(b[i], n));
        }
        if crate::syntax::has_attr(b, n) {
            let i = choose|i: int| 0 <= i < b.len() && crate::syntax::attr_named(#[trigger] b[i], n);
            assert(attr_head(a[i]) == attr_head(b[i]));
            assert(crate::syntax::attr_named(a[i], n));
        }
    }
    lemma_doc_lines_agree(a, b);
}

proof fn lemma_doc_lines_agree(a: Seq<RustAttr>, b: Seq<RustAttr>)
    requires
        a.len() == b.len(),
        forall|i: int| 0 <= i < a.len() ==> attr_head(#[trigger] a[i]) == attr_head(b[i]),
    ensures
        crate::doc::doc_lines(a) == crate::doc::doc_lines(b),
    decreases a.len(),
{
    if a.len() > 0 {
        assert forall|i: int| 0 <= i < a.drop_last().len() implies attr_head(
            #[trigger] a.drop_last()[i],
        ) == attr_head(b.drop_last()[i]) by {
            assert(a.drop_last()[i] == a[i]);
            assert(b.drop_last()[i] == b[i]);
        }
        lemma_doc_lines_agree(a.drop_last(), b.drop_last());
        assert(attr_head(a.last()) == attr_head(b.last()));
        assert(crate::doc::doc_value(a.last()) == crate::doc::doc_value(b.last()));
    }
}

fn clone_opt_eq(o: &Option<String>) -> (r: Option<String>)
    ensures
        opt_view(r) == opt_view(*o),
{
    match o {
        Some(s) => Some(copy_string(s)),
        None => None,
    }
}

/// A copy of the parts of an attribute that its status and doc depend on.
fn attr_head_copy(a: &RustAttr) -> (r: RustAttr)
    ensures
        attr_head(r) == attr_head(*a),
{
    RustAttr {
        path_ident: clone_opt_eq(&a.path_ident),
        kind: a.kind,
        str_value: clone_opt_eq(&a.str_value),
        tokens: Vec::new(),
        nested: None,
        single: None,
    }
}

/// Reads the tokens at `idxs` as attributes and a visibility (see [`parse_prefix`]).
fn read_prefix(ts: &Vec<RustToken>, idxs: &Vec<usize>, from: usize) -> (r: Option<(Vec<RustAttr>, bool)>)
    requires
        from <= idxs@.len(),
        forall|k: int| 0 <= k < idxs@.len() ==> (#[trigger] idxs@[k]) < ts@.len(),
    ensures
        match r {
            Some((attrs, is_pub)) => parse_prefix(
                at_positions(ts@, idxs@.map_values(|k: usize| k as int)).subrange(from as int, idxs@.len() as int),
            ) matches Some((sa, sp)) && sp == is_pub && attrs@.len() == sa.len() && forall|i: int|
                0 <= i < sa.len() ==> attr_head(#[trigger] attrs@[i]) == attr_head(sa[i]),
            None => parse_prefix(
                at_positions(ts@, idxs@.map_values(|k: usize| k as int)).subrange(from as int, idxs@.len() as int),
            ) is None,
        },
    decreases idxs@.len() - from,
{
    let ghost p = at_positions(ts@, idxs@.map_values(|k: usize| k as int)).subrange(from as int, idxs@.len() as int);
    let n = idxs.len() - from;
    if n == 0 {
        return Some((Vec::new(), false));
    }
    let t0 = &ts[idxs[from]];
    assert(p[0] == *t0);
    if let RustToken::Punct(c) = t0 {
        if *c == '#' {
            if n >= 2 {
                let t1 = &ts[idxs[from + 1]];
                assert(p[1] == *t1);
                if let RustToken::Group { delimiter, attr, .. } = t1 {
                    if *delimiter == RustDelimiter::Bracket {
                        if let Some(a) = attr {
                            assert(p.subrange(2, p.len() as int) =~= at_positions(
                                ts@,
                                idxs@.map_values(|k: usize| k as int),
                            ).subrange(from + 2, idxs@.len() as int));
                            match read_prefix(ts, idxs, from + 2) {
                                Some((rest, v)) => {
                                    let mut attrs: Vec<RustAttr> = Vec::new();
                                    attrs.push(attr_head_copy(a));
                                    let mut rest = rest;
                                    let ghost r0 = rest@;
                                    attrs.append(&mut rest);
                                    return Some((attrs, v));
                                },
                                None => {
                                    return None;
                                },
                            }
                        }
                    }
                }
            }
            return None;
        }
    }
    if let RustToken::Ident(id) = t0 {
        if str_eq(id.as_str(), "pub") {
            if n == 1 {
                return Some((Vec::new(), true));
            }
            if n == 2 {
                let t1 = &ts[idxs[from + 1]];
                assert(p[1] == *t1);
                if let RustToken::Group { delimiter, .. } = t1 {
                    if *delimiter == RustDelimiter::Parenthesis {
                        return Some((Vec::new(), false));
                    }
                }
            }
            return None;
        }
    }
    None
}


/// The positions `lo..hi`.
fn positions(lo: usize, hi: usize) -> (r: Vec<usize>)
    requires
        lo <= hi,
    ensures
        r@.len() == hi - lo,
        forall|k: int| 0 <= k < r@.len() ==> #[trigger] r@[k] == lo + k,
{
    let mut r: Vec<usize> = Vec::new();
    let mut i = lo;
    while i < hi
        invariant
            lo <= i <= hi,
            r@.len() == i - lo,
            forall|k: int| 0 <= k < r@.len() ==> #[trigger] r@[k] == lo + k,
        decreases hi - i,
    {
        r.push(i);
        i = i + 1;
    }
    r
}

/// Reads the attribute tokens `ts[ps..j]` of a flag as its doc (see [`pending_doc`]).
fn flag_doc(ts: &Vec<RustToken>, ps: usize, j: usize) -> (r: CDoc)
    requires
        ps <= j <= ts@.len(),
    ensures
        doc_view(r) == pending_doc(ts@, ps as int, j as int),
{
    if ps >= j {
        return CDoc { brief: None, description: None };
    }
    let idxs = positions(ps, j);
    let ghost ii = idxs@.map_values(|k: usize| k as int);
    assert(at_positions(ts@, ii).subrange(0, ii.len() as int) =~= ts@.subrange(ps as int, j as int));
    match read_prefix(ts, &idxs, 0) {
        Some((attrs, _)) => {
            let ghost sa = parse_prefix(ts@.subrange(ps as int, j as int)).unwrap().0;
            proof {
                lemma_heads_agree(attrs@, sa, false);
            }
            CDoc::from_attrs(attrs.as_slice())
        },
        None => CDoc { brief: None, description: None },
    }
}

fn punct_at(ts: &Vec<RustToken>, i: usize, c: char) -> (r: bool)
    ensures
        r == (i < ts@.len() && is_punct(ts@[i as int], c)),
{
    if i < ts.len() {
        if let RustToken::Punct(p) = &ts[i] {
            return *p == c;
        }
    }
    false
}

fn ident_at(ts: &Vec<RustToken>, i: usize) -> (r: Option<String>)
    ensures
        match r {
            Some(s) => i < ts@.len() && ts@[i as int] is Ident && s@ == ident_of(ts@[i as int]),
            None => !(i < ts@.len() && ts@[i as int] is Ident),
        },
{
    if i < ts.len() {
        if let RustToken::Ident(s) = &ts[i] {
            return Some(copy_string(s));
        }
    }
    None
}

/// The position of the first `;` from `j` on (see [`semicolon_end`]).
fn find_semicolon(ts: &Vec<RustToken>, j: usize) -> (e: usize)
    requires
        j <= ts@.len(),
    ensures
        e as int == semicolon_end(ts@, j as int),
        j <= e <= ts@.len(),
{
    let mut k = j;
    while k < ts.len()
        invariant
            j <= k <= ts@.len(),
            semicolon_end(ts@, j as int) == semicolon_end(ts@, k as int),
        decreases ts.len() - k,
    {
        if punct_at(ts, k, ';') {
            return k;
        }
        k = k + 1;
    }
    k
}

/// Reads the flags of a `bitflags!` body (see [`bf_consts`]).
fn read_flags(body: &Vec<RustToken>) -> (r: Vec<CBitflagsConstant>)
    ensures
        flags_view(r@) == bf_consts(body@, 0, 0),
{
    let n = body.len();
    let mut out: Vec<CBitflagsConstant> = Vec::new();
    let mut j: usize = 0;
    let mut ps: usize = 0;
    while j < n
        invariant
            n == body@.len(),
            ps <= j,
            j <= n + 2,
            ps <= n,
            bf_consts(body@, 0, 0) == flags_view(out@) + bf_consts(body@, j as int, ps as int),
        decreases n + 2 - j,
    {
        let ghost ts = body@;
        if punct_at(body, j, '#') {
            if j + 1 < n && matches!(body[j + 1], RustToken::Group { .. }) {
                j = j + 2;
            } else {
                j = j + 1;
            }
            continue;
        }
        if let RustToken::Ident(kw) = &body[j] {
            if str_eq(kw.as_str(), "const") {
                let j1 = j + 1;
                match ident_at(body, j1) {
                    Some(name) => {
                        proof {
                            lemma_semicolon_end(ts, j1 as int);
                        }
                        if str_eq(name.as_str(), "_") {
                            let e = find_semicolon(body, j1);
                            let next = if e < n {
                                e + 1
                            } else {
                                e
                            };
                            j = next;
                            ps = next;
                            continue;
                        }
                        let doc = flag_doc(body, ps, j);
                        let j2 = j1 + 1;
                        let j3 = if punct_at(body, j2, '=') {
                            j2 + 1
                        } else {
                            j2
                        };
                        let e = find_semicolon(body, j3);
                        let value = rust_literal_tokens_to_c(vstd::slice::slice_subrange(body.as_slice(), j3, e));
                        let next = if e < n {
                            e + 1
                        } else {
                            e
                        };
                        let ghost before = out@;
                        let c = CBitflagsConstant { name, doc, value };
                        out.push(c);
                        assert(flags_view(out@) =~= flags_view(before).push((c.name@, doc_view(c.doc), c.value@)));
                        assert(bf_consts(ts, j as int, ps as int) == seq![(c.name@, doc_view(c.doc), c.value@)]
                            + bf_consts(ts, next as int, next as int));
                        j = next;
                        ps = next;
                        continue;
                    },
                    None => {
                        let ghost old_j = j;
                        let ghost old_ps = ps;
                        assert(is_ident_token(ts[j as int], "const"@));
                        assert(bf_consts(ts, old_j as int, old_ps as int) == bf_consts(ts, j1 + 1, j1 + 1));
                        j = if j1 < n {
                            j1 + 1
                        } else {
                            n
                        };
                        ps = j;
                        assert(bf_consts(ts, j1 + 1, j1 + 1) == bf_consts(ts, j as int, ps as int));
                        continue;
                    },
                }
            }
        }
        j = j + 1;
        ps = j;
    }
    assert(flags_view(out@) + Seq::<FlagView>::empty() =~= flags_view(out@));
    out
}

fn flags_int_of(id: &str) -> (r: Option<CType>)
    ensures
        match r {
            Some(t) => flags_int(id@) == Some(t),
            None => flags_int(id@) is None,
        },
{
    if str_eq(id, "u8") {
        Some(CType::UInt8)
    } else if str_eq(id, "u16") {
        Some(CType::UInt16)
    } else if str_eq(id, "u32") {
        Some(CType::UInt32)
    } else if str_eq(id, "u64") {
        Some(CType::UInt64)
    } else if str_eq(id, "i8") {
        Some(CType::Int8)
    } else if str_eq(id, "i16") {
        Some(CType::Int16)
    } else if str_eq(id, "i32") {
        Some(CType::Int32)
    } else if str_eq(id, "i64") {
        Some(CType::Int64)
    } else {
        None
    }
}

fn describe_token(ts: &Vec<RustToken>, i: usize) -> (r: String)
    ensures
        r@ == token_desc(ts@, i as int),
{
    if i < ts.len() {
        let mut s = owned("Some(");
        let t = crate::literal::token_text_of(&ts[i]);
        s.append(t.as_str());
        s.append(")");
        s
    } else {
        owned("None")
    }
}

fn quoted(pre: &str, mid: &String, post: &str) -> (r: String)
    ensures
        r@ == pre@ + mid@ + post@,
{
    let mut s = owned(pre);
    s.append(mid.as_str());
    s.append(post);
    s
}

impl CBitflags {
    /// Reads a `bitflags!` invocation: the attributes and visibility before
    /// `struct`, then `Name: int_type { const FLAG = value; ... }`.
    pub fn from_item(item: &RustMacro, source_order: usize) -> (r: Result<CBitflags, String>)
        ensures
            match bf_error(item.tokens@) {
                Some(m) => r is Err && r->Err_0@ == m,
                None => r matches Ok(b) && bitflags_of(b, item.tokens@, source_order),
            },
    {
        let ts = &item.tokens;
        let n = ts.len();
        let mut idxs: Vec<usize> = Vec::new();
        let mut i: usize = 0;
        while i < n
            invariant
                n == ts@.len(),
                i <= n,
                forall|k: int| 0 <= k < idxs@.len() ==> (#[trigger] idxs@[k]) < n,
                bf_prefix(ts@, 0) == (bf_prefix(ts@, i as int).0, idxs@.map_values(|k: usize| k as int)
                    + bf_prefix(ts@, i as int).1),
            ensures
                i <= n,
                bf_prefix(ts@, i as int) == (i as int, Seq::<int>::empty()),
                bf_prefix(ts@, 0) == (bf_prefix(ts@, i as int).0, idxs@.map_values(|k: usize| k as int)
                    + bf_prefix(ts@, i as int).1),
            decreases n - i,
        {
            let ghost before = idxs@;
            if punct_at(ts, i, '#') {
                idxs.push(i);
                if i + 1 < n && matches!(ts[i + 1], RustToken::Group { .. }) {
                    idxs.push(i + 1);
                    assert(idxs@.map_values(|k: usize| k as int) =~= before.map_values(|k: usize| k as int) + seq![i as int, i + 1]);
                    i = i + 2;
                } else {
                    assert(idxs@.map_values(|k: usize| k as int) =~= before.map_values(|k: usize| k as int) + seq![i as int]);
                    i = i + 1;
                }
                continue;
            }
            if let RustToken::Ident(id) = &ts[i] {
                if str_eq(id.as_str(), "pub") || str_eq(id.as_str(), "crate") {
                    idxs.push(i);
                    let paren = if i + 1 < n {
                        if let RustToken::Group { delimiter, .. } = &ts[i + 1] {
                            *delimiter == RustDelimiter::Parenthesis
                        } else {
                            false
                        }
                    } else {
                        false
                    };
                    if paren {
                        idxs.push(i + 1);
                        assert(idxs@.map_values(|k: usize| k as int) =~= before.map_values(|k: usize| k as int) + seq![i as int, i + 1]);
                        i = i + 2;
                    } else {
                        assert(idxs@.map_values(|k: usize| k as int) =~= before.map_values(|k: usize| k as int) + seq![i as int]);
                        i = i + 1;
                    }
                    continue;
                }
                if str_eq(id.as_str(), "struct") {
                    break;
                }
            }
            i = i + 1;
        }
        let ghost ii = idxs@.map_values(|k: usize| k as int);
        assert(bf_prefix(ts@, 0).0 == i);
        assert(ii + Seq::<int>::empty() =~= ii);
        assert(ii =~= bf_prefix(ts@, 0).1);
        assert(at_positions(ts@, ii).subrange(0, ii.len() as int) =~= at_positions(ts@, ii));
        let (export_status, doc) = match read_prefix(ts, &idxs, 0) {
            Some((attrs, is_pub)) => {
                let ghost sa = parse_prefix(at_positions(ts@, ii)).unwrap().0;
                proof {
                    lemma_heads_agree(attrs@, sa, is_pub);
                }
                (crate::convert::export_status_from_attrs(attrs.as_slice(), is_pub), CDoc::from_attrs(attrs.as_slice()))
            },
            None => (TerraffiExportStatus::NotExported, CDoc { brief: None, description: None }),
        };
        if i >= n {
            let d = describe_token(ts, n);
            return Err(quoted("Invalid bitflags type name token '", &d, "'"));
        }
        let name_at = i + 1;
        let name = match ident_at(ts, name_at) {
            Some(s) => s,
            None => {
                let d = describe_token(ts, name_at);
                return Err(quoted("Invalid bitflags type name token '", &d, "'"));
            },
        };
        if !punct_at(ts, name_at + 1, ':') {
            return Err(owned("Expected ':' character after bitflags type name"));
        }
        let underlying = match ident_at(ts, name_at + 2) {
            Some(s) => s,
            None => {
                let d = describe_token(ts, name_at + 2);
                return Err(quoted("Invalid bitflags underlying type name token '", &d, "'"));
            },
        };
        let underlying_type = match flags_int_of(underlying.as_str()) {
            Some(t) => t,
            None => {
                return Err(quoted("Invalid underlying type '", &underlying, "'"));
            },
        };
        if name_at + 3 >= n {
            return Err(owned("Expected '{' after bitflags underlying type"));
        }
        let constants = match &ts[name_at + 3] {
            RustToken::Group { delimiter, tokens, .. } => {
                if *delimiter != RustDelimiter::Brace {
                    return Err(owned("Expected '{' after bitflags underlying type"));
                }
                read_flags(tokens)
            },
            _ => {
                return Err(owned("Expected '{' after bitflags underlying type"));
            },
        };
        Ok(CBitflags { name, doc, export_status, source_order, underlying_type, constants })
    }
}
} // verus!
