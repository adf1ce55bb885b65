//! Doc comments: parsed from Rust attributes, emitted as Doxygen blocks.

use vstd::prelude::*;
use crate::text::{
    utf8_len, trim, lines_of, words_of, paragraphs_of, join, views, starts_with, ends_with,
    find_at, chars_of, string_of, trim_chars, lines_chars, words_chars, paragraphs_chars,
    join_chars, append_chars, append_str, has_prefix, has_suffix, find_in, slice_chars,
    has_char, byte_len, lemma_find_at_range, str_eq, lower_text, to_lowercase,
};
use crate::syntax::{RustAttr, MetaKind, attr_named};

verus! {

/// The width a Doxygen line is wrapped to.
pub const MAX_LINE_WIDTH: usize = 120;

/// Whether `word` no longer fits on `line`: the first line may hold
/// `max_text` bytes, later ones `max_cont`, and a negative `max_cont` (a
/// continuation wider than the page) never forces a break.
pub open spec fn over_limit(
    line: Seq<char>,
    word: Seq<char>,
    first: bool,
    max_text: int,
    max_cont: int,
) -> bool {
    let need = utf8_len(line) + 1 + utf8_len(word);
    if first {
        need > max_text
    } else {
        max_cont >= 0 && need > max_cont
    }
}

/// One greedy step: the lines emitted so far, the line being filled and
/// whether the first line is still to come, after placing `word`.
pub open spec fn wrap_step(
    st: (Seq<char>, Seq<char>, bool),
    word: Seq<char>,
    prefix: Seq<char>,
    cont: Seq<char>,
    max_text: int,
    max_cont: int,
) -> (Seq<char>, Seq<char>, bool) {
    let (out, line, first) = st;
    if line.len() == 0 {
        (out, word, first)
    } else if over_limit(line, word, first, max_text, max_cont) {
        (out + (if first {
            prefix
        } else {
            cont
        }) + line + "\n"@, word, false)
    } else {
        (out, line + " "@ + word, first)
    }
}

/// [`wrap_step`] over all of `words`.
pub open spec fn wrap_fold(
    words: Seq<Seq<char>>,
    prefix: Seq<char>,
    cont: Seq<char>,
    max_text: int,
    max_cont: int,
) -> (Seq<char>, Seq<char>, bool)
    decreases words.len(),
{
    if words.len() == 0 {
        (Seq::empty(), Seq::empty(), true)
    } else {
        wrap_step(
            wrap_fold(words.drop_last(), prefix, cont, max_text, max_cont),
            words.last(),
            prefix,
            cont,
            max_text,
            max_cont,
        )
    }
}

/// `text` after `prefix`, wrapped at whitespace to lines of at most
/// [`MAX_LINE_WIDTH`] bytes where the words allow; lines after the first start
/// with `cont`. A prefix as wide as the line leaves the text unwrapped.
pub open spec fn wrapped(prefix: Seq<char>, cont: Seq<char>, text: Seq<char>) -> Seq<char> {
    let max_text = 120 - utf8_len(prefix);
    let max_cont = 120 - utf8_len(cont);
    if max_text <= 0 || utf8_len(text) <= max_text {
        prefix + text + "\n"@
    } else if words_of(text).len() == 0 {
        prefix + "\n"@
    } else {
        let (out, line, first) = wrap_fold(words_of(text), prefix, cont, max_text, max_cont);
        if line.len() == 0 {
            out
        } else {
            out + (if first {
                prefix
            } else {
                cont
            }) + line + "\n"@
        }
    }
}

/// Byte length of a character buffer in UTF-8.
fn utf8_width(v: &Vec<char>) -> (n: usize)
    ensures
        n as nat == utf8_len(v@),
{
    let s = string_of(v.as_slice());
    byte_len(s.as_str())
}

/// Writes `text` after `prefix`, wrapped as [`wrapped`] describes.
pub fn write_wrapped(w: &mut Vec<char>, prefix: &Vec<char>, continuation: &Vec<char>, text: &Vec<char>)
    ensures
        final(w)@ == old(w)@ + wrapped(prefix@, continuation@, text@),
{
    let plen = utf8_width(prefix);
    let clen = utf8_width(continuation);
    let tlen = utf8_width(text);
    if plen >= MAX_LINE_WIDTH || tlen <= MAX_LINE_WIDTH - plen {
        append_chars(w, prefix);
        append_chars(w, text);
        append_str(w, "\n");
        return;
    }
    let max_text = MAX_LINE_WIDTH - plen;
    let words = words_chars(text);
    if words.len() == 0 {
        append_chars(w, prefix);
        append_str(w, "\n");
        return;
    }
    let ghost ws = views(words@);
    let ghost mt: int = max_text as int;
    let ghost mc: int = 120 - utf8_len(continuation@);
    let ghost base = w@;
    let ghost mut out: Seq<char> = Seq::empty();
    let mut line: Vec<char> = Vec::new();
    let mut first = true;
    let mut i: usize = 0;
    while i < words.len()
        invariant
            i <= words@.len(),
            ws == views(words@),
            mt == 120 - utf8_len(prefix@),
            mt == max_text,
            mc == 120 - utf8_len(continuation@),
            clen as int == utf8_len(continuation@),
            w@ == base + out,
            (out, line@, first) == wrap_fold(ws.subrange(0, i as int), prefix@, continuation@, mt, mc),
        decreases words.len() - i,
    {
        let ghost pre = ws.subrange(0, i + 1);
        assert(pre.drop_last() =~= ws.subrange(0, i as int));
        let word = &words[i];
        assert(pre.last() == word@);
        let llen = utf8_width(&line);
        let wlen = utf8_width(word);
        let over: bool = if first {
            llen as u128 + 1 + wlen as u128 > max_text as u128
        } else {
            clen <= MAX_LINE_WIDTH && llen as u128 + 1 + wlen as u128 > (MAX_LINE_WIDTH - clen) as u128
        };
        assert(over == over_limit(line@, word@, first, mt, mc));
        let ghost st = (out, line@, first);
        let ghost next = wrap_step(st, word@, prefix@, continuation@, mt, mc);
        assert(wrap_fold(pre, prefix@, continuation@, mt, mc) == next);
        let ghost old_line = line@;
        if line.len() == 0 {
            line = slice_chars(word, 0, word.len());
            assert(line@ =~= word@);
        } else if over {
            let ghost pfx = if first { prefix@ } else { continuation@ };
            if first {
                append_chars(w, prefix);
                first = false;
            } else {
                append_chars(w, continuation);
            }
            append_chars(w, &line);
            append_str(w, "\n");
            proof {
                out = out + pfx + line@ + "\n"@;
            }
            assert(w@ =~= base + out);
            line = slice_chars(word, 0, word.len());
            assert(line@ =~= word@);
        } else {
            line.push(' ');
            append_chars(&mut line, word);
            proof {
                reveal_strlit(" ");
            }
            assert(line@ =~= old_line + " "@ + word@);
        }
        assert((out, line@, first) == next);
        i = i + 1;
    }
    assert(ws.subrange(0, words@.len() as int) =~= ws);
    if line.len() > 0 {
        if first {
            append_chars(w, prefix);
        } else {
            append_chars(w, continuation);
        }
        append_chars(w, &line);
        append_str(w, "\n");
    }
}

/// Documentation for an item which can only have a brief and description.
#[derive(Debug, Clone, Default, PartialEq, Eq)]
pub struct CDoc {
    /// The first sentence of the doc comment.
    pub brief: Option<String>,
    /// The remaining description text after the brief.
    pub description: Option<String>,
}

/// The non-empty trimmed lines of `ls`.
pub open spec fn trimmed_nonempty(ls: Seq<Seq<char>>) -> Seq<Seq<char>>
    decreases ls.len(),
{
    if ls.len() == 0 {
        Seq::empty()
    } else {
        let r = trimmed_nonempty(ls.drop_last());
        if trim(ls.last()).len() > 0 {
            r.push(trim(ls.last()))
        } else {
            r
        }
    }
}

/// A paragraph with its line breaks folded into single spaces.
pub open spec fn collapsed_paragraph(p: Seq<char>) -> Seq<char> {
    join(trimmed_nonempty(lines_of(p)), " "@)
}

/// Every paragraph of `ps` collapsed.
pub open spec fn collapsed_all(ps: Seq<Seq<char>>) -> Seq<Seq<char>> {
    ps.map_values(|p: Seq<char>| collapsed_paragraph(p))
}

/// `text` with single line breaks collapsed into spaces and paragraph breaks kept.
pub open spec fn collapsed(text: Seq<char>) -> Seq<char> {
    join(collapsed_all(paragraphs_of(text)), "\n\n"@)
}

fn collapse_paragraph(p: &Vec<char>) -> (r: Vec<char>)
    ensures
        r@ == collapsed_paragraph(p@),
{
    let ls = lines_chars(p);
    let ghost lv = views(ls@);
    let mut kept: Vec<Vec<char>> = Vec::new();
    let mut i: usize = 0;
    while i < ls.len()
        invariant
            i <= ls@.len(),
            lv == views(ls@),
            views(kept@) == trimmed_nonempty(lv.subrange(0, i as int)),
        decreases ls.len() - i,
    {
        let ghost pre = lv.subrange(0, i + 1);
        assert(pre.drop_last() =~= lv.subrange(0, i as int));
        let t = trim_chars(&ls[i]);
        if t.len() > 0 {
            kept.push(t);
        }
        assert(views(kept@) =~= trimmed_nonempty(pre));
        i = i + 1;
    }
    assert(lv.subrange(0, lv.len() as int) =~= lv);
    join_chars(&kept, " ")
}

/// Collapses single line breaks into spaces, preserving double line breaks
/// (paragraph separators).
pub fn collapse_single_newlines(text: &Vec<char>) -> (r: Vec<char>)
    ensures
        r@ == collapsed(text@),
{
    let ps = paragraphs_chars(text);
    let ghost pv = views(ps@);
    let mut out: Vec<Vec<char>> = Vec::new();
    let mut i: usize = 0;
    while i < ps.len()
        invariant
            i <= ps@.len(),
            pv == views(ps@),
            views(out@) == collapsed_all(pv.subrange(0, i as int)),
        decreases ps.len() - i,
    {
        let ghost before = out@;
        let c = collapse_paragraph(&ps[i]);
        out.push(c);
        assert(out@ =~= before.push(c));
        assert(views(out@) =~= views(before).push(c@));
        assert(collapsed_all(pv.subrange(0, i + 1)) =~= collapsed_all(pv.subrange(0, i as int)).push(
            collapsed_paragraph(pv[i as int]),
        ));
        i = i + 1;
    }
    assert(pv.subrange(0, pv.len() as int) =~= pv);
    join_chars(&out, "\n\n")
}

/// Lines from the end of `ls` that are blank after trimming are dropped.
pub open spec fn drop_trailing_blank(ls: Seq<Seq<char>>) -> Seq<Seq<char>>
    decreases ls.len(),
{
    if ls.len() > 0 && trim(ls.last()).len() == 0 {
        drop_trailing_blank(ls.drop_last())
    } else {
        ls
    }
}

/// State while reading a doc comment: the brief so far, the description lines,
/// and whether the brief is complete.
pub open spec fn brief_step(
    st: (Option<Seq<char>>, Seq<Seq<char>>, bool),
    line: Seq<char>,
) -> (Option<Seq<char>>, Seq<Seq<char>>, bool) {
    let (brief, desc, found) = st;
    let t = trim(line);
    if !found {
        if t.len() == 0 {
            (brief, desc, brief is Some)
        } else {
            let nb = match brief {
                Some(b) => b + " "@ + t,
                None => t,
            };
            (Some(nb), desc, ends_with(t, "."@))
        }
    } else if t.len() == 0 && desc.len() == 0 {
        st
    } else {
        (brief, desc.push(line), found)
    }
}

/// [`brief_step`] over all of `ls`.
pub open spec fn brief_fold(ls: Seq<Seq<char>>) -> (Option<Seq<char>>, Seq<Seq<char>>, bool)
    decreases ls.len(),
{
    if ls.len() == 0 {
        (None, Seq::empty(), false)
    } else {
        brief_step(brief_fold(ls.drop_last()), ls.last())
    }
}

/// The description made of the remaining lines, if any remain.
pub open spec fn description_of(desc: Seq<Seq<char>>) -> Option<Seq<char>> {
    let d = drop_trailing_blank(desc);
    if d.len() == 0 {
        None
    } else {
        Some(collapsed(trim(join(d, "\n"@))))
    }
}

/// The view of an optional character buffer.
pub open spec fn opt_vec_view(o: Option<Vec<char>>) -> Option<Seq<char>> {
    match o {
        Some(v) => Some(v@),
        None => None,
    }
}

/// The view of an optional string.
pub open spec fn opt_view(o: Option<String>) -> Option<Seq<char>> {
    match o {
        Some(s) => Some(s@),
        None => None,
    }
}

fn opt_string(o: Option<Vec<char>>) -> (r: Option<String>)
    ensures
        opt_view(r) == match o {
            Some(v) => Some(v@),
            None => None::<Seq<char>>,
        },
{
    match o {
        Some(v) => Some(string_of(v.as_slice())),
        None => None,
    }
}

fn pop_trailing_blank(ls: &mut Vec<Vec<char>>)
    ensures
        views(final(ls)@) == drop_trailing_blank(views(old(ls)@)),
{
    loop
        invariant
            drop_trailing_blank(views(ls@)) == drop_trailing_blank(views(old(ls)@)),
        decreases ls@.len(),
    {
        if ls.len() == 0 {
            return;
        }
        let t = trim_chars(&ls[ls.len() - 1]);
        if t.len() > 0 {
            return;
        }
        let ghost before = views(ls@);
        ls.pop();
        assert(views(ls@) =~= before.drop_last());
    }
}

fn description_from(desc: &mut Vec<Vec<char>>) -> (r: Option<Vec<char>>)
    ensures
        match r {
            Some(v) => description_of(views(old(desc)@)) == Some(v@),
            None => description_of(views(old(desc)@)) is None,
        },
{
    pop_trailing_blank(desc);
    if desc.len() == 0 {
        None
    } else {
        let j = join_chars(desc, "\n");
        let t = trim_chars(&j);
        Some(collapse_single_newlines(&t))
    }
}

/// Reads one line of a doc comment into the brief and description so far
/// (see [`brief_step`]).
fn brief_update(brief: &mut Option<Vec<char>>, desc: &mut Vec<Vec<char>>, found: &mut bool, line: &Vec<char>)
    ensures
        (opt_vec_view(*final(brief)), views(final(desc)@), *final(found)) == brief_step(
            (opt_vec_view(*old(brief)), views(old(desc)@), *old(found)),
            line@,
        ),
{
    let t = trim_chars(line);
    let ghost bv = opt_vec_view(*brief);
    let ghost dv = views(desc@);
    if !*found {
        if t.len() == 0 {
            *found = brief.is_some();
        } else {
            let nb = match brief.take() {
                Some(b) => {
                    let mut b = b;
                    b.push(' ');
                    append_chars(&mut b, &t);
                    proof {
                        reveal_strlit(" ");
                    }
                    assert(b@ =~= bv.unwrap() + " "@ + t@);
                    b
                },
                None => {
                    let r = slice_chars(&t, 0, t.len());
                    assert(r@ =~= t@);
                    r
                },
            };
            *brief = Some(nb);
            *found = has_suffix(&t, ".");
        }
    } else if !(t.len() == 0 && desc.len() == 0) {
        let copy = slice_chars(line, 0, line.len());
        assert(copy@ =~= line@);
        desc.push(copy);
        assert(views(desc@) =~= dv.push(line@));
    }
}

impl CDoc {
    /// Parses a raw doc string: the first sentence (ending with `.` or
    /// separated by a blank line) becomes the brief, the rest the description.
    pub fn from_raw(raw: &str) -> (r: CDoc)
        ensures
            doc_view(r) == raw_doc(raw@),
    {
        let rv = chars_of(raw);
        let ls = lines_chars(&rv);
        let ghost lv = views(ls@);
        let mut brief: Option<Vec<char>> = None;
        let mut desc: Vec<Vec<char>> = Vec::new();
        let mut found = false;
        let mut i: usize = 0;
        while i < ls.len()
            invariant
                i <= ls@.len(),
                lv == views(ls@),
                brief_fold(lv.subrange(0, i as int)) == (opt_vec_view(brief), views(desc@), found),
            decreases ls.len() - i,
        {
            let ghost pre = lv.subrange(0, i + 1);
            assert(pre.drop_last() =~= lv.subrange(0, i as int));
            assert(pre.last() == ls@[i as int]@);
            brief_update(&mut brief, &mut desc, &mut found, &ls[i]);
            i = i + 1;
        }
        assert(lv.subrange(0, lv.len() as int) =~= lv);
        let d = description_from(&mut desc);
        CDoc { brief: opt_string(brief), description: opt_string(d) }
    }

    /// A doc whose brief is `text`, or no doc at all when `text` is empty.
    pub fn from_text(text: String) -> (r: CDoc)
        ensures
            text@.len() == 0 ==> r.brief is None && r.description is None,
            text@.len() > 0 ==> opt_view(r.brief) == Some(text@) && r.description is None,
    {
        if text.as_str().is_empty() {
            return CDoc { brief: None, description: None };
        }
        CDoc { brief: Some(text), description: None }
    }
}


/// The position of the closing backtick of a `` [`path`] `` link opening at `i`.
pub open spec fn code_link_end(t: Seq<char>, i: int) -> Option<int> {
    if 0 <= i && i + 2 < t.len() && t[i] == '[' && t[i + 1] == '`' {
        match find_at(t, "`"@, i + 2) {
            Some(e) => if e + 1 < t.len() && t[e + 1] == ']' {
                Some(e)
            } else {
                None
            },
            None => None,
        }
    } else {
        None
    }
}

/// The positions of the `]` and of the closing backtick of a
/// `` [text](`path`) `` link opening at `i`.
pub open spec fn text_link_end(t: Seq<char>, i: int) -> Option<(int, int)> {
    if 0 <= i < t.len() && t[i] == '[' {
        match find_at(t, "]"@, i + 1) {
            Some(be) => if be + 3 < t.len() && t[be + 1] == '(' && t[be + 2] == '`' {
                match find_at(t, "`"@, be + 3) {
                    Some(pe) => if pe + 1 < t.len() && t[pe + 1] == ')' {
                        Some((be, pe))
                    } else {
                        None
                    },
                    None => None,
                }
            } else {
                None
            },
            None => None,
        }
    } else {
        None
    }
}

/// `t` from position `i` on, with Rust intra-doc links rewritten as Doxygen
/// references: `` [`Foo`] `` becomes `@ref Foo` and `` [text](`path`) ``
/// becomes `text (@ref path)`.
pub open spec fn links_from(t: Seq<char>, i: int) -> Seq<char>
    decreases t.len() - i,
{
    if i < 0 || i >= t.len() {
        Seq::empty()
    } else {
        proof {
            lemma_find_at_range(t, "`"@, i + 2);
            lemma_find_at_range(t, "]"@, i + 1);
        }
        match code_link_end(t, i) {
            Some(e) => "@ref "@ + t.subrange(i + 2, e) + links_from(t, e + 2),
            None => match text_link_end(t, i) {
                Some((be, pe)) => {
                    proof {
                        lemma_find_at_range(t, "`"@, be + 3);
                    }
                    t.subrange(i + 1, be) + " (@ref "@ + t.subrange(be + 3, pe) + ")"@ + links_from(
                        t,
                        pe + 2,
                    )
                },
                None => seq![t[i]] + links_from(t, i + 1),
            },
        }
    }
}

/// Converts Rust intra-doc links to Doxygen cross-references.
///
/// - `` [`Foo`] `` becomes `@ref Foo`
/// - `` [`Foo::bar`] `` becomes `@ref Foo::bar`
/// - `` [text](`path`) `` becomes `text (@ref path)`
pub fn convert_rust_links_to_doxygen(text: &str) -> (r: String)
    ensures
        r@ == links_from(text@, 0),
{
    let v = chars_of(text);
    string_of(links_converted(&v).as_slice())
}

/// [`convert_rust_links_to_doxygen`] on characters.
fn links_converted(text: &Vec<char>) -> (r: Vec<char>)
    ensures
        r@ == links_from(text@, 0),
{
    proof {
        reveal_strlit("`");
        reveal_strlit("]");
    }
    let n = text.len();
    let mut out: Vec<char> = Vec::new();
    let mut i: usize = 0;
    while i < n
        invariant
            n == text@.len(),
            i <= n,
            links_from(text@, 0) == out@ + links_from(text@, i as int),
        decreases n - i,
    {
        let ghost t = text@;
        proof {
            reveal_strlit("`");
            reveal_strlit("]");
            lemma_find_at_range(t, "`"@, i + 2);
            lemma_find_at_range(t, "]"@, i + 1);
        }
        if text[i] == '[' {
            if n - i > 2 && text[i + 1] == '`' {
                if let Some(e) = find_in(text, "`", i + 2) {
                    if e + 1 < n && text[e + 1] == ']' {
                        assert(code_link_end(t, i as int) == Some(e as int));
                        append_str(&mut out, "@ref ");
                        let path = slice_chars(text, i + 2, e);
                        append_chars(&mut out, &path);
                        assert(links_from(t, i as int) == "@ref "@ + t.subrange(i + 2, e as int)
                            + links_from(t, e + 2));
                        i = e + 2;
                        continue;
                    }
                }
            }
            assert(code_link_end(t, i as int) is None);
            if let Some(be) = find_in(text, "]", i + 1) {
                if n - be > 3 && text[be + 1] == '(' && text[be + 2] == '`' {
                    proof {
                        lemma_find_at_range(t, "`"@, be + 3);
                    }
                    if let Some(pe) = find_in(text, "`", be + 3) {
                        if pe + 1 < n && text[pe + 1] == ')' {
                            assert(text_link_end(t, i as int) == Some((be as int, pe as int)));
                            let link_text = slice_chars(text, i + 1, be);
                            append_chars(&mut out, &link_text);
                            append_str(&mut out, " (@ref ");
                            let path = slice_chars(text, be + 3, pe);
                            append_chars(&mut out, &path);
                            append_str(&mut out, ")");
                            assert(links_from(t, i as int) == t.subrange(i + 1, be as int) + " (@ref "@
                                + t.subrange(be + 3, pe as int) + ")"@ + links_from(t, pe + 2));
                            i = pe + 2;
                            continue;
                        }
                    }
                }
            }
            assert(text_link_end(t, i as int) is None);
        }
        assert(links_from(t, i as int) == seq![t[i as int]] + links_from(t, i + 1));
        out.push(text[i]);
        i = i + 1;
    }
    assert(links_from(text@, n as int) == Seq::<char>::empty());
    out
}

/// The value of a `#[doc = "..."]` attribute.
pub open spec fn doc_value(a: RustAttr) -> Option<Seq<char>> {
    if attr_named(a, "doc"@) && a.kind == MetaKind::NameValue && a.str_value is Some {
        Some(a.str_value.unwrap()@)
    } else {
        None
    }
}

/// A doc line with the one space that `/// text` leaves before `text` removed.
pub open spec fn unindented(l: Seq<char>) -> Seq<char> {
    if l.len() > 0 && l[0] == ' ' {
        l.drop_first()
    } else {
        l
    }
}

/// The doc lines of `attrs`, in order, each unindented.
pub open spec fn doc_lines(attrs: Seq<RustAttr>) -> Seq<Seq<char>>
    decreases attrs.len(),
{
    if attrs.len() == 0 {
        Seq::empty()
    } else {
        match doc_value(attrs.last()) {
            Some(l) => doc_lines(attrs.drop_last()).push(unindented(l)),
            None => doc_lines(attrs.drop_last()),
        }
    }
}

/// The raw doc string of `attrs`: their doc lines joined and trimmed, with
/// links converted, or nothing when that is empty.
pub open spec fn extracted_doc(attrs: Seq<RustAttr>) -> Option<Seq<char>> {
    let ls = doc_lines(attrs);
    let t = trim(join(ls, "\n"@));
    if ls.len() == 0 || t.len() == 0 {
        None
    } else {
        Some(links_from(t, 0))
    }
}

/// Extracts the raw doc string from `#[doc = "..."]` attributes, joining
/// multiple doc lines with newlines and stripping one leading space from each.
pub fn extract_doc_string(attrs: &[RustAttr]) -> (r: Option<Vec<char>>)
    ensures
        opt_vec_view(r) == extracted_doc(attrs@),
{
    let mut lines: Vec<Vec<char>> = Vec::new();
    let mut i: usize = 0;
    while i < attrs.len()
        invariant
            i <= attrs@.len(),
            views(lines@) == doc_lines(attrs@.subrange(0, i as int)),
        decreases attrs.len() - i,
    {
        let ghost pre = attrs@.subrange(0, i + 1);
        assert(pre.drop_last() =~= attrs@.subrange(0, i as int));
        let a = &attrs[i];
        if attr_is_doc(a) && a.kind == MetaKind::NameValue {
            if let Some(v) = &a.str_value {
                let cs = chars_of(v.as_str());
                let l = if cs.len() > 0 && cs[0] == ' ' {
                    slice_chars(&cs, 1, cs.len())
                } else {
                    slice_chars(&cs, 0, cs.len())
                };
                assert(l@ =~= unindented(v@));
                let ghost before = lines@;
                lines.push(l);
                assert(views(lines@) =~= views(before).push(l@));
            }
        }
        i = i + 1;
    }
    assert(attrs@.subrange(0, attrs@.len() as int) =~= attrs@);
    if lines.len() == 0 {
        return None;
    }
    let joined = join_chars(&lines, "\n");
    let t = trim_chars(&joined);
    if t.len() == 0 {
        return None;
    }
    Some(links_converted(&t))
}

fn attr_is_doc(a: &RustAttr) -> (r: bool)
    ensures
        r == attr_named(*a, "doc"@),
{
    match &a.path_ident {
        Some(p) => str_eq(p.as_str(), "doc"),
        None => false,
    }
}

/// What a doc with the raw text `raw` holds: its brief and its description.
pub open spec fn raw_doc(raw: Seq<char>) -> (Option<Seq<char>>, Option<Seq<char>>) {
    let (brief, desc, _) = brief_fold(lines_of(raw));
    (brief, description_of(desc))
}

/// What the doc of `attrs` holds.
pub open spec fn attrs_doc(attrs: Seq<RustAttr>) -> (Option<Seq<char>>, Option<Seq<char>>) {
    match extracted_doc(attrs) {
        Some(raw) => raw_doc(raw),
        None => (None, None),
    }
}

/// The brief and description of a doc.
pub open spec fn doc_view(d: CDoc) -> (Option<Seq<char>>, Option<Seq<char>>) {
    (opt_view(d.brief), opt_view(d.description))
}

impl CDoc {
    /// Parses a doc from attributes, splitting it into brief and description.
    /// The first sentence (ending with `.` or separated by a blank line) becomes
    /// the brief; the remaining text becomes the description.
    pub fn from_attrs(attrs: &[RustAttr]) -> (r: CDoc)
        ensures
            doc_view(r) == attrs_doc(attrs@),
    {
        match extract_doc_string(attrs) {
            Some(raw) => {
                let s = string_of(raw.as_slice());
                CDoc::from_raw(s.as_str())
            },
            None => CDoc { brief: None, description: None },
        }
    }
}

/// A single documented parameter entry parsed from a `# Parameters` section.
#[derive(Debug, Clone, Default, PartialEq, Eq)]
pub struct CParamDoc {
    /// The parameter name.
    pub name: String,
    /// The description of the parameter.
    pub description: String,
}

/// Documentation for a function, parsed from Rust doc comments.
#[derive(Debug, Clone, Default, PartialEq, Eq)]
pub struct CFunctionDoc {
    /// The first sentence of the doc comment.
    pub brief: Option<String>,
    /// The remaining description text after the brief, before any `#` sections.
    pub description: Option<String>,
    /// Parameter docs parsed from a `# Parameters` section.
    pub params: Vec<CParamDoc>,
    /// Return value doc parsed from a `# Returns` section.
    pub returns: Option<String>,
}

/// Which section a `# header` line opens: 1 for parameters, 2 for the return
/// value, 3 for any other.
pub open spec fn section_of(header: Seq<char>) -> int {
    let h = lower_text(trim(header));
    if h == "parameters"@ || h == "params"@ || h == "arguments"@ || h == "args"@ {
        1
    } else if h == "returns"@ || h == "return"@ || h == "return value"@ {
        2
    } else {
        3
    }
}

/// The name and description of a ``- `name`: description`` line.
pub open spec fn param_entry(t: Seq<char>) -> Option<(Seq<char>, Seq<char>)> {
    if starts_with(t, "- `"@) {
        let rest = t.subrange("- `"@.len() as int, t.len() as int);
        match find_at(rest, "`:"@, 0) {
            Some(cp) => Some((rest.subrange(0, cp), trim(rest.subrange(cp + 2, rest.len() as int)))),
            None => None,
        }
    } else {
        None
    }
}

/// The state while reading a function's doc: the current section (0 for the
/// body), the brief state, the parameter entries and the return lines.
pub type FnDocState = (int, (Option<Seq<char>>, Seq<Seq<char>>, bool), Seq<(Seq<char>, Seq<char>)>, Seq<Seq<char>>);

/// Reads one line of a function's doc.
pub open spec fn fn_doc_step(st: FnDocState, line: Seq<char>) -> FnDocState {
    let (sec, b, ps, rs) = st;
    let t = trim(line);
    if starts_with(t, "# "@) {
        (section_of(t.subrange("# "@.len() as int, t.len() as int)), b, ps, rs)
    } else if sec == 0 {
        (sec, brief_step(b, line), ps, rs)
    } else if sec == 1 {
        match param_entry(t) {
            Some(e) => (sec, b, ps.push(e), rs),
            None => st,
        }
    } else if sec == 2 {
        if t.len() > 0 || rs.len() > 0 {
            (sec, b, ps, rs.push(t))
        } else {
            st
        }
    } else {
        st
    }
}

/// [`fn_doc_step`] over all of `ls`.
pub open spec fn fn_doc_fold(ls: Seq<Seq<char>>) -> FnDocState
    decreases ls.len(),
{
    if ls.len() == 0 {
        (0, (None, Seq::empty(), false), Seq::empty(), Seq::empty())
    } else {
        fn_doc_step(fn_doc_fold(ls.drop_last()), ls.last())
    }
}

/// Empty lines at the end of `ls` dropped.
pub open spec fn drop_trailing_empty(ls: Seq<Seq<char>>) -> Seq<Seq<char>>
    decreases ls.len(),
{
    if ls.len() > 0 && ls.last().len() == 0 {
        drop_trailing_empty(ls.drop_last())
    } else {
        ls
    }
}

/// The return value doc made of the lines of a `# Returns` section.
pub open spec fn returns_of(rs: Seq<Seq<char>>) -> Option<Seq<char>> {
    let r = drop_trailing_empty(rs);
    if r.len() == 0 {
        None
    } else {
        Some(collapsed(trim(join(r, "\n"@))))
    }
}

/// A function doc's brief, description, parameter entries and return value.
pub type FnDocView = (Option<Seq<char>>, Option<Seq<char>>, Seq<(Seq<char>, Seq<char>)>, Option<Seq<char>>);

/// What a function doc with raw text `raw` holds.
pub open spec fn raw_fn_doc(raw: Seq<char>) -> FnDocView {
    let (_, b, ps, rs) = fn_doc_fold(lines_of(raw));
    (b.0, description_of(b.1), ps, returns_of(rs))
}

/// What the function doc of `attrs` holds.
pub open spec fn attrs_fn_doc(attrs: Seq<RustAttr>) -> FnDocView {
    match extracted_doc(attrs) {
        Some(raw) => raw_fn_doc(raw),
        None => (None, None, Seq::empty(), None),
    }
}

/// The names and descriptions of parameter docs.
pub open spec fn param_docs_view(ps: Seq<CParamDoc>) -> Seq<(Seq<char>, Seq<char>)> {
    ps.map_values(|p: CParamDoc| (p.name@, p.description@))
}

/// What a function doc holds.
pub open spec fn fn_doc_view(d: CFunctionDoc) -> FnDocView {
    (opt_view(d.brief), opt_view(d.description), param_docs_view(d.params@), opt_view(d.returns))
}

fn header_section(t: &Vec<char>) -> (sec: u8)
    requires
        starts_with(t@, "# "@),
    ensures
        sec as int == section_of(t@.subrange("# "@.len() as int, t@.len() as int)),
{
    proof {
        reveal_strlit("# ");
    }
    let header = slice_chars(t, 2, t.len());
    let trimmed = trim_chars(&header);
    let h = to_lowercase(string_of(trimmed.as_slice()).as_str());
    let h = h.as_str();
    if str_eq(h, "parameters") || str_eq(h, "params") || str_eq(h, "arguments") || str_eq(h, "args") {
        1
    } else if str_eq(h, "returns") || str_eq(h, "return") || str_eq(h, "return value") {
        2
    } else {
        3
    }
}

fn read_param_entry(t: &Vec<char>) -> (r: Option<CParamDoc>)
    ensures
        match r {
            Some(p) => param_entry(t@) == Some((p.name@, p.description@)),
            None => param_entry(t@) is None,
        },
{
    proof {
        reveal_strlit("- `");
        reveal_strlit("`:");
    }
    if !has_prefix(t, "- `") {
        return None;
    }
    let rest = slice_chars(t, 3, t.len());
    match find_in(&rest, "`:", 0) {
        Some(cp) => {
            let name = slice_chars(&rest, 0, cp);
            let tail = slice_chars(&rest, cp + 2, rest.len());
            let d = trim_chars(&tail);
            Some(CParamDoc { name: string_of(name.as_slice()), description: string_of(d.as_slice()) })
        },
        None => None,
    }
}

fn pop_trailing_empty(ls: &mut Vec<Vec<char>>)
    ensures
        views(final(ls)@) == drop_trailing_empty(views(old(ls)@)),
{
    loop
        invariant
            drop_trailing_empty(views(ls@)) == drop_trailing_empty(views(old(ls)@)),
        decreases ls@.len(),
    {
        if ls.len() == 0 || ls[ls.len() - 1].len() > 0 {
            return;
        }
        let ghost before = views(ls@);
        ls.pop();
        assert(views(ls@) =~= before.drop_last());
    }
}

fn returns_from(rs: &mut Vec<Vec<char>>) -> (r: Option<Vec<char>>)
    ensures
        opt_vec_view(r) == returns_of(views(old(rs)@)),
{
    pop_trailing_empty(rs);
    if rs.len() == 0 {
        None
    } else {
        let j = join_chars(rs, "\n");
        let t = trim_chars(&j);
        Some(collapse_single_newlines(&t))
    }
}

impl CFunctionDoc {
    /// Parses a function doc from its raw text, splitting it into brief,
    /// description, `# Parameters` entries and the `# Returns` section.
    pub fn from_raw(raw: &str) -> (r: CFunctionDoc)
        ensures
            fn_doc_view(r) == raw_fn_doc(raw@),
    {
        let rv = chars_of(raw);
        let ls = lines_chars(&rv);
        let ghost lv = views(ls@);
        let mut section: u8 = 0;
        let mut brief: Option<Vec<char>> = None;
        let mut desc: Vec<Vec<char>> = Vec::new();
        let mut found = false;
        let mut params: Vec<CParamDoc> = Vec::new();
        let mut rets: Vec<Vec<char>> = Vec::new();
        let mut i: usize = 0;
        while i < ls.len()
            invariant
                i <= ls@.len(),
                lv == views(ls@),
                section <= 3,
                fn_doc_fold(lv.subrange(0, i as int)) == (
                    section as int,
                    (opt_vec_view(brief), views(desc@), found),
                    param_docs_view(params@),
                    views(rets@),
                ),
            decreases ls.len() - i,
        {
            let ghost pre = lv.subrange(0, i + 1);
            assert(pre.drop_last() =~= lv.subrange(0, i as int));
            let line = &ls[i];
            assert(pre.last() == line@);
            let t = trim_chars(line);
            if has_prefix(&t, "# ") {
                section = header_section(&t);
            } else if section == 0 {
                brief_update(&mut brief, &mut desc, &mut found, line);
            } else if section == 1 {
                if let Some(e) = read_param_entry(&t) {
                    let ghost before = params@;
                    params.push(e);
                    assert(param_docs_view(params@) =~= param_docs_view(before).push((e.name@, e.description@)));
                }
            } else if section == 2 {
                if t.len() > 0 || rets.len() > 0 {
                    let ghost before = rets@;
                    rets.push(t);
                    assert(views(rets@) =~= views(before).push(t@));
                }
            }
            i = i + 1;
        }
        assert(lv.subrange(0, lv.len() as int) =~= lv);
        let d = description_from(&mut desc);
        let r = returns_from(&mut rets);
        CFunctionDoc {
            brief: opt_string(brief),
            description: opt_string(d),
            params,
            returns: opt_string(r),
        }
    }

    /// Parses a function doc from attributes, splitting it into brief,
    /// description, parameters and return value sections.
    pub fn from_attrs(attrs: &[RustAttr]) -> (r: CFunctionDoc)
        ensures
            fn_doc_view(r) == attrs_fn_doc(attrs@),
    {
        match extract_doc_string(attrs) {
            Some(raw) => {
                let s = string_of(raw.as_slice());
                CFunctionDoc::from_raw(s.as_str())
            },
            None => CFunctionDoc { brief: None, description: None, params: Vec::new(), returns: None },
        }
    }
}

/// The lines of a description as a Doxygen block emits them, after `flw`
/// tells whether a line has been written already; a blank line becomes a bare
/// ` *` line, and only the very first line of all may open the block.
pub open spec fn desc_fold(
    ls: Seq<Seq<char>>,
    flw0: bool,
    fp: Seq<char>,
    p: Seq<char>,
    cont: Seq<char>,
    indent: Seq<char>,
) -> (Seq<char>, bool)
    decreases ls.len(),
{
    if ls.len() == 0 {
        (Seq::empty(), flw0)
    } else {
        let (out, flw) = desc_fold(ls.drop_last(), flw0, fp, p, cont, indent);
        let line = ls.last();
        if trim(line).len() == 0 {
            (out + indent + " *\n"@, flw)
        } else {
            let pre = if !flw && ls.len() == 1 {
                fp
            } else {
                p
            };
            (out + wrapped(pre, cont, line), true)
        }
    }
}

/// The brief and description parts of a Doxygen block, after which the flag
/// tells whether a line has been written.
pub open spec fn body_text(
    brief: Option<Seq<char>>,
    desc: Option<Seq<char>>,
    indent: Seq<char>,
) -> (Seq<char>, bool) {
    let fp = indent + "/** "@;
    let p = indent + " * "@;
    let cont = indent + " *   "@;
    let (s1, f1) = match brief {
        Some(b) => (wrapped(fp, cont, b), true),
        None => (Seq::empty(), false),
    };
    match desc {
        Some(d) => {
            let sep = if f1 {
                indent + " *\n"@
            } else {
                Seq::empty()
            };
            let (x, f) = desc_fold(lines_of(d), f1, fp, p, cont, indent);
            (s1 + sep + x, f)
        },
        None => (s1, f1),
    }
}

/// The Doxygen block for a doc with `brief` and `desc`, indented by `indent`:
/// nothing for an empty doc, `/** brief */` when a lone single-line brief
/// fits the line, else a multi-line block.
pub open spec fn cdoc_text(brief: Option<Seq<char>>, desc: Option<Seq<char>>, indent: Seq<char>) -> Seq<char> {
    if brief is None && desc is None {
        Seq::empty()
    } else if desc is None && !brief.unwrap().contains('\n') && utf8_len(indent) + 4 + utf8_len(
        brief.unwrap(),
    ) + 4 <= 120 {
        indent + "/** "@ + brief.unwrap() + " */\n"@
    } else {
        body_text(brief, desc, indent).0 + indent + " */\n"@
    }
}

fn cat(a: &Vec<char>, b: &str) -> (r: Vec<char>)
    ensures
        r@ == a@ + b@,
{
    let mut r = slice_chars(a, 0, a.len());
    assert(r@ =~= a@);
    append_str(&mut r, b);
    r
}

/// Writes the lines of `d` into a Doxygen block (see [`desc_fold`]).
fn emit_desc(
    w: &mut Vec<char>,
    d: &Vec<char>,
    flw: &mut bool,
    fp: &Vec<char>,
    p: &Vec<char>,
    cont: &Vec<char>,
    indent: &Vec<char>,
)
    ensures
        (final(w)@.subrange(old(w)@.len() as int, final(w)@.len() as int), *final(flw)) == desc_fold(
            lines_of(d@),
            *old(flw),
            fp@,
            p@,
            cont@,
            indent@,
        ),
        final(w)@.subrange(0, old(w)@.len() as int) == old(w)@,
        old(w)@.len() <= final(w)@.len(),
{
    let ls = lines_chars(d);
    let ghost lv = views(ls@);
    let ghost base = w@;
    let ghost f0 = *flw;
    let mut i: usize = 0;
    while i < ls.len()
        invariant
            i <= ls@.len(),
            lv == views(ls@),
            base.len() <= w@.len(),
            w@.subrange(0, base.len() as int) == base,
            (w@.subrange(base.len() as int, w@.len() as int), *flw) == desc_fold(
                lv.subrange(0, i as int),
                f0,
                fp@,
                p@,
                cont@,
                indent@,
            ),
        decreases ls.len() - i,
    {
        let ghost pre = lv.subrange(0, i + 1);
        assert(pre.drop_last() =~= lv.subrange(0, i as int));
        let line = &ls[i];
        assert(pre.last() == line@);
        let ghost prev = w@;
        let t = trim_chars(line);
        if t.len() == 0 {
            append_chars(w, indent);
            append_str(w, " *\n");
        } else {
            if !*flw && i == 0 {
                write_wrapped(w, fp, cont, line);
            } else {
                write_wrapped(w, p, cont, line);
            }
            *flw = true;
        }
        assert(w@.subrange(0, prev.len() as int) =~= prev);
        assert(w@.subrange(0, base.len() as int) =~= base);
        assert(w@.subrange(base.len() as int, w@.len() as int) =~= prev.subrange(
            base.len() as int,
            prev.len() as int,
        ) + w@.subrange(prev.len() as int, w@.len() as int));
        i = i + 1;
    }
    assert(lv.subrange(0, lv.len() as int) =~= lv);
}

/// Writes the brief and description of a Doxygen block (see [`body_text`]).
fn emit_body(w: &mut Vec<char>, brief: &Option<String>, desc: &Option<String>, indent: &Vec<char>) -> (flw: bool)
    ensures
        final(w)@ == old(w)@ + body_text(opt_view(*brief), opt_view(*desc), indent@).0,
        flw == body_text(opt_view(*brief), opt_view(*desc), indent@).1,
{
    let fp = cat(indent, "/** ");
    let p = cat(indent, " * ");
    let cont = cat(indent, " *   ");
    let mut flw = false;
    if let Some(b) = brief {
        let bv = chars_of(b.as_str());
        write_wrapped(w, &fp, &cont, &bv);
        flw = true;
    }
    let ghost mid = w@;
    if let Some(d) = desc {
        if flw {
            append_chars(w, indent);
            append_str(w, " *\n");
        }
        let ghost mid2 = w@;
        let dv = chars_of(d.as_str());
        emit_desc(w, &dv, &mut flw, &fp, &p, &cont, indent);
        assert(w@ =~= mid2 + w@.subrange(mid2.len() as int, w@.len() as int));
    }
    flw
}

impl CDoc {
    /// Writes the doc as a Doxygen block indented by `indent` (see [`cdoc_text`]).
    pub fn emit_doxygen(&self, w: &mut Vec<char>, indent: &str)
        ensures
            final(w)@ == old(w)@ + cdoc_text(opt_view(self.brief), opt_view(self.description), indent@),
    {
        if self.brief.is_none() && self.description.is_none() {
            assert(old(w)@ + Seq::<char>::empty() =~= old(w)@);
            return;
        }
        let iv = chars_of(indent);
        if self.description.is_none() {
            if let Some(b) = &self.brief {
                let bv = chars_of(b.as_str());
                if !has_char(&bv, '\n') {
                    let single = utf8_width(&iv) as u128 + 4 + utf8_width(&bv) as u128 + 4;
                    if single <= 120 {
                        append_chars(w, &iv);
                        append_str(w, "/** ");
                        append_chars(w, &bv);
                        append_str(w, " */\n");
                        return;
                    }
                }
            }
        }
        emit_body(w, &self.brief, &self.description, &iv);
        append_chars(w, &iv);
        append_str(w, " */\n");
    }
}

/// The `@param` lines for the documented parameters of `ps`, after `flw0`
/// tells whether a line has been written; only the first parameter may open
/// the block.
pub open spec fn param_fold(ps: Seq<(Seq<char>, Option<Seq<char>>)>, flw0: bool) -> (Seq<char>, bool)
    decreases ps.len(),
{
    if ps.len() == 0 {
        (Seq::empty(), flw0)
    } else {
        let (out, flw) = param_fold(ps.drop_last(), flw0);
        let (name, d) = ps.last();
        match d {
            Some(text) => {
                let pre = if !flw && ps.len() == 1 {
                    "/** @param "@ + name + " "@
                } else {
                    " * @param "@ + name + " "@
                };
                (out + wrapped(pre, " *   "@, text), true)
            },
            None => (out, flw),
        }
    }
}

/// Whether some parameter of `ps` is documented.
pub open spec fn any_param_doc(ps: Seq<(Seq<char>, Option<Seq<char>>)>) -> bool {
    exists|j: int| 0 <= j < ps.len() && (#[trigger] ps[j]).1 is Some
}

/// The `@param` part of a function's Doxygen block, after which the flag
/// tells whether a line has been written.
pub open spec fn params_section(ps: Seq<(Seq<char>, Option<Seq<char>>)>, f2: bool) -> (Seq<char>, bool) {
    if ps.len() > 0 && any_param_doc(ps) {
        let sep = if f2 {
            " *\n"@
        } else {
            Seq::empty()
        };
        let (x, f) = param_fold(ps, f2);
        (sep + x, f)
    } else {
        (Seq::empty(), f2)
    }
}

/// The `@return` part of a function's Doxygen block.
pub open spec fn returns_section(ret: Option<Seq<char>>, f3: bool) -> Seq<char> {
    match ret {
        Some(r) => (if f3 {
            " *\n"@
        } else {
            Seq::empty()
        }) + wrapped(
            if !f3 {
                "/** @return "@
            } else {
                " * @return "@
            },
            " *   "@,
            r,
        ),
        None => Seq::empty(),
    }
}

/// The Doxygen block for a function doc `fd` on a function whose parameters
/// and their docs are `ps`.
pub open spec fn fdoc_text(fd: FnDocView, ps: Seq<(Seq<char>, Option<Seq<char>>)>) -> Seq<char> {
    if fd.0 is None && fd.1 is None && fd.2.len() == 0 && fd.3 is None {
        Seq::empty()
    } else {
        let (s12, f2) = body_text(fd.0, fd.1, Seq::empty());
        let (s3, f3) = params_section(ps, f2);
        s12 + s3 + returns_section(fd.3, f3) + " */\n"@
    }
}

/// The names of parameters and their docs.
pub open spec fn params_view(ps: Seq<(String, Option<String>)>) -> Seq<(Seq<char>, Option<Seq<char>>)> {
    ps.map_values(|p: (String, Option<String>)| (p.0@, opt_view(p.1)))
}

fn emit_params(w: &mut Vec<char>, params: &[(String, Option<String>)], flw0: bool) -> (flw: bool)
    ensures
        final(w)@ == old(w)@ + params_section(params_view(params@), flw0).0,
        flw == params_section(params_view(params@), flw0).1,
{
    let ghost pv = params_view(params@);
    let mut any = false;
    let mut j: usize = 0;
    while j < params.len()
        invariant
            j <= params@.len(),
            pv == params_view(params@),
            any == exists|k: int| 0 <= k < j && (#[trigger] pv[k]).1 is Some,
        decreases params.len() - j,
    {
        if params[j].1.is_some() {
            assert(pv[j as int].1 is Some);
        }
        any = any || params[j].1.is_some();
        j = j + 1;
    }
    let mut flw = flw0;
    if !(params.len() > 0 && any) {
        assert(old(w)@ + Seq::<char>::empty() =~= old(w)@);
        return flw;
    }
    let cont = chars_of(" *   ");
    if flw {
        append_str(w, " *\n");
    }
    let ghost mid = w@;
    let mut k: usize = 0;
    while k < params.len()
        invariant
            k <= params@.len(),
            pv == params_view(params@),
            cont@ == " *   "@,
            mid.len() <= w@.len(),
            w@.subrange(0, mid.len() as int) == mid,
            (w@.subrange(mid.len() as int, w@.len() as int), flw) == param_fold(pv.subrange(0, k as int), flw0),
        decreases params.len() - k,
    {
        let ghost pre = pv.subrange(0, k + 1);
        assert(pre.drop_last() =~= pv.subrange(0, k as int));
        let ghost prev = w@;
        let (name, d) = &params[k];
        if let Some(text) = d {
            let mut pfx = if !flw && k == 0 {
                chars_of("/** @param ")
            } else {
                chars_of(" * @param ")
            };
            append_str(&mut pfx, name.as_str());
            append_str(&mut pfx, " ");
            let tv = chars_of(text.as_str());
            write_wrapped(w, &pfx, &cont, &tv);
            flw = true;
        }
        assert(w@.subrange(0, prev.len() as int) =~= prev);
        assert(w@.subrange(0, mid.len() as int) =~= mid);
        assert(w@.subrange(mid.len() as int, w@.len() as int) =~= prev.subrange(
            mid.len() as int,
            prev.len() as int,
        ) + w@.subrange(prev.len() as int, w@.len() as int));
        k = k + 1;
    }
    assert(pv.subrange(0, pv.len() as int) =~= pv);
    assert(w@ =~= mid + w@.subrange(mid.len() as int, w@.len() as int));
    flw
}

fn emit_returns(w: &mut Vec<char>, ret: &Option<String>, flw: bool)
    ensures
        final(w)@ == old(w)@ + returns_section(opt_view(*ret), flw),
{
    if let Some(r) = ret {
        if flw {
            append_str(w, " *\n");
        }
        let pfx = if !flw {
            chars_of("/** @return ")
        } else {
            chars_of(" * @return ")
        };
        let cont = chars_of(" *   ");
        let rv = chars_of(r.as_str());
        write_wrapped(w, &pfx, &cont, &rv);
    } else {
        assert(old(w)@ + Seq::<char>::empty() =~= old(w)@);
    }
}

impl CFunctionDoc {
    /// Writes the doc as a Doxygen block, with `@param` lines for the
    /// documented parameters among `params` and an `@return` line.
    #[verifier::spinoff_prover]
    #[verifier::rlimit(50)]
    pub fn emit_doxygen(&self, w: &mut Vec<char>, params: &[(String, Option<String>)])
        ensures
            final(w)@ == old(w)@ + fdoc_text(fn_doc_view(*self), params_view(params@)),
    {
        if self.brief.is_none() && self.description.is_none() && self.params.len() == 0
            && self.returns.is_none() {
            assert(old(w)@ + Seq::<char>::empty() =~= old(w)@);
            return;
        }
        let empty: Vec<char> = Vec::new();
        let flw = emit_body(w, &self.brief, &self.description, &empty);
        assert(empty@ + " *\n"@ =~= " *\n"@);
        assert(empty@ + "/** "@ =~= "/** "@);
        assert(empty@ + " *   "@ =~= " *   "@);
        assert(empty@ + " * "@ =~= " * "@);
        let flw = emit_params(w, params, flw);
        emit_returns(w, &self.returns, flw);
        append_str(w, " */\n");
    }
}
} // verus!
