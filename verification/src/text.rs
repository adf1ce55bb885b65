//! Character-level helpers shared by the header emitters.

use vstd::prelude::*;

verus! {

/// Number of bytes `s` occupies when encoded as UTF-8, which `str::len` reports.
pub open spec fn utf8_len(s: Seq<char>) -> nat {
    vstd::utf8::encode_utf8(s).len()
}

/// Unicode `White_Space`, the set that `char::is_whitespace` tests.
pub open spec fn is_ws(c: char) -> bool {
    let v = c as u32;
    (0x9 <= v && v <= 0xd) || v == 0x20 || v == 0x85 || v == 0xa0 || v == 0x1680 || (0x2000 <= v
        && v <= 0x200a) || v == 0x2028 || v == 0x2029 || v == 0x202f || v == 0x205f || v == 0x3000
}

pub fn char_is_whitespace(c: char) -> (r: bool)
    ensures
        r == is_ws(c),
{
    let v = c as u32;
    (0x9 <= v && v <= 0xd) || v == 0x20 || v == 0x85 || v == 0xa0 || v == 0x1680 || (0x2000 <= v
        && v <= 0x200a) || v == 0x2028 || v == 0x2029 || v == 0x202f || v == 0x205f || v == 0x3000
}

/// Appends one character to a string.
#[verifier::external_body]
pub(crate) fn push_char(s: &mut String, c: char)
    ensures
        final(s)@ == old(s)@.push(c),
{
    s.push(c);
}

/// The characters of a string slice, in order.
#[verifier::external_body]
pub(crate) fn chars_of(s: &str) -> (v: Vec<char>)
    ensures
        v@ == s@,
{
    s.chars().collect()
}

/// Collects characters into an owned string.
#[verifier::external_body]
pub(crate) fn string_of(v: &[char]) -> (s: String)
    ensures
        s@ == v@,
{
    v.iter().collect()
}

/// An owned copy of a string slice.
pub fn owned(s: &str) -> (r: String)
    ensures
        r@ == s@,
{
    String::from_str(s)
}

/// Copies a string, keeping its contents.
pub fn copy_string(s: &String) -> (r: String)
    ensures
        r@ == s@,
{
    s.clone()
}

/// The chars of `s` from `start` up to `end`.
pub fn sub_chars(s: &Vec<char>, start: usize, end: usize) -> (r: String)
    requires
        start <= end <= s@.len(),
    ensures
        r@ == s@.subrange(start as int, end as int),
{
    let mut v: Vec<char> = Vec::new();
    let mut i = start;
    while i < end
        invariant
            start <= i <= end <= s@.len(),
            v@ == s@.subrange(start as int, i as int),
        decreases end - i,
    {
        v.push(s[i]);
        i = i + 1;
        assert(v@ =~= s@.subrange(start as int, i as int));
    }
    string_of(v.as_slice())
}

/// UTF-8 byte length of a string, as `str::len` reports it.
pub fn byte_len(s: &str) -> (n: usize)
    ensures
        n as nat == utf8_len(s@),
{
    s.as_bytes().len()
}

/// Structural equality of two strings.
pub fn str_eq(a: &str, b: &str) -> (r: bool)
    ensures
        r == (a@ == b@),
{
    let x = owned(a);
    let y = owned(b);
    x == y
}



/// `s` without leading whitespace.
pub open spec fn trim_start(s: Seq<char>) -> Seq<char>
    decreases s.len(),
{
    if s.len() > 0 && is_ws(s[0]) {
        trim_start(s.drop_first())
    } else {
        s
    }
}

/// `s` without trailing whitespace.
pub open spec fn trim_end(s: Seq<char>) -> Seq<char>
    decreases s.len(),
{
    if s.len() > 0 && is_ws(s.last()) {
        trim_end(s.drop_last())
    } else {
        s
    }
}

/// `s` without leading and trailing whitespace, as `str::trim` leaves it.
pub open spec fn trim(s: Seq<char>) -> Seq<char> {
    trim_end(trim_start(s))
}

proof fn lemma_trim_start_at(s: Seq<char>, a: int)
    requires
        0 <= a <= s.len(),
        forall|j: int| 0 <= j < a ==> is_ws(#[trigger] s[j]),
        a == s.len() || !is_ws(s[a]),
    ensures
        trim_start(s) == s.subrange(a, s.len() as int),
    decreases a,
{
    if a > 0 {
        lemma_trim_start_at(s.drop_first(), a - 1);
        assert(s.drop_first().subrange(a - 1, s.len() - 1) =~= s.subrange(a, s.len() as int));
    } else {
        assert(s.subrange(0, s.len() as int) =~= s);
    }
}

proof fn lemma_trim_end_at(s: Seq<char>, b: int)
    requires
        0 <= b <= s.len(),
        forall|j: int| b <= j < s.len() ==> is_ws(#[trigger] s[j]),
        b == 0 || !is_ws(s[b - 1]),
    ensures
        trim_end(s) == s.subrange(0, b),
    decreases s.len() - b,
{
    if b < s.len() {
        lemma_trim_end_at(s.drop_last(), b);
        assert(s.drop_last().subrange(0, b) =~= s.subrange(0, b));
    } else {
        assert(s.subrange(0, s.len() as int) =~= s);
    }
}

/// The characters of `s` from `start` up to `end`, as a vector.
pub fn slice_chars(s: &Vec<char>, start: usize, end: usize) -> (r: Vec<char>)
    requires
        start <= end <= s@.len(),
    ensures
        r@ == s@.subrange(start as int, end as int),
{
    let mut v: Vec<char> = Vec::new();
    let mut i = start;
    while i < end
        invariant
            start <= i <= end <= s@.len(),
            v@ == s@.subrange(start as int, i as int),
        decreases end - i,
    {
        v.push(s[i]);
        i = i + 1;
        assert(v@ =~= s@.subrange(start as int, i as int));
    }
    v
}

/// `s` without leading and trailing whitespace.
pub fn trim_chars(s: &Vec<char>) -> (r: Vec<char>)
    ensures
        r@ == trim(s@),
{
    let n = s.len();
    let mut a: usize = 0;
    while a < n && char_is_whitespace(s[a])
        invariant
            a <= n == s@.len(),
            forall|j: int| 0 <= j < a ==> is_ws(#[trigger] s@[j]),
        decreases n - a,
    {
        a = a + 1;
    }
    proof {
        lemma_trim_start_at(s@, a as int);
    }
    let ghost t = s@.subrange(a as int, n as int);
    let mut b: usize = n;
    while b > a && char_is_whitespace(s[b - 1])
        invariant
            a <= b <= n == s@.len(),
            t == s@.subrange(a as int, n as int),
            forall|j: int| b <= j < n ==> is_ws(#[trigger] s@[j]),
        decreases b - a,
    {
        b = b - 1;
    }
    proof {
        assert forall|j: int| b - a <= j < t.len() implies is_ws(#[trigger] t[j]) by {
            assert(t[j] == s@[a + j]);
        }
        if b > a {
            assert(t[b - a - 1] == s@[b - 1]);
        }
        lemma_trim_end_at(t, b - a);
        assert(t.subrange(0, b - a) =~= s@.subrange(a as int, b as int));
    }
    slice_chars(s, a, b)
}

/// The views of a sequence of character vectors.
pub open spec fn views(v: Seq<Vec<char>>) -> Seq<Seq<char>> {
    v.map_values(|x: Vec<char>| x@)
}

/// A line without a carriage return that ended it.
pub open spec fn strip_cr(l: Seq<char>) -> Seq<char> {
    if l.len() > 0 && l.last() == '\r' {
        l.drop_last()
    } else {
        l
    }
}

/// The lines finished so far, and the one in progress, after reading `s`.
pub open spec fn lines_fold(s: Seq<char>) -> (Seq<Seq<char>>, Seq<char>)
    decreases s.len(),
{
    if s.len() == 0 {
        (Seq::empty(), Seq::empty())
    } else {
        let (ls, cur) = lines_fold(s.drop_last());
        if s.last() == '\n' {
            (ls.push(strip_cr(cur)), Seq::empty())
        } else {
            (ls, cur.push(s.last()))
        }
    }
}

/// The lines of `s` as `str::lines` yields them: split at `\n`, a `\r` before
/// the `\n` dropped, and no empty line after a final line ending.
pub open spec fn lines_of(s: Seq<char>) -> Seq<Seq<char>> {
    let (ls, cur) = lines_fold(s);
    if cur.len() > 0 {
        ls.push(cur)
    } else {
        ls
    }
}

fn strip_cr_vec(l: Vec<char>) -> (r: Vec<char>)
    ensures
        r@ == strip_cr(l@),
{
    let mut l = l;
    if l.len() > 0 && l[l.len() - 1] == '\r' {
        l.pop();
    }
    l
}

/// The lines of `s`.
pub fn lines_chars(s: &Vec<char>) -> (r: Vec<Vec<char>>)
    ensures
        views(r@) == lines_of(s@),
{
    let mut ls: Vec<Vec<char>> = Vec::new();
    let mut cur: Vec<char> = Vec::new();
    let mut i: usize = 0;
    while i < s.len()
        invariant
            i <= s@.len(),
            (views(ls@), cur@) == lines_fold(s@.subrange(0, i as int)),
        decreases s.len() - i,
    {
        let ghost pre = s@.subrange(0, i + 1);
        assert(pre.drop_last() =~= s@.subrange(0, i as int));
        let c = s[i];
        if c == '\n' {
            let done = strip_cr_vec(cur);
            ls.push(done);
            cur = Vec::new();
            assert(views(ls@) =~= lines_fold(pre).0);
        } else {
            cur.push(c);
        }
        i = i + 1;
    }
    assert(s@.subrange(0, s@.len() as int) =~= s@);
    if cur.len() > 0 {
        ls.push(cur);
        assert(views(ls@) =~= lines_of(s@));
    }
    ls
}

/// The words of `s` finished so far, and the one in progress.
pub open spec fn words_fold(s: Seq<char>) -> (Seq<Seq<char>>, Seq<char>)
    decreases s.len(),
{
    if s.len() == 0 {
        (Seq::empty(), Seq::empty())
    } else {
        let (ws, cur) = words_fold(s.drop_last());
        if is_ws(s.last()) {
            if cur.len() > 0 {
                (ws.push(cur), Seq::empty())
            } else {
                (ws, Seq::empty())
            }
        } else {
            (ws, cur.push(s.last()))
        }
    }
}

/// The maximal runs of non-whitespace in `s`, as `str::split_whitespace` yields them.
pub open spec fn words_of(s: Seq<char>) -> Seq<Seq<char>> {
    let (ws, cur) = words_fold(s);
    if cur.len() > 0 {
        ws.push(cur)
    } else {
        ws
    }
}

/// The words of `s`.
pub fn words_chars(s: &Vec<char>) -> (r: Vec<Vec<char>>)
    ensures
        views(r@) == words_of(s@),
{
    let mut ws: Vec<Vec<char>> = Vec::new();
    let mut cur: Vec<char> = Vec::new();
    let mut i: usize = 0;
    while i < s.len()
        invariant
            i <= s@.len(),
            (views(ws@), cur@) == words_fold(s@.subrange(0, i as int)),
        decreases s.len() - i,
    {
        let ghost pre = s@.subrange(0, i + 1);
        assert(pre.drop_last() =~= s@.subrange(0, i as int));
        let c = s[i];
        if char_is_whitespace(c) {
            if cur.len() > 0 {
                ws.push(cur);
                assert(views(ws@) =~= words_fold(pre).0);
            }
            cur = Vec::new();
        } else {
            cur.push(c);
        }
        i = i + 1;
    }
    assert(s@.subrange(0, s@.len() as int) =~= s@);
    if cur.len() > 0 {
        ws.push(cur);
        assert(views(ws@) =~= words_of(s@));
    }
    ws
}

/// The parts of `s` finished so far, and the one in progress, when splitting
/// at each `\n\n` from left to right.
pub open spec fn paragraphs_fold(s: Seq<char>) -> (Seq<Seq<char>>, Seq<char>)
    decreases s.len(),
{
    if s.len() == 0 {
        (Seq::empty(), Seq::empty())
    } else {
        let (ps, cur) = paragraphs_fold(s.drop_last());
        if s.last() == '\n' && cur.len() > 0 && cur.last() == '\n' {
            (ps.push(cur.drop_last()), Seq::empty())
        } else {
            (ps, cur.push(s.last()))
        }
    }
}

/// `s` split at each `\n\n`, as `str::split("\n\n")` yields it.
pub open spec fn paragraphs_of(s: Seq<char>) -> Seq<Seq<char>> {
    let (ps, cur) = paragraphs_fold(s);
    ps.push(cur)
}

/// The parts of `s` between occurrences of `\n\n`.
pub fn paragraphs_chars(s: &Vec<char>) -> (r: Vec<Vec<char>>)
    ensures
        views(r@) == paragraphs_of(s@),
{
    let mut ps: Vec<Vec<char>> = Vec::new();
    let mut cur: Vec<char> = Vec::new();
    let mut i: usize = 0;
    while i < s.len()
        invariant
            i <= s@.len(),
            (views(ps@), cur@) == paragraphs_fold(s@.subrange(0, i as int)),
        decreases s.len() - i,
    {
        let ghost pre = s@.subrange(0, i + 1);
        assert(pre.drop_last() =~= s@.subrange(0, i as int));
        let c = s[i];
        if c == '\n' && cur.len() > 0 && cur[cur.len() - 1] == '\n' {
            cur.pop();
            ps.push(cur);
            cur = Vec::new();
            assert(views(ps@) =~= paragraphs_fold(pre).0);
        } else {
            cur.push(c);
        }
        i = i + 1;
    }
    assert(s@.subrange(0, s@.len() as int) =~= s@);
    ps.push(cur);
    assert(views(ps@) =~= paragraphs_of(s@));
    ps
}

/// The parts joined with `sep` between them.
pub open spec fn join(parts: Seq<Seq<char>>, sep: Seq<char>) -> Seq<char>
    decreases parts.len(),
{
    if parts.len() == 0 {
        Seq::empty()
    } else if parts.len() == 1 {
        parts[0]
    } else {
        join(parts.drop_last(), sep) + sep + parts.last()
    }
}

/// Joins the parts with `sep` between them.
pub fn join_chars(parts: &Vec<Vec<char>>, sep: &str) -> (r: Vec<char>)
    ensures
        r@ == join(views(parts@), sep@),
{
    let sepv = chars_of(sep);
    let mut out: Vec<char> = Vec::new();
    let mut i: usize = 0;
    while i < parts.len()
        invariant
            i <= parts@.len(),
            sepv@ == sep@,
            out@ == join(views(parts@.subrange(0, i as int)), sep@),
        decreases parts.len() - i,
    {
        let ghost pre = parts@.subrange(0, i + 1);
        assert(views(pre).drop_last() =~= views(parts@.subrange(0, i as int)));
        if i > 0 {
            let mut k: usize = 0;
            let ghost before = out@;
            while k < sepv.len()
                invariant
                    k <= sepv@.len(),
                    out@ == before + sepv@.subrange(0, k as int),
                decreases sepv.len() - k,
            {
                out.push(sepv[k]);
                k = k + 1;
                assert(out@ =~= before + sepv@.subrange(0, k as int));
            }
            assert(sepv@.subrange(0, sepv@.len() as int) =~= sepv@);
        }
        let ghost before2 = out@;
        let part = &parts[i];
        let mut k: usize = 0;
        while k < part.len()
            invariant
                k <= part@.len(),
                out@ == before2 + part@.subrange(0, k as int),
            decreases part.len() - k,
        {
            out.push(part[k]);
            k = k + 1;
            assert(out@ =~= before2 + part@.subrange(0, k as int));
        }
        assert(part@.subrange(0, part@.len() as int) =~= part@);
        i = i + 1;
        assert(views(pre).last() == parts@[i - 1]@);
        assert(i == 1 ==> views(pre) =~= seq![parts@[0]@]);
        assert(out@ =~= join(views(parts@.subrange(0, i as int)), sep@));
    }
    assert(parts@.subrange(0, parts@.len() as int) =~= parts@);
    out
}

/// Appends all of `v` to `out`.
pub fn append_chars(out: &mut Vec<char>, v: &Vec<char>)
    ensures
        final(out)@ == old(out)@ + v@,
{
    let mut k: usize = 0;
    while k < v.len()
        invariant
            k <= v@.len(),
            out@ == old(out)@ + v@.subrange(0, k as int),
        decreases v.len() - k,
    {
        out.push(v[k]);
        k = k + 1;
        assert(out@ =~= old(out)@ + v@.subrange(0, k as int));
    }
    assert(v@.subrange(0, v@.len() as int) =~= v@);
}

/// Whether `s` begins with `p`.
pub open spec fn starts_with(s: Seq<char>, p: Seq<char>) -> bool {
    p.len() <= s.len() && s.subrange(0, p.len() as int) == p
}

/// Whether `s` ends with `p`.
pub open spec fn ends_with(s: Seq<char>, p: Seq<char>) -> bool {
    p.len() <= s.len() && s.subrange(s.len() - p.len(), s.len() as int) == p
}

pub fn has_prefix(s: &Vec<char>, p: &str) -> (r: bool)
    ensures
        r == starts_with(s@, p@),
{
    let pv = chars_of(p);
    if pv.len() > s.len() {
        return false;
    }
    let mut i: usize = 0;
    while i < pv.len()
        invariant
            i <= pv@.len() <= s@.len(),
            pv@ == p@,
            forall|j: int| 0 <= j < i ==> s@[j] == pv@[j],
        decreases pv.len() - i,
    {
        if s[i] != pv[i] {
            assert(s@.subrange(0, pv@.len() as int)[i as int] != p@[i as int]);
            return false;
        }
        i = i + 1;
    }
    assert(s@.subrange(0, pv@.len() as int) =~= p@);
    true
}

pub fn has_suffix(s: &Vec<char>, p: &str) -> (r: bool)
    ensures
        r == ends_with(s@, p@),
{
    let pv = chars_of(p);
    if pv.len() > s.len() {
        return false;
    }
    let off = s.len() - pv.len();
    let mut i: usize = 0;
    while i < pv.len()
        invariant
            i <= pv@.len() <= s@.len(),
            off == s@.len() - pv@.len(),
            off + pv@.len() == s@.len(),
            s@.len() <= usize::MAX,
            pv@ == p@,
            forall|j: int| 0 <= j < i ==> s@[off + j] == pv@[j],
        decreases pv.len() - i,
    {
        if s[off + i] != pv[i] {
            assert(s@.subrange(off as int, s@.len() as int)[i as int] != p@[i as int]);
            return false;
        }
        i = i + 1;
    }
    assert(s@.subrange(off as int, s@.len() as int) =~= p@);
    true
}

/// Finds the first occurrence of the non-empty pattern `p` in `s`, from `from` on.
pub fn find_from(s: &Vec<char>, p: &str, from: usize) -> (r: Option<usize>)
    requires
        from <= s@.len(),
        p@.len() > 0,
    ensures
        match r {
            Some(i) => from <= i && i + p@.len() <= s@.len() && s@.subrange(i as int, i + p@.len()) == p@
                && forall|j: int| from <= j < i ==> #[trigger] s@.subrange(j, j + p@.len()) != p@,
            None => forall|j: int| from <= j && j + p@.len() <= s@.len() ==> #[trigger] s@.subrange(j, j + p@.len()) != p@,
        },
{
    let pv = chars_of(p);
    if pv.len() > s.len() {
        return None;
    }
    let last = s.len() - pv.len();
    let mut i = from;
    while i <= last
        invariant
            from <= i,
            i <= s@.len() + 1,
            last + pv@.len() == s@.len(),
            s@.len() <= usize::MAX,
            pv@.len() > 0,
            pv@ == p@,
            forall|j: int| from <= j < i ==> #[trigger] s@.subrange(j, j + p@.len()) != p@,
        decreases s@.len() + 1 - i,
    {
        assert(i + pv@.len() <= s@.len());
        let mut k: usize = 0;
        let mut ok = true;
        while k < pv.len()
            invariant
                k <= pv@.len(),
                i + pv@.len() <= s@.len(),
                s@.len() <= usize::MAX,
                pv@ == p@,
                ok ==> forall|m: int| 0 <= m < k ==> s@[i + m] == pv@[m],
                !ok ==> s@.subrange(i as int, i + p@.len()) != p@,
            decreases pv.len() - k,
        {
            if s[i + k] != pv[k] {
                assert(s@.subrange(i as int, i + p@.len())[k as int] != p@[k as int]);
                ok = false;
            }
            k = k + 1;
        }
        if ok {
            assert(s@.subrange(i as int, i + p@.len()) =~= p@);
            return Some(i);
        }
        i = i + 1;
    }
    None
}



/// Appends all of `s` to `out`.
pub fn append_str(out: &mut Vec<char>, s: &str)
    ensures
        final(out)@ == old(out)@ + s@,
{
    let v = chars_of(s);
    append_chars(out, &v);
}

/// Where `p` first occurs in `s` at or after `i`.
pub open spec fn find_at(s: Seq<char>, p: Seq<char>, i: int) -> Option<int>
    decreases s.len() + 1 - i,
{
    if i < 0 || i + p.len() > s.len() {
        None
    } else if s.subrange(i, i + p.len()) == p {
        Some(i)
    } else {
        find_at(s, p, i + 1)
    }
}

/// Where `p` first occurs in `s`.
pub open spec fn find_first(s: Seq<char>, p: Seq<char>) -> Option<int> {
    find_at(s, p, 0)
}

proof fn lemma_find_at_some(s: Seq<char>, p: Seq<char>, from: int, i: int)
    requires
        0 <= from <= i,
        i + p.len() <= s.len(),
        s.subrange(i, i + p.len()) == p,
        forall|j: int| from <= j < i ==> #[trigger] s.subrange(j, j + p.len()) != p,
    ensures
        find_at(s, p, from) == Some(i),
    decreases i - from,
{
    if from < i {
        lemma_find_at_some(s, p, from + 1, i);
    }
}

proof fn lemma_find_at_none(s: Seq<char>, p: Seq<char>, from: int)
    requires
        0 <= from,
        forall|j: int| from <= j && j + p.len() <= s.len() ==> #[trigger] s.subrange(j, j + p.len()) != p,
    ensures
        find_at(s, p, from) is None,
    decreases s.len() + 1 - from,
{
    if from + p.len() <= s.len() {
        lemma_find_at_none(s, p, from + 1);
    }
}

/// Finds where the non-empty pattern `p` first occurs in `s` at or after `from`.
pub fn find_in(s: &Vec<char>, p: &str, from: usize) -> (r: Option<usize>)
    requires
        from <= s@.len(),
        p@.len() > 0,
    ensures
        match r {
            Some(i) => find_at(s@, p@, from as int) == Some(i as int) && i + p@.len() <= s@.len(),
            None => find_at(s@, p@, from as int) is None,
        },
{
    let r = find_from(s, p, from);
    proof {
        match r {
            Some(i) => lemma_find_at_some(s@, p@, from as int, i as int),
            None => lemma_find_at_none(s@, p@, from as int),
        }
    }
    r
}

/// Whether `c` occurs in `s`.
pub fn has_char(s: &Vec<char>, c: char) -> (r: bool)
    ensures
        r == s@.contains(c),
{
    let mut i: usize = 0;
    while i < s.len()
        invariant
            i <= s@.len(),
            forall|j: int| 0 <= j < i ==> s@[j] != c,
        decreases s.len() - i,
    {
        if s[i] == c {
            return true;
        }
        i = i + 1;
    }
    false
}


/// Where `p` is found from `i` on, it lies within `s` at or after `i`.
pub proof fn lemma_find_at_range(s: Seq<char>, p: Seq<char>, i: int)
    ensures
        find_at(s, p, i) matches Some(k) ==> i <= k && k + p.len() <= s.len(),
    decreases s.len() + 1 - i,
{
    if !(i < 0 || i + p.len() > s.len()) && s.subrange(i, i + p.len()) != p {
        lemma_find_at_range(s, p, i + 1);
    }
}

/// Where `p` is found from `i` on, it is there.
pub proof fn lemma_find_at_match(s: Seq<char>, p: Seq<char>, i: int)
    ensures
        find_at(s, p, i) matches Some(k) ==> s.subrange(k, k + p.len()) == p,
    decreases s.len() + 1 - i,
{
    if !(i < 0 || i + p.len() > s.len()) && s.subrange(i, i + p.len()) != p {
        lemma_find_at_match(s, p, i + 1);
    }
}

/// What `str::to_lowercase` makes of `s`: each character replaced by its
/// Unicode lowercase mapping.
pub uninterp spec fn lower_text(s: Seq<char>) -> Seq<char>;

/// `str::to_lowercase`. Its result is named [`lower_text`] of the argument;
/// the Unicode case mappings it applies are not restated here.
#[verifier::external_body]
pub(crate) fn to_lowercase(s: &str) -> (r: String)
    ensures
        r@ == lower_text(s@),
{
    s.to_lowercase()
}
} // verus!
