//! Rust literal expressions rewritten as C ones.

use vstd::prelude::*;
use crate::syntax::{RustToken, token_text};
use crate::text::{chars_of, string_of, has_prefix, has_suffix, ends_with, starts_with, append_chars, owned, str_eq, push_char};

verus! {

/// The integer type suffix that `s` ends with, if any, leaving something before it.
pub open spec fn int_suffix_of(s: Seq<char>) -> Option<Seq<char>> {
    let cands = seq![
        "usize"@, "isize"@, "u128"@, "i128"@, "u16"@, "u32"@, "u64"@, "i16"@, "i32"@, "i64"@,
        "u8"@, "i8"@,
    ];
    suffix_among(s, cands)
}

/// The first of `cands` that `s` ends with, leaving something before it.
pub open spec fn suffix_among(s: Seq<char>, cands: Seq<Seq<char>>) -> Option<Seq<char>>
    decreases cands.len(),
{
    if cands.len() == 0 {
        None
    } else if ends_with(s, cands[0]) && s.len() > cands[0].len() {
        Some(cands[0])
    } else {
        suffix_among(s, cands.drop_first())
    }
}

/// `s` without its integer type suffix.
pub open spec fn without_suffix(s: Seq<char>) -> Seq<char> {
    match int_suffix_of(s) {
        Some(x) => s.subrange(0, s.len() - x.len()),
        None => s,
    }
}

/// `s` with every `_` removed.
pub open spec fn drop_underscores(s: Seq<char>) -> Seq<char>
    decreases s.len(),
{
    if s.len() == 0 {
        s
    } else if s.last() == '_' {
        drop_underscores(s.drop_last())
    } else {
        drop_underscores(s.drop_last()).push(s.last())
    }
}

/// The value of a string of binary digits.
pub open spec fn bin_value(ds: Seq<char>) -> nat
    decreases ds.len(),
{
    if ds.len() == 0 {
        0
    } else {
        bin_value(ds.drop_last()) * 2 + if ds.last() == '1' {
            1nat
        } else {
            0nat
        }
    }
}

/// Whether `ds` parses as a binary `u64`: non-empty, only `0` and `1`, and in range.
pub open spec fn parses_as_bin_u64(ds: Seq<char>) -> bool {
    &&& ds.len() > 0
    &&& forall|i: int| 0 <= i < ds.len() ==> (#[trigger] ds[i] == '0' || ds[i] == '1')
    &&& bin_value(ds) <= u64::MAX
}

/// The uppercase hexadecimal digit for `d < 16`.
pub open spec fn hex_digit(d: nat) -> char {
    if d < 10 {
        (('0' as nat) + d) as char
    } else {
        (('A' as nat) + (d - 10)) as char
    }
}

/// `n` in uppercase hexadecimal, without leading zeros.
pub open spec fn hex_text(n: nat) -> Seq<char>
    decreases n,
{
    if n < 16 {
        seq![hex_digit(n)]
    } else {
        hex_text(n / 16).push(hex_digit(n % 16))
    }
}

/// A Rust integer literal as C spells it: the type suffix dropped, a binary
/// literal rewritten in hexadecimal, and digit separators removed.
pub open spec fn c_literal(s: Seq<char>) -> Seq<char> {
    let stripped = without_suffix(s);
    if starts_with(stripped, "0b"@) && parses_as_bin_u64(
        drop_underscores(stripped.subrange(2, stripped.len() as int)),
    ) {
        "0x"@ + hex_text(bin_value(drop_underscores(stripped.subrange(2, stripped.len() as int))))
    } else {
        drop_underscores(stripped)
    }
}

/// Where `s` ends with `c`, the `k`-th character of `c` stands at its place
/// among the last characters of `s`.
proof fn lemma_ends_char(s: Seq<char>, c: Seq<char>, k: int)
    requires
        ends_with(s, c),
        0 <= k < c.len(),
    ensures
        s[s.len() - c.len() + k] == c[k],
{
    assert(s.subrange(s.len() - c.len(), s.len() as int)[k] == s[s.len() - c.len() + k]);
}

/// A string ending with `t` does not end with `c` where the two differ
/// `k` characters from their ends, within both.
proof fn lemma_not_ends(s: Seq<char>, t: Seq<char>, c: Seq<char>, k: int)
    requires
        ends_with(s, t),
        0 <= k < t.len(),
        k < c.len(),
        t[t.len() - 1 - k] != c[c.len() - 1 - k],
    ensures
        !ends_with(s, c),
{
    if ends_with(s, c) {
        lemma_ends_char(s, t, t.len() - 1 - k);
        lemma_ends_char(s, c, c.len() - 1 - k);
    }
}

/// Where the `i`-th candidate is the first that `s` ends with (leaving
/// something before it), it is the suffix found.
proof fn lemma_suffix_among_hit(s: Seq<char>, cands: Seq<Seq<char>>, i: int)
    requires
        0 <= i < cands.len(),
        ends_with(s, cands[i]),
        s.len() > cands[i].len(),
        forall|j: int| 0 <= j < i ==> !ends_with(s, #[trigger] cands[j]),
    ensures
        suffix_among(s, cands) == Some(cands[i]),
    decreases i,
{
    if i > 0 {
        assert forall|j: int| 0 <= j < i - 1 implies !ends_with(s, #[trigger] cands.drop_first()[j]) by {
            assert(cands.drop_first()[j] == cands[j + 1]);
        }
        assert(cands.drop_first()[i - 1] == cands[i]);
        lemma_suffix_among_hit(s, cands.drop_first(), i - 1);
    }
}

/// Where `s` ends with none of the candidates, no suffix is found.
proof fn lemma_suffix_among_none(s: Seq<char>, cands: Seq<Seq<char>>)
    requires
        forall|j: int| 0 <= j < cands.len() ==> !ends_with(s, #[trigger] cands[j]),
    ensures
        suffix_among(s, cands) is None,
    decreases cands.len(),
{
    if cands.len() > 0 {
        assert forall|j: int| 0 <= j < cands.len() - 1 implies !ends_with(s, #[trigger] cands.drop_first()[j]) by {
            assert(cands.drop_first()[j] == cands[j + 1]);
        }
        lemma_suffix_among_none(s, cands.drop_first());
    }
}

/// Whether `d` is a non-empty run of decimal digits.
pub open spec fn is_decimal_digits(d: Seq<char>) -> bool {
    &&& d.len() > 0
    &&& forall|i: int| 0 <= i < d.len() ==> '0' <= #[trigger] d[i] <= '9'
}

/// The integer type suffixes Rust accepts on a literal.
pub open spec fn rust_int_suffixes() -> Seq<Seq<char>> {
    seq!["u8"@, "u16"@, "u32"@, "u64"@, "u128"@, "usize"@, "i8"@, "i16"@, "i32"@, "i64"@, "i128"@, "isize"@]
}

/// A C integer literal carries no Rust type suffix: a run of digits with any
/// of Rust's integer suffixes is written as the digits alone would be
/// (`10usize`, `10u8` and `10` all give `10`).
pub proof fn lemma_int_suffix_dropped(d: Seq<char>, t: Seq<char>)
    requires
        is_decimal_digits(d),
        rust_int_suffixes().contains(t),
    ensures
        c_literal(d + t) == c_literal(d),
{
    let cands = seq!["usize"@, "isize"@, "u128"@, "i128"@, "u16"@, "u32"@, "u64"@, "i16"@, "i32"@, "i64"@, "u8"@, "i8"@];
    let x = d + t;
    reveal_strlit("usize");
    reveal_strlit("isize");
    reveal_strlit("u128");
    reveal_strlit("i128");
    reveal_strlit("u16");
    reveal_strlit("u32");
    reveal_strlit("u64");
    reveal_strlit("i16");
    reveal_strlit("i32");
    reveal_strlit("i64");
    reveal_strlit("u8");
    reveal_strlit("i8");
    assert(int_suffix_of(x) == suffix_among(x, cands));
    assert(int_suffix_of(d) == suffix_among(d, cands));
    assert forall|j: int| 0 <= j < cands.len() implies !ends_with(d, #[trigger] cands[j]) by {
        if ends_with(d, cands[j]) {
            lemma_ends_char(d, cands[j], 0);
            assert(cands[j][0] == 'u' || cands[j][0] == 'i');
        }
    }
    lemma_suffix_among_none(d, cands);
    let k = choose|k: int| 0 <= k < rust_int_suffixes().len() && rust_int_suffixes()[k] == t;
    assert(x.subrange(x.len() - t.len(), x.len() as int) =~= t);
    assert(ends_with(x, t));
    if t == "usize"@ {
        assert(cands[0] == t);
        lemma_suffix_among_hit(x, cands, 0);
        assert(x.subrange(0, x.len() - t.len()) =~= d);
    }
    if t == "isize"@ {
        assert(cands[0] == "usize"@ && t[0] == 'i' && cands[0][0] == 'u');
        lemma_not_ends(x, t, cands[0], 4);
        assert(cands[1] == t);
        lemma_suffix_among_hit(x, cands, 1);
        assert(x.subrange(0, x.len() - t.len()) =~= d);
    }
    if t == "u128"@ {
        assert(cands[0] == "usize"@ && t[3] == '8' && cands[0][4] == 'e');
        lemma_not_ends(x, t, cands[0], 0);
        assert(cands[1] == "isize"@ && t[3] == '8' && cands[1][4] == 'e');
        lemma_not_ends(x, t, cands[1], 0);
        assert(cands[2] == t);
        lemma_suffix_among_hit(x, cands, 2);
        assert(x.subrange(0, x.len() - t.len()) =~= d);
    }
    if t == "i128"@ {
        assert(cands[0] == "usize"@ && t[3] == '8' && cands[0][4] == 'e');
        lemma_not_ends(x, t, cands[0], 0);
        assert(cands[1] == "isize"@ && t[3] == '8' && cands[1][4] == 'e');
        lemma_not_ends(x, t, cands[1], 0);
        assert(cands[2] == "u128"@ && t[0] == 'i' && cands[2][0] == 'u');
        lemma_not_ends(x, t, cands[2], 3);
        assert(cands[3] == t);
        lemma_suffix_among_hit(x, cands, 3);
        assert(x.subrange(0, x.len() - t.len()) =~= d);
    }
    if t == "u16"@ {
        assert(cands[0] == "usize"@ && t[2] == '6' && cands[0][4] == 'e');
        lemma_not_ends(x, t, cands[0], 0);
        assert(cands[1] == "isize"@ && t[2] == '6' && cands[1][4] == 'e');
        lemma_not_ends(x, t, cands[1], 0);
        assert(cands[2] == "u128"@ && t[2] == '6' && cands[2][3] == '8');
        lemma_not_ends(x, t, cands[2], 0);
        assert(cands[3] == "i128"@ && t[2] == '6' && cands[3][3] == '8');
        lemma_not_ends(x, t, cands[3], 0);
        assert(cands[4] == t);
        lemma_suffix_among_hit(x, cands, 4);
        assert(x.subrange(0, x.len() - t.len()) =~= d);
    }
    if t == "u32"@ {
        assert(cands[0] == "usize"@ && t[2] == '2' && cands[0][4] == 'e');
        lemma_not_ends(x, t, cands[0], 0);
        assert(cands[1] == "isize"@ && t[2] == '2' && cands[1][4] == 'e');
        lemma_not_ends(x, t, cands[1], 0);
        assert(cands[2] == "u128"@ && t[2] == '2' && cands[2][3] == '8');
        lemma_not_ends(x, t, cands[2], 0);
        assert(cands[3] == "i128"@ && t[2] == '2' && cands[3][3] == '8');
        lemma_not_ends(x, t, cands[3], 0);
        assert(cands[4] == "u16"@ && t[2] == '2' && cands[4][2] == '6');
        lemma_not_ends(x, t, cands[4], 0);
        assert(cands[5] == t);
        lemma_suffix_among_hit(x, cands, 5);
        assert(x.subrange(0, x.len() - t.len()) =~= d);
    }
    if t == "u64"@ {
        assert(cands[0] == "usize"@ && t[2] == '4' && cands[0][4] == 'e');
        lemma_not_ends(x, t, cands[0], 0);
        assert(cands[1] == "isize"@ && t[2] == '4' && cands[1][4] == 'e');
        lemma_not_ends(x, t, cands[1], 0);
        assert(cands[2] == "u128"@ && t[2] == '4' && cands[2][3] == '8');
        lemma_not_ends(x, t, cands[2], 0);
        assert(cands[3] == "i128"@ && t[2] == '4' && cands[3][3] == '8');
        lemma_not_ends(x, t, cands[3], 0);
        assert(cands[4] == "u16"@ && t[2] == '4' && cands[4][2] == '6');
        lemma_not_ends(x, t, cands[4], 0);
        assert(cands[5] == "u32"@ && t[2] == '4' && cands[5][2] == '2');
        lemma_not_ends(x, t, cands[5], 0);
        assert(cands[6] == t);
        lemma_suffix_among_hit(x, cands, 6);
        assert(x.subrange(0, x.len() - t.len()) =~= d);
    }
    if t == "i16"@ {
        assert(cands[0] == "usize"@ && t[2] == '6' && cands[0][4] == 'e');
        lemma_not_ends(x, t, cands[0], 0);
        assert(cands[1] == "isize"@ && t[2] == '6' && cands[1][4] == 'e');
        lemma_not_ends(x, t, cands[1], 0);
        assert(cands[2] == "u128"@ && t[2] == '6' && cands[2][3] == '8');
        lemma_not_ends(x, t, cands[2], 0);
        assert(cands[3] == "i128"@ && t[2] == '6' && cands[3][3] == '8');
        lemma_not_ends(x, t, cands[3], 0);
        assert(cands[4] == "u16"@ && t[0] == 'i' && cands[4][0] == 'u');
        lemma_not_ends(x, t, cands[4], 2);
        assert(cands[5] == "u32"@ && t[2] == '6' && cands[5][2] == '2');
        lemma_not_ends(x, t, cands[5], 0);
        assert(cands[6] == "u64"@ && t[2] == '6' && cands[6][2] == '4');
        lemma_not_ends(x, t, cands[6], 0);
        assert(cands[7] == t);
        lemma_suffix_among_hit(x, cands, 7);
        assert(x.subrange(0, x.len() - t.len()) =~= d);
    }
    if t == "i32"@ {
        assert(cands[0] == "usize"@ && t[2] == '2' && cands[0][4] == 'e');
        lemma_not_ends(x, t, cands[0], 0);
        assert(cands[1] == "isize"@ && t[2] == '2' && cands[1][4] == 'e');
        lemma_not_ends(x, t, cands[1], 0);
        assert(cands[2] == "u128"@ && t[2] == '2' && cands[2][3] == '8');
        lemma_not_ends(x, t, cands[2], 0);
        assert(cands[3] == "i128"@ && t[2] == '2' && cands[3][3] == '8');
        lemma_not_ends(x, t, cands[3], 0);
        assert(cands[4] == "u16"@ && t[2] == '2' && cands[4][2] == '6');
        lemma_not_ends(x, t, cands[4], 0);
        assert(cands[5] == "u32"@ && t[0] == 'i' && cands[5][0] == 'u');
        lemma_not_ends(x, t, cands[5], 2);
        assert(cands[6] == "u64"@ && t[2] == '2' && cands[6][2] == '4');
        lemma_not_ends(x, t, cands[6], 0);
        assert(cands[7] == "i16"@ && t[2] == '2' && cands[7][2] == '6');
        lemma_not_ends(x, t, cands[7], 0);
        assert(cands[8] == t);
        lemma_suffix_among_hit(x, cands, 8);
        assert(x.subrange(0, x.len() - t.len()) =~= d);
    }
    if t == "i64"@ {
        assert(cands[0] == "usize"@ && t[2] == '4' && cands[0][4] == 'e');
        lemma_not_ends(x, t, cands[0], 0);
        assert(cands[1] == "isize"@ && t[2] == '4' && cands[1][4] == 'e');
        lemma_not_ends(x, t, cands[1], 0);
        assert(cands[2] == "u128"@ && t[2] == '4' && cands[2][3] == '8');
        lemma_not_ends(x, t, cands[2], 0);
        assert(cands[3] == "i128"@ && t[2] == '4' && cands[3][3] == '8');
        lemma_not_ends(x, t, cands[3], 0);
        assert(cands[4] == "u16"@ && t[2] == '4' && cands[4][2] == '6');
        lemma_not_ends(x, t, cands[4], 0);
        assert(cands[5] == "u32"@ && t[2] == '4' && cands[5][2] == '2');
        lemma_not_ends(x, t, cands[5], 0);
        assert(cands[6] == "u64"@ && t[0] == 'i' && cands[6][0] == 'u');
        lemma_not_ends(x, t, cands[6], 2);
        assert(cands[7] == "i16"@ && t[2] == '4' && cands[7][2] == '6');
        lemma_not_ends(x, t, cands[7], 0);
        assert(cands[8] == "i32"@ && t[2] == '4' && cands[8][2] == '2');
        lemma_not_ends(x, t, cands[8], 0);
        assert(cands[9] == t);
        lemma_suffix_among_hit(x, cands, 9);
        assert(x.subrange(0, x.len() - t.len()) =~= d);
    }
    if t == "u8"@ {
        assert(cands[0] == "usize"@ && t[1] == '8' && cands[0][4] == 'e');
        lemma_not_ends(x, t, cands[0], 0);
        assert(cands[1] == "isize"@ && t[1] == '8' && cands[1][4] == 'e');
        lemma_not_ends(x, t, cands[1], 0);
        assert(cands[2] == "u128"@ && t[0] == 'u' && cands[2][2] == '2');
        lemma_not_ends(x, t, cands[2], 1);
        assert(cands[3] == "i128"@ && t[0] == 'u' && cands[3][2] == '2');
        lemma_not_ends(x, t, cands[3], 1);
        assert(cands[4] == "u16"@ && t[1] == '8' && cands[4][2] == '6');
        lemma_not_ends(x, t, cands[4], 0);
        assert(cands[5] == "u32"@ && t[1] == '8' && cands[5][2] == '2');
        lemma_not_ends(x, t, cands[5], 0);
        assert(cands[6] == "u64"@ && t[1] == '8' && cands[6][2] == '4');
        lemma_not_ends(x, t, cands[6], 0);
        assert(cands[7] == "i16"@ && t[1] == '8' && cands[7][2] == '6');
        lemma_not_ends(x, t, cands[7], 0);
        assert(cands[8] == "i32"@ && t[1] == '8' && cands[8][2] == '2');
        lemma_not_ends(x, t, cands[8], 0);
        assert(cands[9] == "i64"@ && t[1] == '8' && cands[9][2] == '4');
        lemma_not_ends(x, t, cands[9], 0);
        assert(cands[10] == t);
        lemma_suffix_among_hit(x, cands, 10);
        assert(x.subrange(0, x.len() - t.len()) =~= d);
    }
    if t == "i8"@ {
        assert(cands[0] == "usize"@ && t[1] == '8' && cands[0][4] == 'e');
        lemma_not_ends(x, t, cands[0], 0);
        assert(cands[1] == "isize"@ && t[1] == '8' && cands[1][4] == 'e');
        lemma_not_ends(x, t, cands[1], 0);
        assert(cands[2] == "u128"@ && t[0] == 'i' && cands[2][2] == '2');
        lemma_not_ends(x, t, cands[2], 1);
        assert(cands[3] == "i128"@ && t[0] == 'i' && cands[3][2] == '2');
        lemma_not_ends(x, t, cands[3], 1);
        assert(cands[4] == "u16"@ && t[1] == '8' && cands[4][2] == '6');
        lemma_not_ends(x, t, cands[4], 0);
        assert(cands[5] == "u32"@ && t[1] == '8' && cands[5][2] == '2');
        lemma_not_ends(x, t, cands[5], 0);
        assert(cands[6] == "u64"@ && t[1] == '8' && cands[6][2] == '4');
        lemma_not_ends(x, t, cands[6], 0);
        assert(cands[7] == "i16"@ && t[1] == '8' && cands[7][2] == '6');
        lemma_not_ends(x, t, cands[7], 0);
        assert(cands[8] == "i32"@ && t[1] == '8' && cands[8][2] == '2');
        lemma_not_ends(x, t, cands[8], 0);
        assert(cands[9] == "i64"@ && t[1] == '8' && cands[9][2] == '4');
        lemma_not_ends(x, t, cands[9], 0);
        assert(cands[10] == "u8"@ && t[0] == 'i' && cands[10][0] == 'u');
        lemma_not_ends(x, t, cands[10], 1);
        assert(cands[11] == t);
        lemma_suffix_among_hit(x, cands, 11);
        assert(x.subrange(0, x.len() - t.len()) =~= d);
    }
    assert(rust_int_suffixes()[k] == t);
}

fn drop_suffix(v: &Vec<char>) -> (r: Vec<char>)
    ensures
        r@ == without_suffix(v@),
{
    let ghost cands = seq![
        "usize"@, "isize"@, "u128"@, "i128"@, "u16"@, "u32"@, "u64"@, "i16"@, "i32"@, "i64"@,
        "u8"@, "i8"@,
    ];
    let names: [&str; 12] = [
        "usize", "isize", "u128", "i128", "u16", "u32", "u64", "i16", "i32", "i64", "u8", "i8",
    ];
    assert(int_suffix_of(v@) == suffix_among(v@, cands));
    let mut k: usize = 0;
    assert(cands.subrange(0, 12) =~= cands);
    while k < 12
        invariant
            k <= 12,
            cands.len() == 12,
            forall|j: int| 0 <= j < 12 ==> (#[trigger] names@[j])@ == cands[j],
            int_suffix_of(v@) == suffix_among(v@, cands.subrange(k as int, 12)),
        decreases 12 - k,
    {
        let ghost rest = cands.subrange(k as int, 12);
        assert(rest.drop_first() =~= cands.subrange(k + 1, 12));
        assert(rest[0] == cands[k as int]);
        let name = names[k];
        let nv = chars_of(name);
        if has_suffix(v, name) && v.len() > nv.len() {
            let mut r: Vec<char> = Vec::new();
            let end = v.len() - nv.len();
            let mut i: usize = 0;
            while i < end
                invariant
                    i <= end,
                    end <= v@.len(),
                    r@ == v@.subrange(0, i as int),
                decreases end - i,
            {
                r.push(v[i]);
                i = i + 1;
                assert(r@ =~= v@.subrange(0, i as int));
            }
            return r;
        }
        k = k + 1;
    }
    let mut r: Vec<char> = Vec::new();
    append_chars(&mut r, v);
    r
}

fn without_underscores(v: &Vec<char>, from: usize) -> (r: Vec<char>)
    requires
        from <= v@.len(),
    ensures
        r@ == drop_underscores(v@.subrange(from as int, v@.len() as int)),
{
    let mut r: Vec<char> = Vec::new();
    let mut i = from;
    while i < v.len()
        invariant
            from <= i <= v@.len(),
            r@ == drop_underscores(v@.subrange(from as int, i as int)),
        decreases v.len() - i,
    {
        let ghost pre = v@.subrange(from as int, i + 1);
        assert(pre.drop_last() =~= v@.subrange(from as int, i as int));
        if v[i] != '_' {
            r.push(v[i]);
        }
        i = i + 1;
    }
    r
}

fn parse_bin(ds: &Vec<char>) -> (r: Option<u64>)
    ensures
        match r {
            Some(n) => parses_as_bin_u64(ds@) && n == bin_value(ds@),
            None => !parses_as_bin_u64(ds@),
        },
{
    if ds.len() == 0 {
        return None;
    }
    let mut v: u64 = 0;
    let mut i: usize = 0;
    while i < ds.len()
        invariant
            i <= ds@.len(),
            v == bin_value(ds@.subrange(0, i as int)),
            forall|j: int| 0 <= j < i ==> (#[trigger] ds@[j] == '0' || ds@[j] == '1'),
        decreases ds.len() - i,
    {
        let ghost pre = ds@.subrange(0, i + 1);
        assert(pre.drop_last() =~= ds@.subrange(0, i as int));
        let c = ds[i];
        if c != '0' && c != '1' {
            return None;
        }
        let d: u64 = if c == '1' {
            1
        } else {
            0
        };
        if v > (u64::MAX - d) / 2 {
            proof {
                lemma_bin_prefix_bound(ds@, i as int + 1);
            }
            return None;
        }
        v = v * 2 + d;
        i = i + 1;
    }
    assert(ds@.subrange(0, ds@.len() as int) =~= ds@);
    Some(v)
}

/// A longer run of binary digits is worth at least as much as its prefix.
proof fn lemma_bin_prefix_bound(ds: Seq<char>, k: int)
    requires
        0 <= k <= ds.len(),
    ensures
        bin_value(ds.subrange(0, k)) <= bin_value(ds),
    decreases ds.len() - k,
{
    if k < ds.len() {
        lemma_bin_prefix_bound(ds, k + 1);
        assert(ds.subrange(0, k + 1).drop_last() =~= ds.subrange(0, k));
    } else {
        assert(ds.subrange(0, k) =~= ds);
    }
}

fn hex_of(n: u64) -> (r: Vec<char>)
    ensures
        r@ == hex_text(n as nat),
    decreases n,
{
    let d = n % 16;
    let c: char = if d < 10 {
        char_from_digit(d, '0')
    } else {
        char_from_digit(d - 10, 'A')
    };
    assert(c == hex_digit(d as nat));
    if n < 16 {
        let mut r: Vec<char> = Vec::new();
        r.push(c);
        assert(r@ =~= seq![hex_digit(n as nat)]);
        r
    } else {
        let mut r = hex_of(n / 16);
        r.push(c);
        r
    }
}

fn char_from_digit(d: u64, base: char) -> (c: char)
    requires
        base == '0' ==> d < 10,
        base == 'A' ==> d < 6,
        base == '0' || base == 'A',
    ensures
        c == ((base as nat) + d) as char,
{
    let b: u8 = if base == '0' {
        48
    } else {
        65
    };
    let v: u8 = b + d as u8;
    v as char
}

/// Converts a Rust integer literal to its C equivalent.
///
/// - Strips the type suffix (e.g. `0x1u32` -> `0x1`)
/// - Converts binary literals to hex (e.g. `0b0001` -> `0x1`)
/// - Strips underscores from decimal and hex literals
pub fn rust_literal_to_c(s: &str) -> (r: String)
    ensures
        r@ == c_literal(s@),
{
    let v = chars_of(s);
    let stripped = drop_suffix(&v);
    proof {
        reveal_strlit("0b");
    }
    if has_prefix(&stripped, "0b") {
        let digits = without_underscores(&stripped, 2);
        if let Some(n) = parse_bin(&digits) {
            let mut out = chars_of("0x");
            let h = hex_of(n);
            append_chars(&mut out, &h);
            return string_of(out.as_slice());
        }
    }
    let all = without_underscores(&stripped, 0);
    assert(stripped@.subrange(0, stripped@.len() as int) =~= stripped@);
    string_of(all.as_slice())
}


/// The `<stdint.h>` or `<stddef.h>` macro for `ty::which`, such as
/// `UINT64_MAX` for `u64::MAX`.
pub open spec fn int_limit(ty: Seq<char>, which: Seq<char>) -> Option<Seq<char>> {
    if which == "MAX"@ {
        if ty == "u8"@ {
            Some("UINT8_MAX"@)
        } else if ty == "u16"@ {
            Some("UINT16_MAX"@)
        } else if ty == "u32"@ {
            Some("UINT32_MAX"@)
        } else if ty == "u64"@ {
            Some("UINT64_MAX"@)
        } else if ty == "usize"@ {
            Some("SIZE_MAX"@)
        } else if ty == "i8"@ {
            Some("INT8_MAX"@)
        } else if ty == "i16"@ {
            Some("INT16_MAX"@)
        } else if ty == "i32"@ {
            Some("INT32_MAX"@)
        } else if ty == "i64"@ {
            Some("INT64_MAX"@)
        } else if ty == "isize"@ {
            Some("PTRDIFF_MAX"@)
        } else {
            None
        }
    } else if which == "MIN"@ {
        if ty == "i8"@ {
            Some("INT8_MIN"@)
        } else if ty == "i16"@ {
            Some("INT16_MIN"@)
        } else if ty == "i32"@ {
            Some("INT32_MIN"@)
        } else if ty == "i64"@ {
            Some("INT64_MIN"@)
        } else if ty == "isize"@ {
            Some("PTRDIFF_MIN"@)
        } else {
            None
        }
    } else {
        None
    }
}

/// Whether `t` is the punctuation character `c`.
pub open spec fn is_punct(t: RustToken, c: char) -> bool {
    match t {
        RustToken::Punct(p) => p == c,
        _ => false,
    }
}

/// The identifier `t` holds, or nothing.
pub open spec fn ident_of(t: RustToken) -> Seq<char> {
    match t {
        RustToken::Ident(s) => s@,
        _ => Seq::empty(),
    }
}

/// The C spelling of a token: a literal converted, anything else as it prints.
pub open spec fn token_c(t: RustToken) -> Seq<char> {
    match t {
        RustToken::Literal(s) => c_literal(s@),
        _ => token_text(t),
    }
}

/// The C spellings of `ts`, concatenated.
pub open spec fn joined_tokens_c(ts: Seq<RustToken>) -> Seq<char>
    decreases ts.len(),
{
    if ts.len() == 0 {
        Seq::empty()
    } else {
        joined_tokens_c(ts.drop_last()) + token_c(ts.last())
    }
}

/// The limit macro that `ts` spells, when it is `ty::MAX` or `ty::MIN` for an
/// integer type.
pub open spec fn limit_of_tokens(ts: Seq<RustToken>) -> Option<Seq<char>> {
    if ts.len() == 4 && ts[0] is Ident && is_punct(ts[1], ':') && is_punct(ts[2], ':')
        && ts[3] is Ident {
        int_limit(ident_of(ts[0]), ident_of(ts[3]))
    } else {
        None
    }
}

/// A Rust constant expression as C spells it.
pub open spec fn tokens_c(ts: Seq<RustToken>) -> Seq<char> {
    if ts.len() == 1 && ts[0] is Literal {
        token_c(ts[0])
    } else if limit_of_tokens(ts) is Some {
        limit_of_tokens(ts).unwrap()
    } else {
        joined_tokens_c(ts)
    }
}

fn limit_name(ty: &str, which: &str) -> (r: Option<String>)
    ensures
        match r {
            Some(s) => int_limit(ty@, which@) == Some(s@),
            None => int_limit(ty@, which@) is None,
        },
{
    if str_eq(which, "MAX") {
        if str_eq(ty, "u8") {
            Some(owned("UINT8_MAX"))
        } else if str_eq(ty, "u16") {
            Some(owned("UINT16_MAX"))
        } else if str_eq(ty, "u32") {
            Some(owned("UINT32_MAX"))
        } else if str_eq(ty, "u64") {
            Some(owned("UINT64_MAX"))
        } else if str_eq(ty, "usize") {
            Some(owned("SIZE_MAX"))
        } else if str_eq(ty, "i8") {
            Some(owned("INT8_MAX"))
        } else if str_eq(ty, "i16") {
            Some(owned("INT16_MAX"))
        } else if str_eq(ty, "i32") {
            Some(owned("INT32_MAX"))
        } else if str_eq(ty, "i64") {
            Some(owned("INT64_MAX"))
        } else if str_eq(ty, "isize") {
            Some(owned("PTRDIFF_MAX"))
        } else {
            None
        }
    } else if str_eq(which, "MIN") {
        if str_eq(ty, "i8") {
            Some(owned("INT8_MIN"))
        } else if str_eq(ty, "i16") {
            Some(owned("INT16_MIN"))
        } else if str_eq(ty, "i32") {
            Some(owned("INT32_MIN"))
        } else if str_eq(ty, "i64") {
            Some(owned("INT64_MIN"))
        } else if str_eq(ty, "isize") {
            Some(owned("PTRDIFF_MIN"))
        } else {
            None
        }
    } else {
        None
    }
}

pub fn token_text_of(t: &RustToken) -> (r: String)
    ensures
        r@ == token_text(*t),
{
    match t {
        RustToken::Ident(s) => owned(s.as_str()),
        RustToken::Punct(c) => {
            let mut s = String::new();
            push_char(&mut s, *c);
            assert(s@ =~= seq![*c]);
            s
        },
        RustToken::Literal(s) => owned(s.as_str()),
        RustToken::Group { text, .. } => owned(text.as_str()),
    }
}

fn token_to_c(t: &RustToken) -> (r: String)
    ensures
        r@ == token_c(*t),
{
    match t {
        RustToken::Literal(s) => rust_literal_to_c(s.as_str()),
        _ => token_text_of(t),
    }
}

/// Converts the tokens of a Rust constant expression into a C expression: a
/// lone literal is converted, `ty::MAX` and `ty::MIN` of an integer type become
/// the matching C limit macro, and otherwise the tokens are concatenated with
/// each literal converted.
pub fn rust_literal_tokens_to_c(tokens: &[RustToken]) -> (r: String)
    ensures
        r@ == tokens_c(tokens@),
{
    if tokens.len() == 1 {
        if let RustToken::Literal(_) = &tokens[0] {
            return token_to_c(&tokens[0]);
        }
    }
    if tokens.len() == 4 {
        if let (RustToken::Ident(ty), RustToken::Punct(a), RustToken::Punct(b), RustToken::Ident(w)) = (
            &tokens[0],
            &tokens[1],
            &tokens[2],
            &tokens[3],
        ) {
            if *a == ':' && *b == ':' {
                if let Some(m) = limit_name(ty.as_str(), w.as_str()) {
                    return m;
                }
            }
        }
    }
    let mut out = String::new();
    let mut i: usize = 0;
    while i < tokens.len()
        invariant
            i <= tokens@.len(),
            out@ == joined_tokens_c(tokens@.subrange(0, i as int)),
        decreases tokens.len() - i,
    {
        assert(tokens@.subrange(0, i + 1).drop_last() =~= tokens@.subrange(0, i as int));
        let piece = token_to_c(&tokens[i]);
        out.append(piece.as_str());
        i = i + 1;
    }
    assert(tokens@.subrange(0, tokens@.len() as int) =~= tokens@);
    out
}
} // verus!
