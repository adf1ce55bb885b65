//! Naming conventions for generated C identifiers.

use vstd::prelude::*;
use convert_case::{Boundary as Split, Case as Style, Converter};

verus! {

/// The naming convention applied to a generated C identifier.
///
/// Only conventions that produce valid C identifiers are offered. Styles such as
/// kebab, title and train introduce hyphens or spaces, which would emit a header
/// that does not compile.
#[derive(Debug, Clone, Copy, PartialEq, Eq, Hash)]
#[non_exhaustive]
pub enum Case {
    /// `example_name`
    Snake,
    /// `EXAMPLE_NAME`
    UpperSnake,
    /// `ExampleName`
    Pascal,
    /// `exampleName`
    Camel,
    /// `Example_Name`
    Ada,
    /// `examplename`
    Flat,
    /// `EXAMPLENAME`
    UpperFlat,
}

/// What the case-conversion crate makes of `s` under `case`, with the word
/// boundaries this library configures (see [`convert_case`]).
pub uninterp spec fn case_converted(s: Seq<char>, case: Case) -> Seq<char>;

/// Whether Unicode classifies `c` as lowercase.
pub uninterp spec fn lowercase_char(c: char) -> bool;

/// Whether Unicode classifies `c` as uppercase.
pub uninterp spec fn uppercase_char(c: char) -> bool;

/// `char::is_lowercase`: whether `c` has the Unicode `Lowercase` property.
#[verifier::external_body]
fn char_is_lowercase(c: char) -> (r: bool)
    ensures
        r == lowercase_char(c),
{
    c.is_lowercase()
}

/// `char::is_uppercase`: whether `c` has the Unicode `Uppercase` property.
#[verifier::external_body]
fn char_is_uppercase(c: char) -> (r: bool)
    ensures
        r == uppercase_char(c),
{
    c.is_uppercase()
}

pub open spec fn is_ascii_digit(c: char) -> bool {
    '0' <= c && c <= '9'
}

/// Every character of `g` is lowercase (vacuously so for an empty `g`).
pub open spec fn all_lower(g: Seq<char>) -> bool {
    forall|i: int| 0 <= i < g.len() ==> lowercase_char(#[trigger] g[i])
}

/// Every character of `g` is uppercase.
pub open spec fn all_upper(g: Seq<char>) -> bool {
    forall|i: int| 0 <= i < g.len() ==> uppercase_char(#[trigger] g[i])
}

/// Every character of `g` is an ASCII digit.
pub open spec fn all_digits(g: Seq<char>) -> bool {
    forall|i: int| 0 <= i < g.len() ==> is_ascii_digit(#[trigger] g[i])
}

/// A word boundary falls between a lowercase grapheme other than `v` and a
/// run of digits, so `abc123` splits but `v6` stays one word.
pub open spec fn lower_digit_boundary(gs: Seq<Seq<char>>) -> bool {
    gs.len() >= 2 && all_lower(gs[0]) && gs[0] != seq!['v'] && all_digits(gs[1])
}

/// As [`lower_digit_boundary`], for uppercase graphemes other than `V`.
pub open spec fn upper_digit_boundary(gs: Seq<Seq<char>>) -> bool {
    gs.len() >= 2 && all_upper(gs[0]) && gs[0] != seq!['V'] && all_digits(gs[1])
}

fn test_all(g: &str, which: u8) -> (r: bool)
    ensures
        which == 0 ==> r == all_lower(g@),
        which == 1 ==> r == all_upper(g@),
        which >= 2 ==> r == all_digits(g@),
{
    let n = g.unicode_len();
    let mut i: usize = 0;
    while i < n
        invariant
            n == g@.len(),
            i <= n,
            which == 0 ==> forall|j: int| 0 <= j < i ==> lowercase_char(#[trigger] g@[j]),
            which == 1 ==> forall|j: int| 0 <= j < i ==> uppercase_char(#[trigger] g@[j]),
            which >= 2 ==> forall|j: int| 0 <= j < i ==> is_ascii_digit(#[trigger] g@[j]),
        decreases n - i,
    {
        let c = g.get_char(i);
        let ok = if which == 0 {
            char_is_lowercase(c)
        } else if which == 1 {
            char_is_uppercase(c)
        } else {
            '0' <= c && c <= '9'
        };
        if !ok {
            return false;
        }
        i = i + 1;
    }
    true
}

fn is_single(g: &str, c: char) -> (r: bool)
    ensures
        r == (g@ == seq![c]),
{
    let n = g.unicode_len();
    if n != 1 {
        assert(g@.len() != 1);
        return false;
    }
    let r = g.get_char(0) == c;
    assert(r ==> g@ =~= seq![c]);
    r
}

/// Boundary test handed to the case converter: a lowercase grapheme (but not
/// `v`) followed by digits.
pub fn lower_then_digits(gs: &[&str]) -> (r: bool)
    ensures
        r == lower_digit_boundary(gs@.map_values(|g: &str| g@)),
{
    let ghost v = gs@.map_values(|g: &str| g@);
    if gs.len() < 2 {
        return false;
    }
    let a = gs[0];
    let b = gs[1];
    test_all(a, 0) && !is_single(a, 'v') && test_all(b, 2)
}

/// Boundary test handed to the case converter: an uppercase grapheme (but not
/// `V`) followed by digits.
pub fn upper_then_digits(gs: &[&str]) -> (r: bool)
    ensures
        r == upper_digit_boundary(gs@.map_values(|g: &str| g@)),
{
    let ghost v = gs@.map_values(|g: &str| g@);
    if gs.len() < 2 {
        return false;
    }
    let a = gs[0];
    let b = gs[1];
    test_all(a, 1) && !is_single(a, 'V') && test_all(b, 2)
}

/// `convert_case::Converter::convert` with the default boundaries, minus the
/// letter-to-digit ones, plus [`lower_then_digits`] and [`upper_then_digits`];
/// then joined in `case`. The result is named [`case_converted`] of `s` and
/// `case`: how words are split and re-cased is the crate's algorithm and is
/// not restated here.
#[verifier::external_body]
pub(crate) fn convert_case(s: &str, case: Case) -> (r: String)
    ensures
        r@ == case_converted(s@, case),
{
    let c = match case {
        Case::Snake => Style::Snake, Case::UpperSnake => Style::UpperSnake, Case::Pascal => Style::Pascal,
        Case::Camel => Style::Camel, Case::Ada => Style::Ada, Case::Flat => Style::Flat,
        Case::UpperFlat => Style::UpperFlat,
    };
    Converter::new().remove_boundaries(&[Split::LowerDigit, Split::UpperDigit])
        .add_boundary(Split::Custom { condition: lower_then_digits, start: 1, len: 0 })
        .add_boundary(Split::Custom { condition: upper_then_digits, start: 1, len: 0 })
        .to_case(c).convert(s)
}

} // verus!
