//! The settings that govern how names and declarations are rendered.

use vstd::prelude::*;
use crate::case::{Case, case_converted, convert_case};
use crate::items::CMacro;
use crate::text::{owned, copy_string};

verus! {

/// What `key` maps to in an association list: the value of its first entry.
pub open spec fn assoc(entries: Seq<(String, String)>, key: Seq<char>) -> Option<Seq<char>>
    decreases entries.len(),
{
    if entries.len() == 0 {
        None
    } else if entries[0].0@ == key {
        Some(entries[0].1@)
    } else {
        assoc(entries.drop_first(), key)
    }
}

/// Looks `key` up in an association list.
pub fn assoc_get<'a>(entries: &'a Vec<(String, String)>, key: &str) -> (r: Option<&'a String>)
    ensures
        match r {
            Some(v) => assoc(entries@, key@) == Some(v@),
            None => assoc(entries@, key@).is_none(),
        },
{
    let k = owned(key);
    let mut i: usize = 0;
    assert(entries@.subrange(0, entries@.len() as int) =~= entries@);
    while i < entries.len()
        invariant
            i <= entries@.len(),
            k@ == key@,
            assoc(entries@, key@) == assoc(entries@.subrange(i as int, entries@.len() as int), key@),
        decreases entries.len() - i,
    {
        let ghost rest = entries@.subrange(i as int, entries@.len() as int);
        assert(rest.drop_first() =~= entries@.subrange(i + 1, entries@.len() as int));
        if entries[i].0 == k {
            return Some(&entries[i].1);
        }
        i = i + 1;
    }
    None
}

/// Adds `key -> value` unless `key` already has an entry.
pub fn assoc_insert_absent(entries: &mut Vec<(String, String)>, key: &String, value: String)
    ensures
        assoc(final(entries)@, key@) == (match assoc(old(entries)@, key@) {
            Some(v) => Some(v),
            None => Some(value@),
        }),
        forall|k: Seq<char>| k != key@ ==> assoc(final(entries)@, k) == assoc(old(entries)@, k),
{
    if assoc_get(entries, key.as_str()).is_none() {
        let ghost before = entries@;
        let entry = (copy_string(key), value);
        let ghost e = entry;
        entries.push(entry);
        proof {
            lemma_assoc_push(before, e);
        }
    }
}

/// Appending an entry only answers for a key that had none.
pub proof fn lemma_assoc_push_at(entries: Seq<(String, String)>, e: (String, String), k: Seq<char>)
    ensures
        assoc(entries.push(e), k) == (match assoc(entries, k) {
            Some(v) => Some(v),
            None => if e.0@ == k {
                Some(e.1@)
            } else {
                None
            },
        }),
    decreases entries.len(),
{
    if entries.len() > 0 {
        lemma_assoc_push_at(entries.drop_first(), e, k);
        assert(entries.push(e).drop_first() =~= entries.drop_first().push(e));
        assert(entries.push(e)[0] == entries[0]);
    } else {
        assert(entries.push(e).drop_first() =~= Seq::<(String, String)>::empty());
        assert(entries.push(e)[0] == e);
        assert(assoc(Seq::<(String, String)>::empty(), k) is None);
    }
}

/// Appending an entry only answers for keys that had none.
pub proof fn lemma_assoc_push(entries: Seq<(String, String)>, e: (String, String))
    ensures
        forall|k: Seq<char>|
            #[trigger] assoc(entries.push(e), k) == (match assoc(entries, k) {
                Some(v) => Some(v),
                None => if e.0@ == k {
                    Some(e.1@)
                } else {
                    None
                },
            }),
{
    assert forall|k: Seq<char>|
        #[trigger] assoc(entries.push(e), k) == (match assoc(entries, k) {
            Some(v) => Some(v),
            None => if e.0@ == k {
                Some(e.1@)
            } else {
                None
            },
        }) by {
        lemma_assoc_push_at(entries, e, k);
    }
}

/// Configuration for C header generation.
pub struct TerraffiConfig {
    /// If true, dependency crates are scanned for type definitions.
    pub is_scan_dependencies: bool,
    /// Crate names to exclude from dependency scanning.
    pub exclude_crates: Vec<String>,
    /// A comment placed at the top of the generated header.
    pub header_comment: Option<String>,
    /// The name used for the include guard; derived from the crate directory when absent.
    pub header_guard: Option<String>,
    /// A macro prepended to every function declaration.
    pub export_macro: Option<String>,
    /// If true, `<stdint.h>`, `<stddef.h>` and `<stdbool.h>` are included.
    pub is_add_std_includes: bool,
    /// Additional include statements.
    pub additional_includes: Vec<String>,
    /// Additional macro definitions emitted after the export macro block.
    pub additional_macro_definitions: Vec<CMacro>,
    /// If true, all `pub extern "C"` functions are exported.
    pub is_export_public_functions: bool,
    /// If true, all `pub` types are exported.
    pub is_export_public_types: bool,
    /// Prepended to struct type names before case conversion.
    pub struct_prefix: String,
    /// Prepended to enum type names before case conversion.
    pub enum_prefix: String,
    /// Prepended to constant names before case conversion.
    pub constant_prefix: String,
    /// If true, enum member names are prefixed with the enum type name.
    pub is_prefix_enum_cases_with_typename: bool,
    /// Appended to struct type names before case conversion.
    pub struct_suffix: String,
    /// Appended to enum type names before case conversion.
    pub enum_suffix: String,
    /// Appended to constant names before case conversion.
    pub constant_suffix: String,
    /// Appended to a tagged union's name to name its discriminant enum.
    pub discriminated_union_tag_typename_suffix: String,
    /// Case of type names.
    pub type_case: Case,
    /// Case of function parameter names.
    pub parameter_case: Case,
    /// Case of struct field names.
    pub field_case: Case,
    /// Case of enum member names.
    pub enum_member_case: Case,
    /// Case of constants.
    pub constant_case: Case,
    /// Raw Rust type names mapped to their full C names.
    pub type_name_map: Vec<(String, String)>,
    /// Raw Rust type names mapped to their C names without suffix.
    pub type_name_bare_map: Vec<(String, String)>,
    /// Types promised to be declared elsewhere, e.g. by an included header.
    pub assumed_declared: Vec<String>,
    /// If true, unresolved types are reported but do not fail generation.
    pub is_allow_unresolved_types: bool,
    /// Raw names of the types whose declarations have been emitted so far.
    pub declared_types: Vec<String>,
}

/// The strings of `v`, as a set of character sequences.
pub open spec fn name_set(v: Seq<String>) -> Set<Seq<char>> {
    Set::new(|n: Seq<char>| exists|i: int| 0 <= i < v.len() && (#[trigger] v[i])@ == n)
}

/// Whether `name` is one of the strings of `v`.
pub fn contains_name(v: &Vec<String>, name: &str) -> (r: bool)
    ensures
        r == name_set(v@).contains(name@),
{
    let k = owned(name);
    let mut i: usize = 0;
    while i < v.len()
        invariant
            i <= v@.len(),
            k@ == name@,
            forall|j: int| 0 <= j < i ==> (#[trigger] v@[j])@ != name@,
        decreases v.len() - i,
    {
        if v[i] == k {
            assert(name_set(v@).contains(name@));
            return true;
        }
        i = i + 1;
    }
    false
}

/// Adds `name` to `v` unless it is there already.
pub fn insert_name(v: &mut Vec<String>, name: &str)
    ensures
        name_set(final(v)@) == name_set(old(v)@).insert(name@),
        old(v)@.len() <= final(v)@.len(),
{
    if !contains_name(v, name) {
        let ghost before = v@;
        v.push(owned(name));
        assert(name_set(v@) =~= name_set(before).insert(name@)) by {
            assert forall|n: Seq<char>| name_set(v@).contains(n) implies name_set(
                before,
            ).insert(name@).contains(n) by {
                let i = choose|i: int| 0 <= i < v@.len() && (#[trigger] v@[i])@ == n;
                if i < before.len() {
                    assert(before[i] == v@[i]);
                }
            }
            assert forall|n: Seq<char>| name_set(before).insert(name@).contains(n) implies name_set(
                v@,
            ).contains(n) by {
                if n == name@ {
                    assert(v@[before.len() as int]@ == n);
                } else {
                    let i = choose|i: int| 0 <= i < before.len() && (#[trigger] before[i])@ == n;
                    assert(v@[i] == before[i]);
                }
            }
        }
    } else {
        assert(name_set(v@) =~= name_set(v@).insert(name@));
    }
}

/// A type counts as declared once its declaration is out, or when it was
/// promised to be declared elsewhere.
pub open spec fn is_declared(cfg: &TerraffiConfig, raw: Seq<char>) -> bool {
    name_set(cfg.declared_types@).contains(raw) || name_set(cfg.assumed_declared@).contains(raw)
}

/// The C name of a type: its entry in the name map, else its case-converted raw name.
pub open spec fn type_name_of(cfg: &TerraffiConfig, raw: Seq<char>) -> Seq<char> {
    match assoc(cfg.type_name_map@, raw) {
        Some(n) => n,
        None => case_converted(raw, cfg.type_case),
    }
}

/// The C name of a type without its suffix.
pub open spec fn bare_type_name_of(cfg: &TerraffiConfig, raw: Seq<char>) -> Seq<char> {
    match assoc(cfg.type_name_bare_map@, raw) {
        Some(n) => n,
        None => case_converted(raw, cfg.type_case),
    }
}

pub open spec fn struct_name_of(cfg: &TerraffiConfig, raw: Seq<char>) -> Seq<char> {
    case_converted(cfg.struct_prefix@ + raw + cfg.struct_suffix@, cfg.type_case)
}

pub open spec fn struct_bare_name_of(cfg: &TerraffiConfig, raw: Seq<char>) -> Seq<char> {
    case_converted(cfg.struct_prefix@ + raw, cfg.type_case)
}

pub open spec fn enum_name_of(cfg: &TerraffiConfig, raw: Seq<char>) -> Seq<char> {
    case_converted(cfg.enum_prefix@ + raw + cfg.enum_suffix@, cfg.type_case)
}

pub open spec fn enum_bare_name_of(cfg: &TerraffiConfig, raw: Seq<char>) -> Seq<char> {
    case_converted(cfg.enum_prefix@ + raw, cfg.type_case)
}

fn concat3(a: &String, b: &str, c: &String) -> (r: String)
    ensures
        r@ == a@ + b@ + c@,
{
    let mut s = copy_string(a);
    s.append(b);
    s.append(c.as_str());
    s
}

impl TerraffiConfig {
    pub fn format_struct_name(&self, raw_name: &str) -> (r: String)
        ensures
            r@ == struct_name_of(self, raw_name@),
    {
        let s = concat3(&self.struct_prefix, raw_name, &self.struct_suffix);
        convert_case(s.as_str(), self.type_case)
    }

    pub fn format_struct_name_bare(&self, raw_name: &str) -> (r: String)
        ensures
            r@ == struct_bare_name_of(self, raw_name@),
    {
        let mut s = copy_string(&self.struct_prefix);
        s.append(raw_name);
        convert_case(s.as_str(), self.type_case)
    }

    pub fn format_enum_name(&self, raw_name: &str) -> (r: String)
        ensures
            r@ == enum_name_of(self, raw_name@),
    {
        let s = concat3(&self.enum_prefix, raw_name, &self.enum_suffix);
        convert_case(s.as_str(), self.type_case)
    }

    pub fn format_enum_name_bare(&self, raw_name: &str) -> (r: String)
        ensures
            r@ == enum_bare_name_of(self, raw_name@),
    {
        let mut s = copy_string(&self.enum_prefix);
        s.append(raw_name);
        convert_case(s.as_str(), self.type_case)
    }

    /// Looks up the fully-formatted C name for a raw type name.
    pub fn format_type_name(&self, raw_name: &str) -> (r: String)
        ensures
            r@ == type_name_of(self, raw_name@),
    {
        match assoc_get(&self.type_name_map, raw_name) {
            Some(n) => copy_string(n),
            None => convert_case(raw_name, self.type_case),
        }
    }

    /// Like `format_type_name` but without the struct/enum suffix.
    pub fn format_type_name_bare(&self, raw_name: &str) -> (r: String)
        ensures
            r@ == bare_type_name_of(self, raw_name@),
    {
        match assoc_get(&self.type_name_bare_map, raw_name) {
            Some(n) => copy_string(n),
            None => convert_case(raw_name, self.type_case),
        }
    }
}

} // verus!
