//! The options a header generator is built from.

use vstd::prelude::*;
use crate::case::Case;
use crate::config::{TerraffiConfig, assoc};
use crate::generator::{TerraffiGenerator, guard_for};
use crate::items::CMacro;
use crate::text::{owned, copy_string};

verus! {

/// The options of a [`TerraffiGeneratorBuilder`], as plain values.
pub ghost struct BuilderView {
    pub is_scan_dependencies: bool,
    pub exclude_crates: Seq<Seq<char>>,
    pub header_comment: Option<Seq<char>>,
    pub header_guard: Option<Seq<char>>,
    pub export_macro: Option<Seq<char>>,
    pub is_add_std_includes: bool,
    pub additional_includes: Seq<Seq<char>>,
    pub additional_macro_definitions: Seq<CMacro>,
    pub is_export_public_functions: bool,
    pub is_export_public_types: bool,
    pub struct_prefix: Option<Seq<char>>,
    pub enum_prefix: Option<Seq<char>>,
    pub constant_prefix: Option<Seq<char>>,
    pub is_prefix_enum_members_with_typename: Option<bool>,
    pub struct_suffix: Option<Seq<char>>,
    pub enum_suffix: Option<Seq<char>>,
    pub constant_suffix: Option<Seq<char>>,
    pub discriminated_union_tag_typename_suffix: Option<Seq<char>>,
    pub typename_case: Option<Case>,
    pub parameter_case: Option<Case>,
    pub field_case: Option<Case>,
    pub enum_member_case: Option<Case>,
    pub constant_case: Option<Case>,
    /// Renames, the latest first.
    pub type_name_map: Seq<(Seq<char>, Seq<char>)>,
    pub assumed_declared: Seq<Seq<char>>,
    pub is_allow_unresolved_types: bool,
}

/// The character sequences of some strings.
pub open spec fn strings_view(v: Seq<String>) -> Seq<Seq<char>> {
    v.map_values(|s: String| s@)
}

/// The character sequences of an optional string.
pub open spec fn opt_string_view(o: Option<String>) -> Option<Seq<char>> {
    match o {
        Some(s) => Some(s@),
        None => None,
    }
}

/// The character sequences of pairs of strings.
pub open spec fn pairs_view(v: Seq<(String, String)>) -> Seq<(Seq<char>, Seq<char>)> {
    v.map_values(|p: (String, String)| (p.0@, p.1@))
}

/// Builds a [`TerraffiGenerator`] from options, each left at its default
/// until set.
#[derive(Debug, Clone, PartialEq, Eq)]
pub struct TerraffiGeneratorBuilder {
    is_scan_dependencies: bool,
    exclude_crates: Vec<String>,
    header_comment: Option<String>,
    header_guard: Option<String>,
    export_macro: Option<String>,
    is_add_std_includes: bool,
    additional_includes: Vec<String>,
    additional_macro_definitions: Vec<CMacro>,
    is_export_public_functions: bool,
    is_export_public_types: bool,
    struct_prefix: Option<String>,
    enum_prefix: Option<String>,
    constant_prefix: Option<String>,
    is_prefix_enum_members_with_typename: Option<bool>,
    struct_suffix: Option<String>,
    enum_suffix: Option<String>,
    constant_suffix: Option<String>,
    discriminated_union_tag_typename_suffix: Option<String>,
    typename_case: Option<Case>,
    parameter_case: Option<Case>,
    field_case: Option<Case>,
    enum_member_case: Option<Case>,
    constant_case: Option<Case>,
    type_name_map: Vec<(String, String)>,
    assumed_declared: Vec<String>,
    is_allow_unresolved_types: bool,
}

impl View for TerraffiGeneratorBuilder {
    type V = BuilderView;

    closed spec fn view(&self) -> BuilderView {
        BuilderView {
            is_scan_dependencies: self.is_scan_dependencies,
            exclude_crates: strings_view(self.exclude_crates@),
            header_comment: opt_string_view(self.header_comment),
            header_guard: opt_string_view(self.header_guard),
            export_macro: opt_string_view(self.export_macro),
            is_add_std_includes: self.is_add_std_includes,
            additional_includes: strings_view(self.additional_includes@),
            additional_macro_definitions: self.additional_macro_definitions@,
            is_export_public_functions: self.is_export_public_functions,
            is_export_public_types: self.is_export_public_types,
            struct_prefix: opt_string_view(self.struct_prefix),
            enum_prefix: opt_string_view(self.enum_prefix),
            constant_prefix: opt_string_view(self.constant_prefix),
            is_prefix_enum_members_with_typename: self.is_prefix_enum_members_with_typename,
            struct_suffix: opt_string_view(self.struct_suffix),
            enum_suffix: opt_string_view(self.enum_suffix),
            constant_suffix: opt_string_view(self.constant_suffix),
            discriminated_union_tag_typename_suffix: opt_string_view(
                self.discriminated_union_tag_typename_suffix,
            ),
            typename_case: self.typename_case,
            parameter_case: self.parameter_case,
            field_case: self.field_case,
            enum_member_case: self.enum_member_case,
            constant_case: self.constant_case,
            type_name_map: pairs_view(self.type_name_map@),
            assumed_declared: strings_view(self.assumed_declared@),
            is_allow_unresolved_types: self.is_allow_unresolved_types,
        }
    }
}

/// The options of a new builder: scan dependencies, include the standard
/// headers, export public functions and only annotated types; nothing else set.
pub open spec fn default_view() -> BuilderView {
    BuilderView {
        is_scan_dependencies: true,
        exclude_crates: Seq::empty(),
        header_comment: None,
        header_guard: None,
        export_macro: None,
        is_add_std_includes: true,
        additional_includes: Seq::empty(),
        additional_macro_definitions: Seq::empty(),
        is_export_public_functions: true,
        is_export_public_types: false,
        struct_prefix: None,
        enum_prefix: None,
        constant_prefix: None,
        is_prefix_enum_members_with_typename: None,
        struct_suffix: None,
        enum_suffix: None,
        constant_suffix: None,
        discriminated_union_tag_typename_suffix: None,
        typename_case: None,
        parameter_case: None,
        field_case: None,
        enum_member_case: None,
        constant_case: None,
        type_name_map: Seq::empty(),
        assumed_declared: Seq::empty(),
        is_allow_unresolved_types: false,
    }
}

/// Restating a default changes nothing: on the options of a new builder,
/// including the standard headers, exporting public functions and exporting
/// only annotated types leave the options as they were.
pub proof fn lemma_restating_defaults(b: BuilderView)
    requires
        b == default_view(),
    ensures
        (BuilderView { is_add_std_includes: true, ..b }) == b,
        (BuilderView { is_export_public_functions: true, ..b }) == b,
        (BuilderView { is_export_public_types: false, ..b }) == b,
        (BuilderView { is_scan_dependencies: true, ..b }) == b,
{
}

/// The string an unset option falls back to.
pub open spec fn or_text(o: Option<Seq<char>>, fallback: Seq<char>) -> Seq<char> {
    match o {
        Some(s) => s,
        None => fallback,
    }
}

/// The case an unset option falls back to.
pub open spec fn or_case(o: Option<Case>, fallback: Case) -> Case {
    match o {
        Some(c) => c,
        None => fallback,
    }
}

/// Whether `cfg` is the configuration a builder with options `b` makes:
/// unset affixes are empty, except the struct suffix `_t`, the enum suffix
/// `_e` and the tag suffix `Kind`; type names, parameters and fields are
/// snake case, enum members and constants upper snake case; enum members
/// are prefixed unless told otherwise; renames seed both name maps; no type
/// is declared yet.
pub open spec fn config_of(cfg: &TerraffiConfig, b: BuilderView) -> bool {
    &&& cfg.is_scan_dependencies == b.is_scan_dependencies
    &&& strings_view(cfg.exclude_crates@) == b.exclude_crates
    &&& opt_string_view(cfg.header_comment) == b.header_comment
    &&& opt_string_view(cfg.header_guard) == b.header_guard
    &&& opt_string_view(cfg.export_macro) == b.export_macro
    &&& cfg.is_add_std_includes == b.is_add_std_includes
    &&& strings_view(cfg.additional_includes@) == b.additional_includes
    &&& cfg.additional_macro_definitions@ == b.additional_macro_definitions
    &&& cfg.is_export_public_functions == b.is_export_public_functions
    &&& cfg.is_export_public_types == b.is_export_public_types
    &&& cfg.struct_prefix@ == or_text(b.struct_prefix, Seq::empty())
    &&& cfg.enum_prefix@ == or_text(b.enum_prefix, Seq::empty())
    &&& cfg.constant_prefix@ == or_text(b.constant_prefix, Seq::empty())
    &&& cfg.is_prefix_enum_cases_with_typename == match b.is_prefix_enum_members_with_typename {
        Some(v) => v,
        None => true,
    }
    &&& cfg.struct_suffix@ == or_text(b.struct_suffix, "_t"@)
    &&& cfg.enum_suffix@ == or_text(b.enum_suffix, "_e"@)
    &&& cfg.constant_suffix@ == or_text(b.constant_suffix, Seq::empty())
    &&& cfg.discriminated_union_tag_typename_suffix@ == or_text(
        b.discriminated_union_tag_typename_suffix,
        "Kind"@,
    )
    &&& cfg.type_case == or_case(b.typename_case, Case::Snake)
    &&& cfg.parameter_case == or_case(b.parameter_case, Case::Snake)
    &&& cfg.field_case == or_case(b.field_case, Case::Snake)
    &&& cfg.enum_member_case == or_case(b.enum_member_case, Case::UpperSnake)
    &&& cfg.constant_case == or_case(b.constant_case, Case::UpperSnake)
    &&& pairs_view(cfg.type_name_map@) == b.type_name_map
    &&& pairs_view(cfg.type_name_bare_map@) == b.type_name_map
    &&& strings_view(cfg.assumed_declared@) == b.assumed_declared
    &&& cfg.is_allow_unresolved_types == b.is_allow_unresolved_types
    &&& cfg.declared_types@.len() == 0
}

/// A configuration built after `rename_type(k, n)` was the last rename of
/// `k` maps `k` to `n` in both name maps, ahead of any convention.
pub proof fn lemma_rename_reaches_config(cfg: &TerraffiConfig, b: BuilderView, k: Seq<char>, n: Seq<char>)
    requires
        config_of(cfg, b),
        b.type_name_map.len() > 0,
        b.type_name_map[0] == (k, n),
    ensures
        assoc(cfg.type_name_map@, k) == Some(n),
        assoc(cfg.type_name_bare_map@, k) == Some(n),
{
    assert(pairs_view(cfg.type_name_map@)[0] == (cfg.type_name_map@[0].0@, cfg.type_name_map@[0].1@));
    assert(pairs_view(cfg.type_name_bare_map@)[0] == (cfg.type_name_bare_map@[0].0@, cfg.type_name_bare_map@[0].1@));
}

fn opt_owned(o: Option<String>, fallback: &str) -> (r: String)
    ensures
        r@ == or_text(opt_string_view(o), fallback@),
{
    match o {
        Some(s) => s,
        None => owned(fallback),
    }
}

fn copy_pairs(v: &Vec<(String, String)>) -> (r: Vec<(String, String)>)
    ensures
        pairs_view(r@) == pairs_view(v@),
{
    let mut out: Vec<(String, String)> = Vec::new();
    let mut i: usize = 0;
    while i < v.len()
        invariant
            i <= v@.len(),
            out@.len() == i,
            forall|j: int| 0 <= j < i ==> (#[trigger] out@[j]).0@ == v@[j].0@ && out@[j].1@ == v@[j].1@,
        decreases v.len() - i,
    {
        let a = copy_string(&v[i].0);
        let c = copy_string(&v[i].1);
        out.push((a, c));
        i = i + 1;
    }
    assert(pairs_view(out@) =~= pairs_view(v@));
    out
}

impl TerraffiGeneratorBuilder {
    /// A builder with every option at its default (see [`default_view`]).
    pub fn new() -> (r: Self)
        ensures
            r@ == default_view(),
    {
        let r = TerraffiGeneratorBuilder {
            is_scan_dependencies: true,
            exclude_crates: Vec::new(),
            header_comment: None,
            header_guard: None,
            export_macro: None,
            is_add_std_includes: true,
            additional_includes: Vec::new(),
            additional_macro_definitions: Vec::new(),
            is_export_public_functions: true,
            is_export_public_types: false,
            struct_prefix: None,
            enum_prefix: None,
            constant_prefix: None,
            is_prefix_enum_members_with_typename: None,
            struct_suffix: None,
            enum_suffix: None,
            constant_suffix: None,
            discriminated_union_tag_typename_suffix: None,
            typename_case: None,
            parameter_case: None,
            field_case: None,
            enum_member_case: None,
            constant_case: None,
            type_name_map: Vec::new(),
            assumed_declared: Vec::new(),
            is_allow_unresolved_types: false,
        };
        assert(strings_view(r.exclude_crates@) =~= Seq::empty());
        assert(strings_view(r.additional_includes@) =~= Seq::empty());
        assert(strings_view(r.assumed_declared@) =~= Seq::empty());
        assert(pairs_view(r.type_name_map@) =~= Seq::empty());
        r
    }

    /// Turns off scanning dependency crates for type definitions.
    pub fn disable_scan_dependencies(self) -> (r: Self)
        ensures
            r@ == (BuilderView { is_scan_dependencies: false, ..self@ }),
    {
        let mut b = self;
        b.is_scan_dependencies = false;
        b
    }

    /// Skips the dependency crate `name` when scanning.
    pub fn exclude_crate(self, name: &str) -> (r: Self)
        ensures
            r@ == (BuilderView { exclude_crates: self@.exclude_crates.push(name@), ..self@ }),
    {
        let mut b = self;
        b.exclude_crates.push(owned(name));
        assert(strings_view(b.exclude_crates@) =~= strings_view(self.exclude_crates@).push(name@));
        b
    }

    /// Puts `comment` in a block comment at the top of the header.
    pub fn header_comment(self, comment: &str) -> (r: Self)
        ensures
            r@ == (BuilderView { header_comment: Some(comment@), ..self@ }),
    {
        let mut b = self;
        b.header_comment = Some(owned(comment));
        b
    }

    /// Names the include guard.
    pub fn header_guard(self, guard: &str) -> (r: Self)
        ensures
            r@ == (BuilderView { header_guard: Some(guard@), ..self@ }),
    {
        let mut b = self;
        b.header_guard = Some(owned(guard));
        b
    }

    /// Prepends the macro `export_macro` to every function declaration, and
    /// defines it for the platform.
    pub fn export_macro(self, export_macro: &str) -> (r: Self)
        ensures
            r@ == (BuilderView { export_macro: Some(export_macro@), ..self@ }),
    {
        let mut b = self;
        b.export_macro = Some(owned(export_macro));
        b
    }

    /// Whether to include `<stdint.h>`, `<stddef.h>` and `<stdbool.h>`.
    pub fn add_std_includes(self, value: bool) -> (r: Self)
        ensures
            r@ == (BuilderView { is_add_std_includes: value, ..self@ }),
    {
        let mut b = self;
        b.is_add_std_includes = value;
        b
    }

    /// Adds an include statement.
    pub fn add_include(self, header: &str) -> (r: Self)
        ensures
            r@ == (BuilderView { additional_includes: self@.additional_includes.push(header@), ..self@ }),
    {
        let mut b = self;
        b.additional_includes.push(owned(header));
        assert(strings_view(b.additional_includes@) =~= strings_view(self.additional_includes@).push(
            header@,
        ));
        b
    }

    /// Adds a macro definition, emitted after the export macro block.
    pub fn add_macro_definition(self, definition: CMacro) -> (r: Self)
        ensures
            r@ == (BuilderView {
                additional_macro_definitions: self@.additional_macro_definitions.push(definition),
                ..self@
            }),
    {
        let mut b = self;
        b.additional_macro_definitions.push(definition);
        b
    }

    /// Exports every `pub extern "C"` function.
    pub fn export_public_functions(self) -> (r: Self)
        ensures
            r@ == (BuilderView { is_export_public_functions: true, ..self@ }),
    {
        let mut b = self;
        b.is_export_public_functions = true;
        b
    }

    /// Exports only the functions annotated with `#[terraffi_export]`.
    pub fn export_only_annotated_functions(self) -> (r: Self)
        ensures
            r@ == (BuilderView { is_export_public_functions: false, ..self@ }),
    {
        let mut b = self;
        b.is_export_public_functions = false;
        b
    }

    /// Exports every `pub` type.
    pub fn export_public_types(self) -> (r: Self)
        ensures
            r@ == (BuilderView { is_export_public_types: true, ..self@ }),
    {
        let mut b = self;
        b.is_export_public_types = true;
        b
    }

    /// Exports only the types annotated with `#[terraffi_export]`, and those
    /// they reference.
    pub fn export_only_annotated_types(self) -> (r: Self)
        ensures
            r@ == (BuilderView { is_export_public_types: false, ..self@ }),
    {
        let mut b = self;
        b.is_export_public_types = false;
        b
    }

    /// Prepends `prefix` to struct and enum type names.
    pub fn typename_prefix(self, prefix: &str) -> (r: Self)
        ensures
            r@ == (BuilderView { struct_prefix: Some(prefix@), enum_prefix: Some(prefix@), ..self@ }),
    {
        let mut b = self;
        b.struct_prefix = Some(owned(prefix));
        b.enum_prefix = Some(owned(prefix));
        b
    }

    /// Prepends `prefix` to struct type names.
    pub fn struct_prefix(self, prefix: &str) -> (r: Self)
        ensures
            r@ == (BuilderView { struct_prefix: Some(prefix@), ..self@ }),
    {
        let mut b = self;
        b.struct_prefix = Some(owned(prefix));
        b
    }

    /// Prepends `prefix` to enum type names.
    pub fn enum_prefix(self, prefix: &str) -> (r: Self)
        ensures
            r@ == (BuilderView { enum_prefix: Some(prefix@), ..self@ }),
    {
        let mut b = self;
        b.enum_prefix = Some(owned(prefix));
        b
    }

    /// Prepends `prefix` to constant names.
    pub fn constant_prefix(self, prefix: &str) -> (r: Self)
        ensures
            r@ == (BuilderView { constant_prefix: Some(prefix@), ..self@ }),
    {
        let mut b = self;
        b.constant_prefix = Some(owned(prefix));
        b
    }

    /// Whether enum members are prefixed with their type's name.
    pub fn prefix_enum_cases_with_typename(self, value: bool) -> (r: Self)
        ensures
            r@ == (BuilderView { is_prefix_enum_members_with_typename: Some(value), ..self@ }),
    {
        let mut b = self;
        b.is_prefix_enum_members_with_typename = Some(value);
        b
    }

    /// Appends `suffix` to struct and enum type names.
    pub fn typename_suffix(self, suffix: &str) -> (r: Self)
        ensures
            r@ == (BuilderView { struct_suffix: Some(suffix@), enum_suffix: Some(suffix@), ..self@ }),
    {
        let mut b = self;
        b.struct_suffix = Some(owned(suffix));
        b.enum_suffix = Some(owned(suffix));
        b
    }

    /// Appends `suffix` to struct type names.
    pub fn struct_suffix(self, suffix: &str) -> (r: Self)
        ensures
            r@ == (BuilderView { struct_suffix: Some(suffix@), ..self@ }),
    {
        let mut b = self;
        b.struct_suffix = Some(owned(suffix));
        b
    }

    /// Appends `suffix` to enum type names.
    pub fn enum_suffix(self, suffix: &str) -> (r: Self)
        ensures
            r@ == (BuilderView { enum_suffix: Some(suffix@), ..self@ }),
    {
        let mut b = self;
        b.enum_suffix = Some(owned(suffix));
        b
    }

    /// Appends `suffix` to constant names.
    pub fn constant_suffix(self, suffix: &str) -> (r: Self)
        ensures
            r@ == (BuilderView { constant_suffix: Some(suffix@), ..self@ }),
    {
        let mut b = self;
        b.constant_suffix = Some(owned(suffix));
        b
    }

    /// Appends `suffix` to a tagged union's name to name its tag enum.
    pub fn discriminated_union_tag_typename_suffix(self, suffix: &str) -> (r: Self)
        ensures
            r@ == (BuilderView { discriminated_union_tag_typename_suffix: Some(suffix@), ..self@ }),
    {
        let mut b = self;
        b.discriminated_union_tag_typename_suffix = Some(owned(suffix));
        b
    }

    /// The case of type names.
    pub fn typename_case(self, case: Case) -> (r: Self)
        ensures
            r@ == (BuilderView { typename_case: Some(case), ..self@ }),
    {
        let mut b = self;
        b.typename_case = Some(case);
        b
    }

    /// The case of function parameter names.
    pub fn parameter_case(self, case: Case) -> (r: Self)
        ensures
            r@ == (BuilderView { parameter_case: Some(case), ..self@ }),
    {
        let mut b = self;
        b.parameter_case = Some(case);
        b
    }

    /// The case of struct field names.
    pub fn field_case(self, case: Case) -> (r: Self)
        ensures
            r@ == (BuilderView { field_case: Some(case), ..self@ }),
    {
        let mut b = self;
        b.field_case = Some(case);
        b
    }

    /// The case of enum member names.
    pub fn enum_member_case(self, case: Case) -> (r: Self)
        ensures
            r@ == (BuilderView { enum_member_case: Some(case), ..self@ }),
    {
        let mut b = self;
        b.enum_member_case = Some(case);
        b
    }

    /// The case of constant names.
    pub fn constant_case(self, case: Case) -> (r: Self)
        ensures
            r@ == (BuilderView { constant_case: Some(case), ..self@ }),
    {
        let mut b = self;
        b.constant_case = Some(case);
        b
    }

    /// Gives the Rust type `rust_name` the C name `c_name`, bypassing the
    /// naming conventions; a later rename of the same type wins.
    pub fn rename_type(self, rust_name: &str, c_name: &str) -> (r: Self)
        ensures
            r@ == (BuilderView {
                type_name_map: seq![(rust_name@, c_name@)] + self@.type_name_map,
                ..self@
            }),
    {
        let mut b = self;
        b.type_name_map.insert(0, (owned(rust_name), owned(c_name)));
        assert(pairs_view(b.type_name_map@) =~= seq![(rust_name@, c_name@)] + pairs_view(
            self.type_name_map@,
        ));
        b
    }

    /// Promises that the type `rust_name` is declared elsewhere, e.g. by a
    /// header pulled in with [`Self::add_include`].
    pub fn assume_declared(self, rust_name: &str) -> (r: Self)
        ensures
            r@ == (BuilderView { assumed_declared: self@.assumed_declared.push(rust_name@), ..self@ }),
    {
        let mut b = self;
        b.assumed_declared.push(owned(rust_name));
        assert(strings_view(b.assumed_declared@) =~= strings_view(self.assumed_declared@).push(
            rust_name@,
        ));
        b
    }

    /// Reports unresolved types instead of failing on them.
    pub fn allow_unresolved_types(self) -> (r: Self)
        ensures
            r@ == (BuilderView { is_allow_unresolved_types: true, ..self@ }),
    {
        let mut b = self;
        b.is_allow_unresolved_types = true;
        b
    }

    /// The configuration these options make (see [`config_of`]).
    pub fn into_config(self) -> (r: TerraffiConfig)
        ensures
            config_of(&r, self@),
    {
        let b = self;
        proof {
            reveal_strlit("");
            assert(""@ =~= Seq::<char>::empty());
        }
        let type_name_bare_map = copy_pairs(&b.type_name_map);
        TerraffiConfig {
            is_scan_dependencies: b.is_scan_dependencies,
            exclude_crates: b.exclude_crates,
            header_comment: b.header_comment,
            header_guard: b.header_guard,
            export_macro: b.export_macro,
            is_add_std_includes: b.is_add_std_includes,
            additional_includes: b.additional_includes,
            additional_macro_definitions: b.additional_macro_definitions,
            is_export_public_functions: b.is_export_public_functions,
            is_export_public_types: b.is_export_public_types,
            struct_prefix: opt_owned(b.struct_prefix, ""),
            enum_prefix: opt_owned(b.enum_prefix, ""),
            constant_prefix: opt_owned(b.constant_prefix, ""),
            is_prefix_enum_cases_with_typename: match b.is_prefix_enum_members_with_typename {
                Some(v) => v,
                None => true,
            },
            struct_suffix: opt_owned(b.struct_suffix, "_t"),
            enum_suffix: opt_owned(b.enum_suffix, "_e"),
            constant_suffix: opt_owned(b.constant_suffix, ""),
            discriminated_union_tag_typename_suffix: opt_owned(
                b.discriminated_union_tag_typename_suffix,
                "Kind",
            ),
            type_case: match b.typename_case {
                Some(c) => c,
                None => Case::Snake,
            },
            parameter_case: match b.parameter_case {
                Some(c) => c,
                None => Case::Snake,
            },
            field_case: match b.field_case {
                Some(c) => c,
                None => Case::Snake,
            },
            enum_member_case: match b.enum_member_case {
                Some(c) => c,
                None => Case::UpperSnake,
            },
            constant_case: match b.constant_case {
                Some(c) => c,
                None => Case::UpperSnake,
            },
            type_name_map: b.type_name_map,
            type_name_bare_map,
            assumed_declared: b.assumed_declared,
            is_allow_unresolved_types: b.is_allow_unresolved_types,
            declared_types: Vec::new(),
        }
    }

    /// A generator for the crate in `crate_dir`, configured by these options.
    pub fn build(self, crate_dir: &str) -> (r: TerraffiGenerator)
        ensures
            config_of(&r.config, self@),
            r.crate_dir@ == crate_dir@,
            r.header_guard@ == guard_for(self@.header_guard, crate_dir@),
            r.referenced_types@.len() == 0,
            r.unresolved@.len() == 0,
    {
        let config = self.into_config();
        TerraffiGenerator::new(config, crate_dir)
    }
}

impl Default for TerraffiGeneratorBuilder {
    /// The same builder as [`TerraffiGeneratorBuilder::new`].
    fn default() -> (r: Self)
        ensures
            r@ == default_view(),
    {
        Self::new()
    }
}

} // verus!
