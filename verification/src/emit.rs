//! How each declaration is written into the header.

use vstd::prelude::*;
use crate::case::{case_converted, convert_case};
use crate::config::{TerraffiConfig, type_name_of, bare_type_name_of, name_set, insert_name};
use crate::ctype::{CType, type_text, named_decl_text, params_text};
use crate::doc::{CDoc, cdoc_text, fdoc_text, fn_doc_view, opt_view, params_view, doc_view};
use crate::items::{
    CItem, CStruct, CStructField, CEnum, CEnumVariant, CDiscriminatedUnion, CTaggedUnionVariant,
    CBitflags, CBitflagsConstant, CTypedef, CConst, CMacro, CFunction, CFunctionParam, item_name,
};
use crate::text::{append_str, chars_of, owned, copy_string};

verus! {

/// How a field is declared: a slice or vector expands into a pointer and its
/// length (and capacity) members, an array keeps its length, anything else is
/// a plain declaration; each preceded by the field's doc.
pub open spec fn field_text(
    name: Seq<char>,
    doc: (Option<Seq<char>>, Option<Seq<char>>),
    ty: CType,
    cfg: &TerraffiConfig,
    indent: Seq<char>,
) -> Seq<char> {
    let d = cdoc_text(doc.0, doc.1, indent);
    match ty {
        CType::Slice { is_const, inner } => d + expanded_text(name, CType::Pointer { is_const, inner }, cfg, indent, false),
        CType::Vec { is_const, inner } => d + expanded_text(name, CType::Pointer { is_const, inner }, cfg, indent, true),
        CType::Array { size, inner } => d + indent + type_text(*inner, cfg) + " "@ + name + "["@
            + size@ + "];\n"@,
        _ => d + indent + named_decl_text(ty, name, cfg) + ";\n"@,
    }
}

/// A slice or vector field expanded into a pointer member `ptr`, its length
/// and, for a vector, its capacity.
pub open spec fn expanded_text(name: Seq<char>, ptr: CType, cfg: &TerraffiConfig, indent: Seq<char>, cap: bool) -> Seq<char> {
    indent + type_text(ptr, cfg) + " "@ + name + ";\n"@ + indent + "/** Number of elements in "@ + name
        + ". */\n"@ + indent + "size_t "@ + name + "_len;\n"@ + if cap {
        indent + "/** Allocated capacity of "@ + name + ". */\n"@ + indent + "size_t "@ + name
            + "_capacity;\n"@
    } else {
        Seq::empty()
    }
}

/// The declarations of `fs`, one after another.
pub open spec fn fields_text(fs: Seq<CStructField>, cfg: &TerraffiConfig, indent: Seq<char>) -> Seq<char>
    decreases fs.len(),
{
    if fs.len() == 0 {
        Seq::empty()
    } else {
        fields_text(fs.drop_last(), cfg, indent) + field_text(
            fs.last().name@,
            doc_view(fs.last().doc),
            fs.last().ty,
            cfg,
            indent,
        )
    }
}

fn push(w: &mut Vec<char>, s: &str)
    ensures
        final(w)@ == old(w)@ + s@,
{
    append_str(w, s);
}

/// Formats a pointer to `inner`.
fn format_pointer(is_const: bool, inner: &Box<CType>, cfg: &TerraffiConfig) -> (r: String)
    ensures
        r@ == type_text(CType::Pointer { is_const, inner: *inner }, cfg),
{
    let base = inner.format(cfg);
    if is_const {
        if matches!(**inner, CType::Pointer { .. }) {
            let mut s = base;
            s.append(" const*");
            s
        } else {
            let mut s = owned("const ");
            s.append(base.as_str());
            s.append("*");
            s
        }
    } else {
        let mut s = base;
        s.append("*");
        s
    }
}

fn emit_expanded(
    w: &mut Vec<char>,
    cfg: &TerraffiConfig,
    indent: &str,
    name: &str,
    is_const: bool,
    inner: &Box<CType>,
    cap: bool,
)
    ensures
        final(w)@ == old(w)@ + expanded_text(name@, CType::Pointer { is_const, inner: *inner }, cfg, indent@, cap),
{
    let p = format_pointer(is_const, inner, cfg);
    push(w, indent);
    push(w, p.as_str());
    push(w, " ");
    push(w, name);
    push(w, ";\n");
    push(w, indent);
    push(w, "/** Number of elements in ");
    push(w, name);
    push(w, ". */\n");
    push(w, indent);
    push(w, "size_t ");
    push(w, name);
    push(w, "_len;\n");
    let ghost mid = w@;
    if cap {
        push(w, indent);
        push(w, "/** Allocated capacity of ");
        push(w, name);
        push(w, ". */\n");
        push(w, indent);
        push(w, "size_t ");
        push(w, name);
        push(w, "_capacity;\n");
    }
    assert(w@ =~= old(w)@ + expanded_text(name@, CType::Pointer { is_const, inner: *inner }, cfg, indent@, cap));
}

fn emit_plain_field(w: &mut Vec<char>, cfg: &TerraffiConfig, indent: &str, name: &str, ty: &CType)
    ensures
        final(w)@ == old(w)@ + match *ty {
            CType::Array { size, inner } => indent@ + type_text(*inner, cfg) + " "@ + name@ + "["@
                + size@ + "];\n"@,
            _ => indent@ + named_decl_text(*ty, name@, cfg) + ";\n"@,
        },
{
    match ty {
        CType::Array { size, inner } => {
            let t = inner.format(cfg);
            push(w, indent);
            push(w, t.as_str());
            push(w, " ");
            push(w, name);
            push(w, "[");
            push(w, size.as_str());
            push(w, "];\n");
        },
        _ => {
            let d = ty.format_named(name, cfg);
            push(w, indent);
            push(w, d.as_str());
            push(w, ";\n");
        },
    }
}

/// Writes a field declaration (see [`field_text`]).
pub fn emit_field(w: &mut Vec<char>, cfg: &TerraffiConfig, indent: &str, name: &str, doc: &CDoc, ty: &CType)
    ensures
        final(w)@ == old(w)@ + field_text(name@, doc_view(*doc), *ty, cfg, indent@),
{
    doc.emit_doxygen(w, indent);
    match ty {
        CType::Slice { is_const, inner } => emit_expanded(w, cfg, indent, name, *is_const, inner, false),
        CType::Vec { is_const, inner } => emit_expanded(w, cfg, indent, name, *is_const, inner, true),
        _ => emit_plain_field(w, cfg, indent, name, ty),
    }
}

fn emit_fields(w: &mut Vec<char>, cfg: &TerraffiConfig, indent: &str, fs: &Vec<CStructField>)
    ensures
        final(w)@ == old(w)@ + fields_text(fs@, cfg, indent@),
{
    let mut i: usize = 0;
    while i < fs.len()
        invariant
            i <= fs@.len(),
            w@ == old(w)@ + fields_text(fs@.subrange(0, i as int), cfg, indent@),
        decreases fs.len() - i,
    {
        assert(fs@.subrange(0, i + 1).drop_last() =~= fs@.subrange(0, i as int));
        let f = &fs[i];
        emit_field(w, cfg, indent, f.name.as_str(), &f.doc, &f.ty);
        i = i + 1;
    }
    assert(fs@.subrange(0, fs@.len() as int) =~= fs@);
}

impl CStructField {
    /// Writes the field's declaration (see [`field_text`]).
    pub fn emit(&self, w: &mut Vec<char>, config: &TerraffiConfig, indent: &str)
        ensures
            final(w)@ == old(w)@ + field_text(self.name@, doc_view(self.doc), self.ty, config, indent@),
    {
        emit_field(w, config, indent, self.name.as_str(), &self.doc, &self.ty);
    }
}

/// A struct: its doc, then `typedef struct tag { fields } name;`.
pub open spec fn struct_text(s: CStruct, cfg: &TerraffiConfig) -> Seq<char> {
    let d = doc_view(s.doc);
    cdoc_text(d.0, d.1, ""@) + "typedef struct "@ + bare_type_name_of(cfg, s.name@) + " {\n"@
        + fields_text(s.fields@, cfg, "    "@) + "} "@ + type_name_of(cfg, s.name@) + ";\n"@
}

impl CStruct {
    /// Writes the struct's declaration (see [`struct_text`]).
    pub fn emit(&self, w: &mut Vec<char>, config: &TerraffiConfig)
        ensures
            final(w)@ == old(w)@ + struct_text(*self, config),
    {
        let name = config.format_type_name(self.name.as_str());
        let bare = config.format_type_name_bare(self.name.as_str());
        self.doc.emit_doxygen(w, "");
        push(w, "typedef struct ");
        push(w, bare.as_str());
        push(w, " {\n");
        emit_fields(w, config, "    ", &self.fields);
        push(w, "} ");
        push(w, name.as_str());
        push(w, ";\n");
    }
}

/// The prefix of an enum's members or a bitflags type's constants.
pub open spec fn member_prefix(cfg: &TerraffiConfig, raw: Seq<char>) -> Seq<char> {
    if cfg.is_prefix_enum_cases_with_typename {
        bare_type_name_of(cfg, raw) + "_"@
    } else {
        Seq::empty()
    }
}

/// An enum member: its doc, then its name in the configured case, its value
/// and, unless it is the last, a comma.
pub open spec fn variant_text(v: CEnumVariant, cfg: &TerraffiConfig, prefix: Seq<char>, trailing: bool) -> Seq<char> {
    let d = doc_view(v.doc);
    cdoc_text(d.0, d.1, "    "@) + "    "@ + case_converted(prefix + v.name@, cfg.enum_member_case)
        + match v.value {
        Some(x) => " = "@ + x@,
        None => Seq::empty(),
    } + (if trailing {
        ","@
    } else {
        Seq::empty()
    }) + "\n"@
}

/// The first `k` members of an enum with members `vs`.
pub open spec fn variants_text(
    vs: Seq<CEnumVariant>,
    k: int,
    cfg: &TerraffiConfig,
    prefix: Seq<char>,
) -> Seq<char>
    decreases k,
{
    if k <= 0 {
        Seq::empty()
    } else {
        variants_text(vs, k - 1, cfg, prefix) + variant_text(vs[k - 1], cfg, prefix, k - 1 < vs.len() - 1)
    }
}

/// An enum: its doc, then `typedef enum tag { members } name;`.
pub open spec fn enum_text(e: CEnum, cfg: &TerraffiConfig) -> Seq<char> {
    let d = doc_view(e.doc);
    cdoc_text(d.0, d.1, ""@) + "typedef enum "@ + bare_type_name_of(cfg, e.name@) + " {\n"@
        + variants_text(e.variants@, e.variants@.len() as int, cfg, member_prefix(cfg, e.name@))
        + "} "@ + type_name_of(cfg, e.name@) + ";\n"@
}

fn member_prefix_of(config: &TerraffiConfig, raw: &str) -> (r: String)
    ensures
        r@ == member_prefix(config, raw@),
{
    if config.is_prefix_enum_cases_with_typename {
        let mut p = config.format_type_name_bare(raw);
        p.append("_");
        p
    } else {
        String::new()
    }
}

impl CEnumVariant {
    /// Writes the member (see [`variant_text`]).
    pub fn emit(&self, w: &mut Vec<char>, config: &TerraffiConfig, variant_prefix: &str, is_trailing: bool)
        ensures
            final(w)@ == old(w)@ + variant_text(*self, config, variant_prefix@, is_trailing),
    {
        self.doc.emit_doxygen(w, "    ");
        let mut full = owned(variant_prefix);
        full.append(self.name.as_str());
        let name = convert_case(full.as_str(), config.enum_member_case);
        push(w, "    ");
        push(w, name.as_str());
        if let Some(value) = &self.value {
            push(w, " = ");
            push(w, value.as_str());
        }
        if is_trailing {
            push(w, ",");
        }
        push(w, "\n");
        proof {
            assert(old(w)@ + variant_text(*self, config, variant_prefix@, is_trailing) =~= w@);
        }
    }
}

impl CEnum {
    /// Writes the enum's declaration (see [`enum_text`]).
    pub fn emit(&self, w: &mut Vec<char>, config: &TerraffiConfig)
        ensures
            final(w)@ == old(w)@ + enum_text(*self, config),
    {
        let tname = config.format_type_name(self.name.as_str());
        let bare_name = config.format_type_name_bare(self.name.as_str());
        let prefix = member_prefix_of(config, self.name.as_str());
        self.doc.emit_doxygen(w, "");
        push(w, "typedef enum ");
        push(w, bare_name.as_str());
        push(w, " {\n");
        let ghost start = w@;
        let n = self.variants.len();
        let mut i: usize = 0;
        while i < n
            invariant
                n == self.variants@.len(),
                i <= n,
                w@ == start + variants_text(self.variants@, i as int, config, prefix@),
            decreases n - i,
        {
            self.variants[i].emit(w, config, prefix.as_str(), i + 1 < n);
            i = i + 1;
        }
        push(w, "} ");
        push(w, tname.as_str());
        push(w, ";\n");
    }
}

/// The union member for one variant of a tagged union: nothing for a variant
/// without fields, a plain member for a single field that is neither slice nor
/// vector, else a struct of its fields.
pub open spec fn union_variant_text(v: CTaggedUnionVariant, cfg: &TerraffiConfig) -> Seq<char> {
    let fname = case_converted(v.name@, cfg.field_case);
    let fs = v.fields@;
    if fs.len() == 0 {
        Seq::empty()
    } else if fs.len() == 1 && !(fs[0].ty is Slice) && !(fs[0].ty is Vec) {
        "        "@ + named_decl_text(fs[0].ty, fname, cfg) + ";\n"@
    } else {
        "        struct {\n"@ + (if fs.len() == 1 {
            field_text(fname, (None, None), fs[0].ty, cfg, "            "@)
        } else {
            fields_text(fs, cfg, "            "@)
        }) + "        } "@ + fname + ";\n"@
    }
}

/// The union members of the variants `vs`.
pub open spec fn union_variants_text(vs: Seq<CTaggedUnionVariant>, cfg: &TerraffiConfig) -> Seq<char>
    decreases vs.len(),
{
    if vs.len() == 0 {
        Seq::empty()
    } else {
        union_variants_text(vs.drop_last(), cfg) + union_variant_text(vs.last(), cfg)
    }
}

/// Whether some variant of `vs` has fields.
pub open spec fn any_with_fields(vs: Seq<CTaggedUnionVariant>) -> bool {
    exists|i: int| 0 <= i < vs.len() && (#[trigger] vs[i]).fields@.len() > 0
}

/// A tagged union: its doc, then a struct of the tag and an anonymous union
/// of the variants that carry data.
pub open spec fn union_text(u: CDiscriminatedUnion, cfg: &TerraffiConfig) -> Seq<char> {
    let d = doc_view(u.doc);
    cdoc_text(d.0, d.1, ""@) + "typedef struct "@ + bare_type_name_of(cfg, u.name@) + " {\n"@
        + "    "@ + type_name_of(cfg, u.discriminant_enum_name@) + " "@ + case_converted(
        cfg.discriminated_union_tag_typename_suffix@,
        cfg.field_case,
    ) + ";\n"@ + (if any_with_fields(u.variants@) {
        "    union {\n"@ + union_variants_text(u.variants@, cfg) + "    };\n"@
    } else {
        Seq::empty()
    }) + "} "@ + type_name_of(cfg, u.name@) + ";\n"@
}

#[verifier::spinoff_prover]
#[verifier::rlimit(50)]
fn emit_union_variant(w: &mut Vec<char>, config: &TerraffiConfig, v: &CTaggedUnionVariant)
    ensures
        final(w)@ == old(w)@ + union_variant_text(*v, config),
{
    let n = v.fields.len();
    if n == 0 {
        assert(old(w)@ + Seq::<char>::empty() =~= old(w)@);
        return;
    }
    let field_name = convert_case(v.name.as_str(), config.field_case);
    let single_plain = n == 1 && !matches!(v.fields[0].ty, CType::Slice { .. }) && !matches!(
        v.fields[0].ty,
        CType::Vec { .. }
    );
    if single_plain {
        let d = v.fields[0].ty.format_named(field_name.as_str(), config);
        push(w, "        ");
        push(w, d.as_str());
        push(w, ";\n");
    } else {
        push(w, "        struct {\n");
        if n == 1 {
            let empty = CDoc { brief: None, description: None };
            emit_field(w, config, "            ", field_name.as_str(), &empty, &v.fields[0].ty);
        } else {
            emit_fields(w, config, "            ", &v.fields);
        }
        push(w, "        } ");
        push(w, field_name.as_str());
        push(w, ";\n");
    }
}

impl CDiscriminatedUnion {
    /// Writes the tagged union's declaration (see [`union_text`]).
    pub fn emit(&self, w: &mut Vec<char>, config: &TerraffiConfig)
        ensures
            final(w)@ == old(w)@ + union_text(*self, config),
    {
        let tname = config.format_type_name(self.name.as_str());
        let bare = config.format_type_name_bare(self.name.as_str());
        let discriminant_name = config.format_type_name(self.discriminant_enum_name.as_str());
        self.doc.emit_doxygen(w, "");
        push(w, "typedef struct ");
        push(w, bare.as_str());
        push(w, " {\n");
        let tag_field_name = convert_case(
            self.discriminated_union_tag_suffix(config).as_str(),
            config.field_case,
        );
        push(w, "    ");
        push(w, discriminant_name.as_str());
        push(w, " ");
        push(w, tag_field_name.as_str());
        push(w, ";\n");
        let mut any = false;
        let mut j: usize = 0;
        while j < self.variants.len()
            invariant
                j <= self.variants@.len(),
                any == exists|k: int| 0 <= k < j && (#[trigger] self.variants@[k]).fields@.len() > 0,
            decreases self.variants.len() - j,
        {
            if self.variants[j].fields.len() > 0 {
                assert(self.variants@[j as int].fields@.len() > 0);
                any = true;
            }
            j = j + 1;
        }
        if any {
            push(w, "    union {\n");
            let ghost start = w@;
            let mut i: usize = 0;
            while i < self.variants.len()
                invariant
                    i <= self.variants@.len(),
                    w@ == start + union_variants_text(self.variants@.subrange(0, i as int), config),
                decreases self.variants.len() - i,
            {
                assert(self.variants@.subrange(0, i + 1).drop_last() =~= self.variants@.subrange(0, i as int));
                emit_union_variant(w, config, &self.variants[i]);
                i = i + 1;
            }
            assert(self.variants@.subrange(0, self.variants@.len() as int) =~= self.variants@);
            push(w, "    };\n");
        }
        push(w, "} ");
        push(w, tname.as_str());
        push(w, ";\n");
    }

    fn discriminated_union_tag_suffix(&self, config: &TerraffiConfig) -> (r: String)
        ensures
            r@ == config.discriminated_union_tag_typename_suffix@,
    {
        copy_string(&config.discriminated_union_tag_typename_suffix)
    }
}

/// A flag constant: its doc, then `#define NAME ((type)value)`.
pub open spec fn flag_text(c: CBitflagsConstant, cfg: &TerraffiConfig, typename: Seq<char>, prefix: Seq<char>) -> Seq<char> {
    let d = doc_view(c.doc);
    cdoc_text(d.0, d.1, ""@) + "#define "@ + case_converted(prefix + c.name@, cfg.constant_case) + " (("@
        + typename + ")"@ + c.value@ + ")\n"@
}

/// The flag constants of `cs`.
pub open spec fn flags_text(
    cs: Seq<CBitflagsConstant>,
    cfg: &TerraffiConfig,
    typename: Seq<char>,
    prefix: Seq<char>,
) -> Seq<char>
    decreases cs.len(),
{
    if cs.len() == 0 {
        Seq::empty()
    } else {
        flags_text(cs.drop_last(), cfg, typename, prefix) + flag_text(cs.last(), cfg, typename, prefix)
    }
}

/// A bitflags type: its doc, an integer typedef and a `#define` per flag.
pub open spec fn bitflags_text(b: CBitflags, cfg: &TerraffiConfig) -> Seq<char> {
    let d = doc_view(b.doc);
    let name = type_name_of(cfg, b.name@);
    cdoc_text(d.0, d.1, ""@) + "typedef "@ + type_text(b.underlying_type, cfg) + " "@ + name + ";\n"@
        + flags_text(b.constants@, cfg, name, member_prefix(cfg, b.name@))
}

impl CBitflagsConstant {
    /// Writes the flag's `#define` (see [`flag_text`]).
    pub fn emit(&self, w: &mut Vec<char>, config: &TerraffiConfig, typename: &str, const_prefix: &str)
        ensures
            final(w)@ == old(w)@ + flag_text(*self, config, typename@, const_prefix@),
    {
        let mut full = owned(const_prefix);
        full.append(self.name.as_str());
        let name = convert_case(full.as_str(), config.constant_case);
        self.doc.emit_doxygen(w, "");
        push(w, "#define ");
        push(w, name.as_str());
        push(w, " ((");
        push(w, typename);
        push(w, ")");
        push(w, self.value.as_str());
        push(w, ")\n");
    }
}

impl CBitflags {
    /// Writes the bitflags type (see [`bitflags_text`]).
    #[verifier::spinoff_prover]
    #[verifier::rlimit(40)]
    pub fn emit(&self, w: &mut Vec<char>, config: &TerraffiConfig)
        ensures
            final(w)@ == old(w)@ + bitflags_text(*self, config),
    {
        let tname = config.format_type_name(self.name.as_str());
        let prefix = member_prefix_of(config, self.name.as_str());
        self.doc.emit_doxygen(w, "");
        let c_type = self.underlying_type.format(config);
        push(w, "typedef ");
        push(w, c_type.as_str());
        push(w, " ");
        push(w, tname.as_str());
        push(w, ";\n");
        let ghost start = w@;
        let ghost d = doc_view(self.doc);
        assert(start == old(w)@ + cdoc_text(d.0, d.1, ""@) + "typedef "@ + type_text(self.underlying_type, config) + " "@
            + tname@ + ";\n"@);
        let mut i: usize = 0;
        while i < self.constants.len()
            invariant
                i <= self.constants@.len(),
                w@ == start + flags_text(self.constants@.subrange(0, i as int), config, tname@, prefix@),
            decreases self.constants.len() - i,
        {
            assert(self.constants@.subrange(0, i + 1).drop_last() =~= self.constants@.subrange(0, i as int));
            self.constants[i].emit(w, config, tname.as_str(), prefix.as_str());
            i = i + 1;
        }
        assert(self.constants@.subrange(0, self.constants@.len() as int) =~= self.constants@);
    }
}

/// A typedef: its doc, then an opaque `typedef struct tag name;` or
/// `typedef` of the aliased type.
pub open spec fn typedef_text(t: CTypedef, cfg: &TerraffiConfig) -> Seq<char> {
    let d = doc_view(t.doc);
    let name = type_name_of(cfg, t.name@);
    cdoc_text(d.0, d.1, ""@) + match t.inner_type {
        None => "typedef struct "@ + bare_type_name_of(cfg, t.name@) + " "@ + name + ";\n"@,
        Some(ty) => "typedef "@ + named_decl_text(ty, name, cfg) + ";\n"@,
    }
}

impl CTypedef {
    /// Writes the typedef (see [`typedef_text`]).
    pub fn emit(&self, w: &mut Vec<char>, config: &TerraffiConfig)
        ensures
            final(w)@ == old(w)@ + typedef_text(*self, config),
    {
        let tname = config.format_type_name(self.name.as_str());
        self.doc.emit_doxygen(w, "");
        match &self.inner_type {
            None => {
                let bare = config.format_type_name_bare(self.name.as_str());
                push(w, "typedef struct ");
                push(w, bare.as_str());
                push(w, " ");
                push(w, tname.as_str());
                push(w, ";\n");
            },
            Some(ty) => {
                let d = ty.format_named(tname.as_str(), config);
                push(w, "typedef ");
                push(w, d.as_str());
                push(w, ";\n");
            },
        }
    }
}

/// A constant: its doc, then `#define NAME ((type)value)`.
pub open spec fn const_text(c: CConst, cfg: &TerraffiConfig) -> Seq<char> {
    let d = doc_view(c.doc);
    cdoc_text(d.0, d.1, ""@) + "#define "@ + case_converted(
        cfg.constant_prefix@ + c.name@ + cfg.constant_suffix@,
        cfg.constant_case,
    ) + " (("@ + type_text(c.ty, cfg) + ")"@ + c.value@ + ")\n"@
}

impl CConst {
    /// Writes the constant (see [`const_text`]).
    pub fn emit(&self, w: &mut Vec<char>, config: &TerraffiConfig)
        ensures
            final(w)@ == old(w)@ + const_text(*self, config),
    {
        let mut full = copy_string(&config.constant_prefix);
        full.append(self.name.as_str());
        full.append(config.constant_suffix.as_str());
        let name = convert_case(full.as_str(), config.constant_case);
        let c_type = self.ty.format(config);
        self.doc.emit_doxygen(w, "");
        push(w, "#define ");
        push(w, name.as_str());
        push(w, " ((");
        push(w, c_type.as_str());
        push(w, ")");
        push(w, self.value.as_str());
        push(w, ")\n");
    }
}

/// A macro: its doc, then `#define name definition`.
pub open spec fn macro_text(m: CMacro) -> Seq<char> {
    let d = doc_view(m.doc);
    cdoc_text(d.0, d.1, ""@) + "#define "@ + m.name@ + " "@ + m.definition@ + "\n"@
}

impl CMacro {
    /// Writes the macro (see [`macro_text`]).
    pub fn emit(&self, w: &mut Vec<char>, _config: &TerraffiConfig)
        ensures
            final(w)@ == old(w)@ + macro_text(*self),
    {
        self.doc.emit_doxygen(w, "");
        push(w, "#define ");
        push(w, self.name.as_str());
        push(w, " ");
        push(w, self.definition.as_str());
        push(w, "\n");
    }
}

/// The declarations of a function's parameters, joined by `, `.
pub open spec fn joined_params(ps: Seq<CFunctionParam>, cfg: &TerraffiConfig) -> Seq<char>
    decreases ps.len(),
{
    if ps.len() == 0 {
        Seq::empty()
    } else if ps.len() == 1 {
        named_decl_text(ps[0].ty, ps[0].name@, cfg)
    } else {
        joined_params(ps.drop_last(), cfg) + ", "@ + named_decl_text(ps.last().ty, ps.last().name@, cfg)
    }
}

/// The names of a function's parameters and their docs.
pub open spec fn param_doc_pairs(ps: Seq<CFunctionParam>) -> Seq<(Seq<char>, Option<Seq<char>>)> {
    ps.map_values(|p: CFunctionParam| (p.name@, opt_view(p.doc)))
}

/// A function: its doc, then its prototype, after the export macro when one is set.
pub open spec fn function_text(f: CFunction, cfg: &TerraffiConfig) -> Seq<char> {
    fdoc_text(fn_doc_view(f.doc), param_doc_pairs(f.params@)) + match cfg.export_macro {
        Some(m) => m@ + " "@,
        None => Seq::empty(),
    } + type_text(f.return_type, cfg) + " "@ + f.name@ + "("@ + (if f.params@.len() == 0 {
        "void"@
    } else {
        joined_params(f.params@, cfg)
    }) + ");\n"@
}

impl CFunction {
    /// Writes the function's prototype (see [`function_text`]).
    #[verifier::spinoff_prover]
    #[verifier::rlimit(50)]
    pub fn emit(&self, w: &mut Vec<char>, config: &TerraffiConfig)
        ensures
            final(w)@ == old(w)@ + function_text(*self, config),
    {
        let mut param_docs: Vec<(String, Option<String>)> = Vec::new();
        let mut k: usize = 0;
        while k < self.params.len()
            invariant
                k <= self.params@.len(),
                params_view(param_docs@) == param_doc_pairs(self.params@.subrange(0, k as int)),
            decreases self.params.len() - k,
        {
            let p = &self.params[k];
            let d = match &p.doc {
                Some(s) => Some(copy_string(s)),
                None => None,
            };
            let ghost before = param_docs@;
            let entry = (copy_string(&p.name), d);
            assert(opt_view(entry.1) == opt_view(p.doc));
            param_docs.push(entry);
            assert(param_docs@ =~= before.push(entry));
            assert(params_view(param_docs@) =~= params_view(before).push((p.name@, opt_view(p.doc))));
            assert(self.params@.subrange(0, k + 1) =~= self.params@.subrange(0, k as int).push(*p));
            assert(param_doc_pairs(self.params@.subrange(0, k + 1)) =~= param_doc_pairs(
                self.params@.subrange(0, k as int),
            ).push((p.name@, opt_view(p.doc))));
            k = k + 1;
        }
        assert(self.params@.subrange(0, self.params@.len() as int) =~= self.params@);
        self.doc.emit_doxygen(w, param_docs.as_slice());
        let ret = self.return_type.format(config);
        let mut params = String::new();
        if self.params.len() == 0 {
            params.append("void");
        } else {
            let mut i: usize = 0;
            while i < self.params.len()
                invariant
                    i <= self.params@.len(),
                    params@ == joined_params(self.params@.subrange(0, i as int), config),
                decreases self.params.len() - i,
            {
                assert(self.params@.subrange(0, i + 1).drop_last() =~= self.params@.subrange(0, i as int));
                let p = &self.params[i];
                let d = p.ty.format_named(p.name.as_str(), config);
                if i > 0 {
                    params.append(", ");
                }
                params.append(d.as_str());
                i = i + 1;
            }
            assert(self.params@.subrange(0, self.params@.len() as int) =~= self.params@);
        }
        if let Some(macro_name) = &config.export_macro {
            push(w, macro_name.as_str());
            push(w, " ");
        }
        push(w, ret.as_str());
        push(w, " ");
        push(w, self.name.as_str());
        push(w, "(");
        push(w, params.as_str());
        push(w, ");\n");
    }
}

/// How an item is written.
pub open spec fn item_text(i: CItem, cfg: &TerraffiConfig) -> Seq<char> {
    match i {
        CItem::Struct(s) => struct_text(s, cfg),
        CItem::Enum(e) => enum_text(e, cfg),
        CItem::DiscriminatedUnion(u) => union_text(u, cfg),
        CItem::Bitflags(b) => bitflags_text(b, cfg),
        CItem::Typedef(t) => typedef_text(t, cfg),
        CItem::Const(c) => const_text(c, cfg),
        CItem::Macro(m) => macro_text(m),
        CItem::Function(f) => function_text(f, cfg),
    }
}

/// Whether an item declares a type.
pub open spec fn declares_type(i: CItem) -> bool {
    i is Struct || i is Enum || i is DiscriminatedUnion || i is Bitflags || i is Typedef
}

/// `b` is `a` with only the declared types possibly changed.
pub open spec fn same_settings(a: &TerraffiConfig, b: &TerraffiConfig) -> bool {
    &&& a.is_scan_dependencies == b.is_scan_dependencies
    &&& a.exclude_crates@ == b.exclude_crates@
    &&& a.header_comment == b.header_comment
    &&& a.header_guard == b.header_guard
    &&& a.export_macro == b.export_macro
    &&& a.is_add_std_includes == b.is_add_std_includes
    &&& a.additional_includes@ == b.additional_includes@
    &&& a.additional_macro_definitions@ == b.additional_macro_definitions@
    &&& a.is_export_public_functions == b.is_export_public_functions
    &&& a.is_export_public_types == b.is_export_public_types
    &&& a.struct_prefix == b.struct_prefix
    &&& a.enum_prefix == b.enum_prefix
    &&& a.constant_prefix == b.constant_prefix
    &&& a.is_prefix_enum_cases_with_typename == b.is_prefix_enum_cases_with_typename
    &&& a.struct_suffix == b.struct_suffix
    &&& a.enum_suffix == b.enum_suffix
    &&& a.constant_suffix == b.constant_suffix
    &&& a.discriminated_union_tag_typename_suffix == b.discriminated_union_tag_typename_suffix
    &&& a.type_case == b.type_case
    &&& a.parameter_case == b.parameter_case
    &&& a.field_case == b.field_case
    &&& a.enum_member_case == b.enum_member_case
    &&& a.constant_case == b.constant_case
    &&& a.type_name_map@ == b.type_name_map@
    &&& a.type_name_bare_map@ == b.type_name_bare_map@
    &&& a.assumed_declared@ == b.assumed_declared@
    &&& a.is_allow_unresolved_types == b.is_allow_unresolved_types
}

impl CItem {
    /// Writes the item (see [`item_text`]); a type, once written, counts as
    /// declared, so later references name it by its typedef.
    pub fn emit(&self, w: &mut Vec<char>, config: &mut TerraffiConfig)
        ensures
            final(w)@ == old(w)@ + item_text(*self, &*old(config)),
            same_settings(&*old(config), &*final(config)),
            name_set(final(config).declared_types@) == if declares_type(*self) {
                name_set(old(config).declared_types@).insert(item_name(*self))
            } else {
                name_set(old(config).declared_types@)
            },
    {
        match self {
            CItem::Struct(s) => s.emit(w, config),
            CItem::Enum(e) => e.emit(w, config),
            CItem::DiscriminatedUnion(u) => u.emit(w, config),
            CItem::Bitflags(b) => b.emit(w, config),
            CItem::Typedef(t) => t.emit(w, config),
            CItem::Const(c) => c.emit(w, config),
            CItem::Macro(m) => m.emit(w, config),
            CItem::Function(f) => f.emit(w, config),
        }
        if !matches!(self, CItem::Const(_) | CItem::Macro(_) | CItem::Function(_)) {
            insert_name(&mut config.declared_types, self.name());
        }
    }
}

} // verus!
