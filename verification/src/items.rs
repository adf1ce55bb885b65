//! The C declarations a header is made of, and how each is written.

use vstd::prelude::*;
use crate::case::{case_converted, convert_case};
use crate::config::{TerraffiConfig, type_name_of, bare_type_name_of, name_set, insert_name};
use crate::ctype::{CType, type_text, named_decl_text, referenced_names};
use crate::doc::{CDoc, CFunctionDoc, cdoc_text, fdoc_text, fn_doc_view, opt_view, params_view};
use crate::text::{append_str, chars_of, owned, copy_string};

verus! {

/// Why an item is, or is not, part of the header.
#[derive(Debug, Copy, Clone, PartialEq, Eq, Structural)]
pub enum TerraffiExportStatus {
    /// Neither public nor annotated.
    NotExported,
    /// Public, so exported where the configuration exports public items.
    Public,
    /// Annotated with `#[terraffi_export]`.
    ExplicitlyExported,
    /// Annotated with `#[terraffi_ignore]`.
    ExplicitlyIgnored,
}

/// A type alias, a transparent wrapper, or an opaque forward declaration.
#[derive(Debug)]
pub struct CTypedef {
    pub name: String,
    pub doc: CDoc,
    pub export_status: TerraffiExportStatus,
    pub source_order: usize,
    /// The aliased type; absent for an opaque declaration.
    pub inner_type: Option<CType>,
}

/// A constant, emitted as a cast `#define`.
#[derive(Debug)]
pub struct CConst {
    pub name: String,
    pub doc: CDoc,
    pub export_status: TerraffiExportStatus,
    pub source_order: usize,
    pub ty: CType,
    /// The value, already spelled in C.
    pub value: String,
}

/// A C macro definition.
#[derive(Debug, Clone, PartialEq, Eq)]
pub struct CMacro {
    /// The name, with its parameter list for a function-like macro.
    pub name: String,
    pub doc: CDoc,
    pub definition: String,
    pub export_status: TerraffiExportStatus,
    pub source_order: usize,
}

/// A `#[repr(C)]` struct.
#[derive(Debug)]
pub struct CStruct {
    pub name: String,
    pub doc: CDoc,
    pub export_status: TerraffiExportStatus,
    pub source_order: usize,
    pub fields: Vec<CStructField>,
}

/// A field of a struct or of a tagged union variant.
#[derive(Debug)]
pub struct CStructField {
    pub name: String,
    pub doc: CDoc,
    pub ty: CType,
}

/// A C enum, written or synthesised as the tag of a tagged union.
#[derive(Debug)]
pub struct CEnum {
    pub name: String,
    pub doc: CDoc,
    pub export_status: TerraffiExportStatus,
    pub source_order: usize,
    pub variants: Vec<CEnumVariant>,
    pub is_synthesised_from_discriminated_union: bool,
}

/// A member of a C enum.
#[derive(Debug)]
pub struct CEnumVariant {
    pub name: String,
    pub doc: CDoc,
    /// The explicit value, as written.
    pub value: Option<String>,
}

/// A Rust enum with data, emitted as a struct of a tag and a union.
#[derive(Debug)]
pub struct CDiscriminatedUnion {
    pub name: String,
    pub doc: CDoc,
    pub export_status: TerraffiExportStatus,
    pub source_order: usize,
    /// The name of the enum that tags the variants.
    pub discriminant_enum_name: String,
    pub variants: Vec<CTaggedUnionVariant>,
}

/// A variant of a tagged union.
#[derive(Debug)]
pub struct CTaggedUnionVariant {
    pub name: String,
    pub doc: CDoc,
    pub value: Option<String>,
    pub fields: Vec<CStructField>,
}

/// A `bitflags!` type, emitted as an integer typedef and `#define`s.
#[derive(Debug)]
pub struct CBitflags {
    pub name: String,
    pub doc: CDoc,
    pub export_status: TerraffiExportStatus,
    pub source_order: usize,
    pub underlying_type: CType,
    pub constants: Vec<CBitflagsConstant>,
}

/// One flag of a `bitflags!` type.
#[derive(Debug)]
pub struct CBitflagsConstant {
    pub name: String,
    pub doc: CDoc,
    /// The value, already spelled in C.
    pub value: String,
}

/// An exported function.
#[derive(Debug)]
pub struct CFunction {
    pub name: String,
    pub doc: CFunctionDoc,
    pub export_status: TerraffiExportStatus,
    pub source_order: usize,
    pub params: Vec<CFunctionParam>,
    pub return_type: CType,
}

/// A parameter of a function.
#[derive(Debug)]
pub struct CFunctionParam {
    pub name: String,
    /// Its entry in the function's `# Parameters` section.
    pub doc: Option<String>,
    pub ty: CType,
}

/// A declaration of the header.
#[derive(Debug)]
pub enum CItem {
    Struct(CStruct),
    Enum(CEnum),
    DiscriminatedUnion(CDiscriminatedUnion),
    Bitflags(CBitflags),
    Typedef(CTypedef),
    Const(CConst),
    Function(CFunction),
    Macro(CMacro),
}

/// The name of an item.
pub open spec fn item_name(i: CItem) -> Seq<char> {
    match i {
        CItem::Struct(s) => s.name@,
        CItem::Enum(e) => e.name@,
        CItem::DiscriminatedUnion(u) => u.name@,
        CItem::Bitflags(b) => b.name@,
        CItem::Typedef(t) => t.name@,
        CItem::Const(c) => c.name@,
        CItem::Macro(m) => m.name@,
        CItem::Function(f) => f.name@,
    }
}

/// The export status of an item.
pub open spec fn item_status(i: CItem) -> TerraffiExportStatus {
    match i {
        CItem::Struct(s) => s.export_status,
        CItem::Enum(e) => e.export_status,
        CItem::DiscriminatedUnion(u) => u.export_status,
        CItem::Bitflags(b) => b.export_status,
        CItem::Typedef(t) => t.export_status,
        CItem::Const(c) => c.export_status,
        CItem::Macro(m) => m.export_status,
        CItem::Function(f) => f.export_status,
    }
}

/// Where an item stood in the scanned source.
pub open spec fn item_order(i: CItem) -> usize {
    match i {
        CItem::Struct(s) => s.source_order,
        CItem::Enum(e) => e.source_order,
        CItem::DiscriminatedUnion(u) => u.source_order,
        CItem::Bitflags(b) => b.source_order,
        CItem::Typedef(t) => t.source_order,
        CItem::Const(c) => c.source_order,
        CItem::Macro(m) => m.source_order,
        CItem::Function(f) => f.source_order,
    }
}

/// The types the fields of `fs` mention.
pub open spec fn fields_refs(fs: Seq<CStructField>) -> Set<Seq<char>>
    decreases fs.len(),
{
    if fs.len() == 0 {
        Set::empty()
    } else {
        fields_refs(fs.drop_last()).union(referenced_names(fs.last().ty))
    }
}

/// The types the variants of a tagged union mention.
pub open spec fn variants_refs(vs: Seq<CTaggedUnionVariant>) -> Set<Seq<char>>
    decreases vs.len(),
{
    if vs.len() == 0 {
        Set::empty()
    } else {
        variants_refs(vs.drop_last()).union(fields_refs(vs.last().fields@))
    }
}

/// The types the parameters of a function mention.
pub open spec fn params_refs(ps: Seq<CFunctionParam>) -> Set<Seq<char>>
    decreases ps.len(),
{
    if ps.len() == 0 {
        Set::empty()
    } else {
        params_refs(ps.drop_last()).union(referenced_names(ps.last().ty))
    }
}

/// The types an item mentions: those of its fields, variants (with a tagged
/// union's tag enum), parameters and return type, or aliased type.
pub open spec fn item_refs(i: CItem) -> Set<Seq<char>> {
    match i {
        CItem::Struct(s) => fields_refs(s.fields@),
        CItem::DiscriminatedUnion(u) => set![u.discriminant_enum_name@].union(
            variants_refs(u.variants@),
        ),
        CItem::Typedef(t) => match t.inner_type {
            Some(ty) => referenced_names(ty),
            None => Set::empty(),
        },
        CItem::Function(f) => params_refs(f.params@).union(referenced_names(f.return_type)),
        _ => Set::empty(),
    }
}

fn collect_fields(fs: &Vec<CStructField>, names: &mut Vec<String>)
    ensures
        name_set(final(names)@) == name_set(old(names)@).union(fields_refs(fs@)),
{
    let mut i: usize = 0;
    while i < fs.len()
        invariant
            i <= fs@.len(),
            name_set(names@) == name_set(old(names)@).union(fields_refs(fs@.subrange(0, i as int))),
        decreases fs.len() - i,
    {
        assert(fs@.subrange(0, i + 1).drop_last() =~= fs@.subrange(0, i as int));
        fs[i].ty.collect_referenced_type_names(names);
        assert(name_set(names@) =~= name_set(old(names)@).union(fields_refs(fs@.subrange(0, i + 1))));
        i = i + 1;
    }
    assert(fs@.subrange(0, fs@.len() as int) =~= fs@);
}

impl CStruct {
    /// Adds the types the fields mention to `names`.
    pub fn collect_referenced_type_names(&self, names: &mut Vec<String>)
        ensures
            name_set(final(names)@) == name_set(old(names)@).union(fields_refs(self.fields@)),
    {
        collect_fields(&self.fields, names);
    }
}

impl CStructField {
    /// Adds the types the field mentions to `names`.
    pub fn collect_referenced_type_names(&self, names: &mut Vec<String>)
        ensures
            name_set(final(names)@) == name_set(old(names)@).union(referenced_names(self.ty)),
    {
        self.ty.collect_referenced_type_names(names);
    }
}

impl CTaggedUnionVariant {
    /// Adds the types the variant's fields mention to `names`.
    pub fn collect_referenced_type_names(&self, names: &mut Vec<String>)
        ensures
            name_set(final(names)@) == name_set(old(names)@).union(fields_refs(self.fields@)),
    {
        collect_fields(&self.fields, names);
    }
}

impl CDiscriminatedUnion {
    /// Adds the tag enum and the types the variants mention to `names`.
    pub fn collect_referenced_type_names(&self, names: &mut Vec<String>)
        ensures
            name_set(final(names)@) == name_set(old(names)@).union(
                set![self.discriminant_enum_name@].union(variants_refs(self.variants@)),
            ),
    {
        insert_name(names, self.discriminant_enum_name.as_str());
        let ghost start = name_set(names@);
        let mut i: usize = 0;
        while i < self.variants.len()
            invariant
                i <= self.variants@.len(),
                name_set(names@) == start.union(variants_refs(self.variants@.subrange(0, i as int))),
            decreases self.variants.len() - i,
        {
            assert(self.variants@.subrange(0, i + 1).drop_last() =~= self.variants@.subrange(0, i as int));
            self.variants[i].collect_referenced_type_names(names);
            assert(name_set(names@) =~= start.union(variants_refs(self.variants@.subrange(0, i + 1))));
            i = i + 1;
        }
        assert(self.variants@.subrange(0, self.variants@.len() as int) =~= self.variants@);
        assert(name_set(names@) =~= name_set(old(names)@).union(
            set![self.discriminant_enum_name@].union(variants_refs(self.variants@)),
        ));
    }
}

impl CFunctionParam {
    /// Adds the types the parameter mentions to `names`.
    pub fn collect_referenced_type_names(&self, names: &mut Vec<String>)
        ensures
            name_set(final(names)@) == name_set(old(names)@).union(referenced_names(self.ty)),
    {
        self.ty.collect_referenced_type_names(names);
    }
}

impl CFunction {
    /// Adds the types of the parameters and the return type to `names`.
    pub fn collect_referenced_type_names(&self, names: &mut Vec<String>)
        ensures
            name_set(final(names)@) == name_set(old(names)@).union(
                params_refs(self.params@).union(referenced_names(self.return_type)),
            ),
    {
        let mut i: usize = 0;
        while i < self.params.len()
            invariant
                i <= self.params@.len(),
                name_set(names@) == name_set(old(names)@).union(params_refs(self.params@.subrange(0, i as int))),
            decreases self.params.len() - i,
        {
            assert(self.params@.subrange(0, i + 1).drop_last() =~= self.params@.subrange(0, i as int));
            self.params[i].collect_referenced_type_names(names);
            assert(name_set(names@) =~= name_set(old(names)@).union(
                params_refs(self.params@.subrange(0, i + 1)),
            ));
            i = i + 1;
        }
        assert(self.params@.subrange(0, self.params@.len() as int) =~= self.params@);
        self.return_type.collect_referenced_type_names(names);
        assert(name_set(names@) =~= name_set(old(names)@).union(
            params_refs(self.params@).union(referenced_names(self.return_type)),
        ));
    }
}

impl CItem {
    /// The item's raw Rust name.
    pub fn name(&self) -> (r: &str)
        ensures
            r@ == item_name(*self),
    {
        match self {
            CItem::Struct(s) => s.name.as_str(),
            CItem::Enum(e) => e.name.as_str(),
            CItem::DiscriminatedUnion(u) => u.name.as_str(),
            CItem::Bitflags(b) => b.name.as_str(),
            CItem::Typedef(t) => t.name.as_str(),
            CItem::Const(c) => c.name.as_str(),
            CItem::Macro(m) => m.name.as_str(),
            CItem::Function(f) => f.name.as_str(),
        }
    }

    /// The item's export status.
    pub fn export_status(&self) -> (r: TerraffiExportStatus)
        ensures
            r == item_status(*self),
    {
        match self {
            CItem::Struct(s) => s.export_status,
            CItem::Enum(e) => e.export_status,
            CItem::DiscriminatedUnion(u) => u.export_status,
            CItem::Bitflags(b) => b.export_status,
            CItem::Typedef(t) => t.export_status,
            CItem::Const(c) => c.export_status,
            CItem::Macro(m) => m.export_status,
            CItem::Function(f) => f.export_status,
        }
    }

    /// Where the item stood in the scanned source.
    pub fn source_order(&self) -> (r: usize)
        ensures
            r == item_order(*self),
    {
        match self {
            CItem::Struct(s) => s.source_order,
            CItem::Enum(e) => e.source_order,
            CItem::DiscriminatedUnion(u) => u.source_order,
            CItem::Bitflags(b) => b.source_order,
            CItem::Typedef(t) => t.source_order,
            CItem::Const(c) => c.source_order,
            CItem::Macro(m) => m.source_order,
            CItem::Function(f) => f.source_order,
        }
    }

    /// Adds the types the item mentions to `names` (see [`item_refs`]).
    pub fn collect_referenced_type_names(&self, names: &mut Vec<String>)
        ensures
            name_set(final(names)@) == name_set(old(names)@).union(item_refs(*self)),
    {
        match self {
            CItem::Struct(s) => s.collect_referenced_type_names(names),
            CItem::DiscriminatedUnion(u) => u.collect_referenced_type_names(names),
            CItem::Typedef(t) => {
                if let Some(ty) = &t.inner_type {
                    ty.collect_referenced_type_names(names);
                } else {
                    assert(name_set(names@) =~= name_set(old(names)@).union(item_refs(*self)));
                }
            },
            CItem::Function(f) => f.collect_referenced_type_names(names),
            _ => {
                assert(name_set(names@) =~= name_set(old(names)@).union(item_refs(*self)));
            },
        }
    }

    /// Whether the item is a function.
    pub fn is_function(&self) -> (r: bool)
        ensures
            r == (*self is Function),
    {
        matches!(self, CItem::Function(_))
    }
}

} // verus!
