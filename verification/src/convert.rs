//! How the items of Rust source become C declarations.

use vstd::prelude::*;
use crate::ctype::{CType, converts_to, points_to, first_type_index, segment_idents, wrapper_kind,
    lemma_first_type_index};
use crate::doc::{CDoc, CFunctionDoc, CParamDoc, doc_view, attrs_doc, fn_doc_view, attrs_fn_doc, opt_view};
use crate::items::{
    CItem, CStruct, CStructField, CEnum, CEnumVariant, CDiscriminatedUnion, CTaggedUnionVariant,
    CTypedef, CConst, CFunction, CFunctionParam, TerraffiExportStatus,
};
use crate::literal::{tokens_c, rust_literal_tokens_to_c};
use crate::syntax::{
    RustAttr, RustType, RustField, RustFields, RustStruct, RustEnum, RustTypeAlias, RustConst,
    RustFn, RustParam, RustVariant, GenericArg, has_attr, has_terraffi_export, has_terraffi_ignore,
    names_std_option, derives_discriminant_enum, discriminant_name_of, has_discriminant_enum_derive,
    get_terraffi_discriminant_enum_name, RustItem, has_repr, is_no_mangle, is_repr_c,
    is_repr_transparent, has_no_mangle,
};
use crate::bitflags::{bf_error, bitflags_of};
use crate::items::CBitflags;
use crate::config::TerraffiConfig;
use crate::text::{owned, copy_string, str_eq, push_char};

verus! {

/// The export status that attributes and visibility give an item.
pub open spec fn status_of(attrs: Seq<RustAttr>, is_pub: bool) -> TerraffiExportStatus {
    if has_attr(attrs, "terraffi_ignore"@) {
        TerraffiExportStatus::ExplicitlyIgnored
    } else if has_attr(attrs, "terraffi_export"@) {
        TerraffiExportStatus::ExplicitlyExported
    } else if is_pub {
        TerraffiExportStatus::Public
    } else {
        TerraffiExportStatus::NotExported
    }
}

/// The export status of an item with attributes `attrs` (see [`status_of`]).
pub fn export_status_from_attrs(attrs: &[RustAttr], is_pub: bool) -> (r: TerraffiExportStatus)
    ensures
        r == status_of(attrs@, is_pub),
{
    if has_terraffi_ignore(attrs) {
        TerraffiExportStatus::ExplicitlyIgnored
    } else if has_terraffi_export(attrs) {
        TerraffiExportStatus::ExplicitlyExported
    } else if is_pub {
        TerraffiExportStatus::Public
    } else {
        TerraffiExportStatus::NotExported
    }
}

/// Whether `ty` converts to `void`.
pub open spec fn converts_void(ty: RustType) -> bool {
    exists|c: CType| converts_to(ty, c) && c is Void
}

/// Whether a type converts to `void` does not depend on which of its
/// conversions is looked at.
pub proof fn lemma_void_determined(ty: RustType, a: CType, b: CType)
    requires
        converts_to(ty, a),
        converts_to(ty, b),
    ensures
        (a is Void) == (b is Void),
    decreases ty,
{
    match ty {
        RustType::Path { segments } => {
            if segments@.len() > 0 {
                let last = segments@.last();
                let id = last.ident@;
                let args = match last.args {
                    Some(a) => a@,
                    None => Seq::<GenericArg>::empty(),
                };
                let has_args = last.args is Some;
                let k = first_type_index(args);
                let first_is_type = has_args && args.len() > 0 && args[0] is Type;
                lemma_first_type_index(args);
                if names_std_option(segment_idents(segments@)) && first_is_type {
                    match args[0] {
                        GenericArg::Type(inner) => {
                            assert(decreases_to!(segments => segments@));
                            assert(decreases_to!(segments@ => last));
                            assert(decreases_to!(last => last.args));
                            assert(decreases_to!(last.args => last.args->0));
                            assert(decreases_to!(last.args->0 => args));
                            assert(decreases_to!(args => args[0]));
                            if !(inner is Reference) {
                                lemma_void_determined(inner, a, b);
                            } else {
                                match inner {
                                    RustType::Reference { is_mut, elem } => {
                                        lemma_points_to_pointer(a, !is_mut, *elem);
                                        lemma_points_to_pointer(b, !is_mut, *elem);
                                    },
                                    _ => {},
                                }
                            }
                        },
                        _ => {},
                    }
                } else if id == "CHandle"@ && first_is_type {
                    assert(a is Pointer);
                    assert(b is Pointer);
                    assert((a is Void) == (b is Void));
                } else if has_args && k >= 0 && wrapper_kind(id) != 0 && wrapper_kind(id) != 5 {
                    match args[k] {
                        GenericArg::Type(inner) => {
                            assert(crate::ctype::wrapper_converts(id, inner, a));
                            assert(crate::ctype::wrapper_converts(id, inner, b));
                            let kind = wrapper_kind(id);
                            assert(kind == 2 ==> a is Slice && b is Slice);
                            assert(kind == 3 ==> a is Vec && b is Vec);
                            if kind == 1 {
                                lemma_points_to_pointer(a, id == "CArrayPtr"@ || id == "CArrayPtrRef"@, inner);
                                lemma_points_to_pointer(b, id == "CArrayPtr"@ || id == "CArrayPtrRef"@, inner);
                            } else if kind == 4 {
                                lemma_points_to_pointer(a, id == "RefPtr"@, inner);
                                lemma_points_to_pointer(b, id == "RefPtr"@, inner);
                            }
                        },
                        _ => {},
                    }
                } else if has_args && k >= 0 && wrapper_kind(id) == 5 {
                    match args[k] {
                        GenericArg::Type(inner) => {
                            assert(decreases_to!(segments => segments@));
                            assert(decreases_to!(segments@ => last));
                            assert(decreases_to!(last => last.args));
                            assert(decreases_to!(last.args => last.args->0));
                            assert(decreases_to!(last.args->0 => args));
                            assert(decreases_to!(args => args[k]));
                            assert(crate::ctype::wrapper_converts(id, inner, a));
                            assert(crate::ctype::wrapper_converts(id, inner, b));
                            lemma_void_determined(inner, a, b);
                        },
                        _ => {},
                    }
                } else {
                    assert(crate::ctype::ident_converts(id, a));
                    assert(crate::ctype::ident_converts(id, b));
                    assert((a is Void) == (b is Void));
                }
            } else {
                assert(a is Void && b is Void);
            }
        },
        RustType::BareFn { .. } => {
            assert(a is FnPointer && b is FnPointer);
        },
        RustType::Ptr { is_const, elem } => {
            lemma_points_to_pointer(a, is_const, *elem);
            lemma_points_to_pointer(b, is_const, *elem);
        },
        RustType::Reference { is_mut, elem } => {
            lemma_points_to_pointer(a, !is_mut, *elem);
            lemma_points_to_pointer(b, !is_mut, *elem);
        },
        _ => {},
    }
}

proof fn lemma_points_to_pointer(c: CType, is_const: bool, elem: RustType)
    requires
        points_to(c, is_const, elem),
    ensures
        c is Pointer,
{
}

/// Converts a type and tells whether it became `void`.
fn convert_type(ty: &RustType) -> (r: CType)
    ensures
        converts_to(*ty, r),
        (r is Void) == converts_void(*ty),
{
    let r = match CType::try_from(ty) {
        Ok(c) => c,
        Err(_) => CType::Void,
    };
    proof {
        if !(r is Void) {
            assert forall|c: CType| converts_to(*ty, c) implies !(c is Void) by {
                lemma_void_determined(*ty, r, c);
            }
        }
    }
    r
}

/// Copies a doc.
pub fn clone_doc(d: &CDoc) -> (r: CDoc)
    ensures
        doc_view(r) == doc_view(*d),
{
    let brief = match &d.brief {
        Some(b) => Some(copy_string(b)),
        None => None,
    };
    let description = match &d.description {
        Some(b) => Some(copy_string(b)),
        None => None,
    };
    CDoc { brief, description }
}

fn clone_opt(o: &Option<String>) -> (r: Option<String>)
    ensures
        opt_view(r) == opt_view(*o),
{
    match o {
        Some(s) => Some(copy_string(s)),
        None => None,
    }
}

/// The one field of a struct that has exactly one.
pub open spec fn single_field(fs: RustFields) -> Option<RustField> {
    match fs {
        RustFields::Named(v) => if v@.len() == 1 {
            Some(v@[0])
        } else {
            None
        },
        RustFields::Unnamed(v) => if v@.len() == 1 {
            Some(v@[0])
        } else {
            None
        },
        RustFields::Unit => None,
    }
}

/// Whether `t` is the typedef that an item named `name`, documented and
/// annotated by `attrs`, aliasing `ty`, at position `order` becomes.
pub open spec fn typedef_of(
    t: CTypedef,
    name: Seq<char>,
    attrs: Seq<RustAttr>,
    is_pub: bool,
    order: usize,
    ty: RustType,
) -> bool {
    &&& t.name@ == name
    &&& doc_view(t.doc) == attrs_doc(attrs)
    &&& t.export_status == status_of(attrs, is_pub)
    &&& t.source_order == order
    &&& t.inner_type matches Some(c) && converts_to(ty, c)
}

/// An opaque forward declaration of the item named `name`.
pub open spec fn opaque_of(t: CTypedef, name: Seq<char>, attrs: Seq<RustAttr>, is_pub: bool, order: usize) -> bool {
    &&& t.name@ == name
    &&& doc_view(t.doc) == attrs_doc(attrs)
    &&& t.export_status == status_of(attrs, is_pub)
    &&& t.source_order == order
    &&& t.inner_type is None
}

/// An opaque forward declaration of an item that C may only point to.
pub fn opaque_typedef(name: &String, attrs: &[RustAttr], is_pub: bool, source_order: usize) -> (r: CTypedef)
    ensures
        opaque_of(r, name@, attrs@, is_pub, source_order),
{
    CTypedef {
        name: copy_string(name),
        doc: CDoc::from_attrs(attrs),
        export_status: export_status_from_attrs(attrs, is_pub),
        source_order,
        inner_type: None,
    }
}

impl CTypedef {
    /// Creates a typedef from a `repr(transparent)` struct with a single field,
    /// unless that field's type becomes `void`.
    pub fn from_item(s: &RustStruct, source_order: usize) -> (r: Result<Option<CTypedef>, String>)
        ensures
            r matches Ok(o) && match single_field(s.fields) {
                None => o is None,
                Some(f) => if converts_void(f.ty) {
                    o is None
                } else {
                    o matches Some(t) && typedef_of(t, s.name@, s.attrs@, s.is_pub, source_order, f.ty)
                },
            },
    {
        let field = match &s.fields {
            RustFields::Named(v) => {
                if v.len() != 1 {
                    return Ok(None);
                }
                &v[0]
            },
            RustFields::Unnamed(v) => {
                if v.len() != 1 {
                    return Ok(None);
                }
                &v[0]
            },
            RustFields::Unit => {
                return Ok(None);
            },
        };
        let inner_type = convert_type(&field.ty);
        if matches!(inner_type, CType::Void) {
            return Ok(None);
        }
        Ok(
            Some(
                CTypedef {
                    name: copy_string(&s.name),
                    doc: CDoc::from_attrs(s.attrs.as_slice()),
                    export_status: export_status_from_attrs(s.attrs.as_slice(), s.is_pub),
                    source_order,
                    inner_type: Some(inner_type),
                },
            ),
        )
    }

    /// Creates a typedef from a `type Foo = Bar;` alias, unless the aliased
    /// type becomes `void`.
    pub fn from_type_alias(t: &RustTypeAlias, source_order: usize) -> (r: Result<Option<CTypedef>, String>)
        ensures
            r matches Ok(o) && if converts_void(t.ty) {
                o is None
            } else {
                o matches Some(d) && typedef_of(d, t.name@, t.attrs@, t.is_pub, source_order, t.ty)
            },
    {
        let inner_type = convert_type(&t.ty);
        if matches!(inner_type, CType::Void) {
            return Ok(None);
        }
        Ok(
            Some(
                CTypedef {
                    name: copy_string(&t.name),
                    doc: CDoc::from_attrs(t.attrs.as_slice()),
                    export_status: export_status_from_attrs(t.attrs.as_slice(), t.is_pub),
                    source_order,
                    inner_type: Some(inner_type),
                },
            ),
        )
    }
}

impl CConst {
    /// Creates a constant, unless its type becomes `void`; its value is the
    /// expression spelled in C.
    pub fn from_item(item: &RustConst, source_order: usize) -> (r: Result<Option<CConst>, String>)
        ensures
            r matches Ok(o) && if converts_void(item.ty) {
                o is None
            } else {
                o matches Some(c) && c.name@ == item.name@ && doc_view(c.doc) == attrs_doc(item.attrs@)
                    && c.export_status == status_of(item.attrs@, item.is_pub) && c.source_order
                    == source_order && converts_to(item.ty, c.ty) && c.value@ == tokens_c(item.value@)
            },
    {
        let ty = convert_type(&item.ty);
        if matches!(ty, CType::Void) {
            return Ok(None);
        }
        Ok(
            Some(
                CConst {
                    name: copy_string(&item.name),
                    doc: CDoc::from_attrs(item.attrs.as_slice()),
                    export_status: export_status_from_attrs(item.attrs.as_slice(), item.is_pub),
                    source_order,
                    ty,
                    value: rust_literal_tokens_to_c(item.value.as_slice()),
                },
            ),
        )
    }
}

/// Whether `c` is what the named field `f` becomes.
pub open spec fn field_of(c: CStructField, f: RustField) -> bool {
    &&& c.name@ == f.name@
    &&& doc_view(c.doc) == attrs_doc(f.attrs@)
    &&& converts_to(f.ty, c.ty)
}

/// Whether `cs` are what the named fields `fs` become, one for one.
pub open spec fn fields_of(cs: Seq<CStructField>, fs: Seq<RustField>) -> bool {
    cs.len() == fs.len() && forall|i: int| 0 <= i < fs.len() ==> field_of(#[trigger] cs[i], fs[i])
}

/// The name of the `i`th tuple field of a variant: `_0`, `_1`, ...
pub open spec fn tuple_field_name(i: nat) -> Seq<char> {
    "_"@ + dec_text(i)
}

/// `n` in decimal.
pub open spec fn dec_text(n: nat) -> Seq<char>
    decreases n,
{
    if n < 10 {
        seq![(('0' as nat) + n) as char]
    } else {
        dec_text(n / 10).push((('0' as nat) + n % 10) as char)
    }
}

/// `n` in decimal.
pub fn dec_string(n: usize) -> (r: String)
    ensures
        r@ == dec_text(n as nat),
{
    let v = dec_digits(n);
    crate::text::string_of(v.as_slice())
}

fn dec_digits(n: usize) -> (r: Vec<char>)
    ensures
        r@ == dec_text(n as nat),
    decreases n,
{
    let d = (n % 10) as u8;
    let c = (48u8 + d) as char;
    if n < 10 {
        let mut r: Vec<char> = Vec::new();
        r.push(c);
        assert(r@ =~= seq![(('0' as nat) + n) as char]);
        r
    } else {
        let mut r = dec_digits(n / 10);
        r.push(c);
        r
    }
}

/// Whether `cs` are what the tuple fields `fs` become: named by position.
pub open spec fn tuple_fields_of(cs: Seq<CStructField>, fs: Seq<RustField>) -> bool {
    cs.len() == fs.len() && forall|i: int|
        0 <= i < fs.len() ==> {
            &&& (#[trigger] cs[i]).name@ == tuple_field_name(i as nat)
            &&& doc_view(cs[i].doc) == attrs_doc(fs[i].attrs@)
            &&& converts_to(fs[i].ty, cs[i].ty)
        }
}

fn convert_fields(fs: &Vec<RustField>, positional: bool) -> (r: Vec<CStructField>)
    ensures
        !positional ==> fields_of(r@, fs@),
        positional ==> tuple_fields_of(r@, fs@),
{
    let mut out: Vec<CStructField> = Vec::new();
    let mut i: usize = 0;
    while i < fs.len()
        invariant
            i <= fs@.len(),
            out@.len() == i,
            !positional ==> forall|j: int| 0 <= j < i ==> field_of(#[trigger] out@[j], fs@[j]),
            positional ==> forall|j: int|
                0 <= j < i ==> {
                    &&& (#[trigger] out@[j]).name@ == tuple_field_name(j as nat)
                    &&& doc_view(out@[j].doc) == attrs_doc(fs@[j].attrs@)
                    &&& converts_to(fs@[j].ty, out@[j].ty)
                },
        decreases fs.len() - i,
    {
        let f = &fs[i];
        let name = if positional {
            let mut v = vec!['_'];
            let d = dec_digits(i);
            let mut k: usize = 0;
            while k < d.len()
                invariant
                    k <= d@.len(),
                    v@ == seq!['_'] + d@.subrange(0, k as int),
                decreases d.len() - k,
            {
                v.push(d[k]);
                k = k + 1;
                assert(v@ =~= seq!['_'] + d@.subrange(0, k as int));
            }
            assert(d@.subrange(0, d@.len() as int) =~= d@);
            proof {
                reveal_strlit("_");
            }
            crate::text::string_of(v.as_slice())
        } else {
            copy_string(&f.name)
        };
        let ty = convert_type(&f.ty);
        out.push(CStructField { name, doc: CDoc::from_attrs(f.attrs.as_slice()), ty });
        i = i + 1;
    }
    out
}

/// Whether `s` is what a `repr(C)` struct with named fields becomes.
pub open spec fn struct_of(s: CStruct, item: RustStruct, order: usize, fs: Seq<RustField>) -> bool {
    &&& s.name@ == item.name@
    &&& doc_view(s.doc) == attrs_doc(item.attrs@)
    &&& s.export_status == status_of(item.attrs@, item.is_pub)
    &&& s.source_order == order
    &&& fields_of(s.fields@, fs)
}

/// The message for a `repr(C)` struct with tuple fields.
pub open spec fn unnamed_fields_message(name: Seq<char>) -> Seq<char> {
    "Struct '"@ + name + "' has unnamed fields which are unsupported"@
}

impl CStruct {
    /// Creates a struct from a `repr(C)` struct item; tuple structs are refused.
    pub fn from_item(s: &RustStruct, source_order: usize) -> (r: Result<CStruct, String>)
        ensures
            match s.fields {
                RustFields::Named(fs) => r matches Ok(c) && struct_of(c, *s, source_order, fs@),
                RustFields::Unit => r matches Ok(c) && struct_of(c, *s, source_order, Seq::empty()),
                RustFields::Unnamed(_) => r matches Err(m) && m@ == unnamed_fields_message(s.name@),
            },
    {
        let fields = match &s.fields {
            RustFields::Named(fs) => convert_fields(fs, false),
            RustFields::Unit => Vec::new(),
            RustFields::Unnamed(_) => {
                let mut m = owned("Struct '");
                m.append(s.name.as_str());
                m.append("' has unnamed fields which are unsupported");
                return Err(m);
            },
        };
        Ok(
            CStruct {
                name: copy_string(&s.name),
                doc: CDoc::from_attrs(s.attrs.as_slice()),
                export_status: export_status_from_attrs(s.attrs.as_slice(), s.is_pub),
                source_order,
                fields,
            },
        )
    }
}

/// Whether `c` is what the enum variant `v` becomes as a C enum member.
pub open spec fn member_of(c: CEnumVariant, v: RustVariant) -> bool {
    &&& c.name@ == v.name@
    &&& doc_view(c.doc) == attrs_doc(v.attrs@)
    &&& opt_view(c.value) == opt_view(v.discriminant)
}

/// Whether `e` is what a field-less `repr(C)` enum becomes.
pub open spec fn enum_of(e: CEnum, item: RustEnum, order: usize) -> bool {
    &&& e.name@ == item.name@
    &&& doc_view(e.doc) == attrs_doc(item.attrs@)
    &&& e.export_status == status_of(item.attrs@, item.is_pub)
    &&& e.source_order == order
    &&& !e.is_synthesised_from_discriminated_union
    &&& e.variants@.len() == item.variants@.len()
    &&& forall|i: int| 0 <= i < item.variants@.len() ==> member_of(#[trigger] e.variants@[i], item.variants@[i])
}

impl CEnum {
    /// Creates a C enum from a `repr(C)` enum whose variants carry no data.
    pub fn from_item(e: &RustEnum, source_order: usize) -> (r: Result<CEnum, String>)
        ensures
            r matches Ok(c) && enum_of(c, *e, source_order),
    {
        let mut variants: Vec<CEnumVariant> = Vec::new();
        let mut i: usize = 0;
        while i < e.variants.len()
            invariant
                i <= e.variants@.len(),
                variants@.len() == i,
                forall|j: int| 0 <= j < i ==> member_of(#[trigger] variants@[j], e.variants@[j]),
            decreases e.variants.len() - i,
        {
            let v = &e.variants[i];
            variants.push(
                CEnumVariant {
                    name: copy_string(&v.name),
                    doc: CDoc::from_attrs(v.attrs.as_slice()),
                    value: clone_opt(&v.discriminant),
                },
            );
            i = i + 1;
        }
        Ok(
            CEnum {
                name: copy_string(&e.name),
                doc: CDoc::from_attrs(e.attrs.as_slice()),
                export_status: export_status_from_attrs(e.attrs.as_slice(), e.is_pub),
                source_order,
                variants,
                is_synthesised_from_discriminated_union: false,
            },
        )
    }
}

/// The doc of the parameter named `name`: the description of the first entry
/// of `docs` with that name.
pub open spec fn param_doc_for(docs: Seq<(Seq<char>, Seq<char>)>, name: Seq<char>) -> Option<Seq<char>>
    decreases docs.len(),
{
    if docs.len() == 0 {
        None
    } else if docs[0].0 == name {
        Some(docs[0].1)
    } else {
        param_doc_for(docs.drop_first(), name)
    }
}

/// The name a typed parameter is given: its binding, or `_`.
pub open spec fn param_name_of(name: Option<String>) -> Seq<char> {
    match name {
        Some(n) => n@,
        None => "_"@,
    }
}

/// Whether `p` is what the typed parameter `name: ty` becomes, given the
/// function's parameter docs.
pub open spec fn param_of(p: CFunctionParam, name: Option<String>, ty: RustType, docs: Seq<(Seq<char>, Seq<char>)>) -> bool {
    &&& p.name@ == param_name_of(name)
    &&& opt_view(p.doc) == param_doc_for(docs, param_name_of(name))
    &&& converts_to(ty, p.ty)
}

impl CFunctionParam {
    /// Creates a parameter; `self` is refused.
    pub fn from_item(arg: &RustParam, param_docs: &[CParamDoc]) -> (r: Result<CFunctionParam, String>)
        ensures
            *arg is Receiver ==> r is Err && r->Err_0@ == "Unsupported function argument 'self'"@,
            *arg matches RustParam::Typed { name, ty } ==> r matches Ok(p) && param_of(
                p,
                name,
                ty,
                crate::doc::param_docs_view(param_docs@),
            ),
    {
        match arg {
            RustParam::Receiver => {
                let m = owned("Unsupported function argument 'self'");
                assert(m@ == "Unsupported function argument 'self'"@);
                Err(m)
            },
            RustParam::Typed { name, ty } => {
                let param_name = match name {
                    Some(n) => copy_string(n),
                    None => owned("_"),
                };
                let ghost docs = crate::doc::param_docs_view(param_docs@);
                let mut doc: Option<String> = None;
                let mut i: usize = 0;
                assert(docs.subrange(0, docs.len() as int) =~= docs);
                while i < param_docs.len()
                    invariant_except_break
                        doc is None,
                    invariant
                        i <= param_docs@.len(),
                        docs == crate::doc::param_docs_view(param_docs@),
                        param_doc_for(docs, param_name@) == param_doc_for(
                            docs.subrange(i as int, docs.len() as int),
                            param_name@,
                        ),
                    ensures
                        opt_view(doc) == param_doc_for(docs, param_name@),
                    decreases param_docs.len() - i,
                {
                    let ghost rest = docs.subrange(i as int, docs.len() as int);
                    assert(rest.drop_first() =~= docs.subrange(i + 1, docs.len() as int));
                    assert(rest[0] == (param_docs@[i as int].name@, param_docs@[i as int].description@));
                    if str_eq(param_docs[i].name.as_str(), param_name.as_str()) {
                        doc = Some(copy_string(&param_docs[i].description));
                        break;
                    }
                    i = i + 1;
                }
                let t = convert_type(ty);
                Ok(CFunctionParam { name: param_name, doc, ty: t })
            },
        }
    }
}


/// The export status of a tagged union: deriving `DiscriminantEnum` exports it too.
pub open spec fn union_status_of(attrs: Seq<RustAttr>, is_pub: bool) -> TerraffiExportStatus {
    if has_attr(attrs, "terraffi_ignore"@) {
        TerraffiExportStatus::ExplicitlyIgnored
    } else if has_attr(attrs, "terraffi_export"@) || exists|i: int|
        0 <= i < attrs.len() && derives_discriminant_enum(#[trigger] attrs[i]) {
        TerraffiExportStatus::ExplicitlyExported
    } else if is_pub {
        TerraffiExportStatus::Public
    } else {
        TerraffiExportStatus::NotExported
    }
}

/// The name of a tagged union's tag enum: the one its `terraffi` attribute
/// gives, else its own name followed by the configured suffix.
pub open spec fn discriminant_name(e: RustEnum, cfg: &TerraffiConfig) -> Seq<char> {
    match discriminant_name_of(e.attrs@) {
        Some(n) => n,
        None => e.name@ + cfg.discriminated_union_tag_typename_suffix@,
    }
}

/// Whether `tv` is what the variant `v` becomes in a tagged union.
pub open spec fn tagged_variant_of(tv: CTaggedUnionVariant, v: RustVariant) -> bool {
    &&& tv.name@ == v.name@
    &&& doc_view(tv.doc) == attrs_doc(v.attrs@)
    &&& opt_view(tv.value) == opt_view(v.discriminant)
    &&& match v.fields {
        RustFields::Named(fs) => fields_of(tv.fields@, fs@),
        RustFields::Unnamed(fs) => tuple_fields_of(tv.fields@, fs@),
        RustFields::Unit => tv.fields@.len() == 0,
    }
}

/// Whether `(en, du)` is what a `repr(C)` enum with data becomes at position
/// `order`: its tag enum there, and the tagged union one position later.
pub open spec fn union_of(en: CEnum, du: CDiscriminatedUnion, e: RustEnum, order: usize, cfg: &TerraffiConfig) -> bool {
    let status = union_status_of(e.attrs@, e.is_pub);
    let disc = discriminant_name(e, cfg);
    &&& en.name@ == disc
    &&& doc_view(en.doc) == attrs_doc(e.attrs@)
    &&& en.export_status == status
    &&& en.source_order == order
    &&& en.is_synthesised_from_discriminated_union
    &&& en.variants@.len() == e.variants@.len()
    &&& forall|i: int| 0 <= i < e.variants@.len() ==> member_of(#[trigger] en.variants@[i], e.variants@[i])
    &&& du.name@ == e.name@
    &&& doc_view(du.doc) == attrs_doc(e.attrs@)
    &&& du.export_status == status
    &&& du.source_order == order + 1
    &&& du.discriminant_enum_name@ == disc
    &&& du.variants@.len() == e.variants@.len()
    &&& forall|i: int| 0 <= i < e.variants@.len() ==> tagged_variant_of(#[trigger] du.variants@[i], e.variants@[i])
}

impl CDiscriminatedUnion {
    /// Creates the tag enum and the tagged union for a `repr(C)` enum whose
    /// variants carry data; the enum takes position `source_order`, the union
    /// the next one.
    pub fn from_item(e: &RustEnum, source_order: &mut usize, config: &TerraffiConfig) -> (r: Result<(CEnum, CDiscriminatedUnion), String>)
        requires
            *old(source_order) < usize::MAX,
        ensures
            *final(source_order) == *old(source_order) + 1,
            r matches Ok((en, du)) && union_of(en, du, *e, *old(source_order), config),
    {
        let attrs = e.attrs.as_slice();
        let status = if has_terraffi_ignore(attrs) {
            TerraffiExportStatus::ExplicitlyIgnored
        } else if has_terraffi_export(attrs) || has_discriminant_enum_derive(attrs) {
            TerraffiExportStatus::ExplicitlyExported
        } else if e.is_pub {
            TerraffiExportStatus::Public
        } else {
            TerraffiExportStatus::NotExported
        };
        let mut variants: Vec<CTaggedUnionVariant> = Vec::new();
        let mut members: Vec<CEnumVariant> = Vec::new();
        let mut i: usize = 0;
        while i < e.variants.len()
            invariant
                i <= e.variants@.len(),
                variants@.len() == i,
                members@.len() == i,
                forall|j: int| 0 <= j < i ==> tagged_variant_of(#[trigger] variants@[j], e.variants@[j]),
                forall|j: int| 0 <= j < i ==> member_of(#[trigger] members@[j], e.variants@[j]),
            decreases e.variants.len() - i,
        {
            let v = &e.variants[i];
            let fields = match &v.fields {
                RustFields::Named(fs) => convert_fields(fs, false),
                RustFields::Unnamed(fs) => convert_fields(fs, true),
                RustFields::Unit => Vec::new(),
            };
            let doc = CDoc::from_attrs(v.attrs.as_slice());
            members.push(CEnumVariant { name: copy_string(&v.name), doc: clone_doc(&doc), value: clone_opt(&v.discriminant) });
            variants.push(CTaggedUnionVariant { name: copy_string(&v.name), doc, value: clone_opt(&v.discriminant), fields });
            i = i + 1;
        }
        let discriminant_enum_name = match get_terraffi_discriminant_enum_name(attrs) {
            Some(explicit) => explicit,
            None => {
                let mut n = copy_string(&e.name);
                n.append(config.discriminated_union_tag_typename_suffix.as_str());
                n
            },
        };
        let doc = CDoc::from_attrs(attrs);
        let en = CEnum {
            name: copy_string(&discriminant_enum_name),
            doc: clone_doc(&doc),
            export_status: status,
            source_order: *source_order,
            variants: members,
            is_synthesised_from_discriminated_union: true,
        };
        *source_order = *source_order + 1;
        let du = CDiscriminatedUnion {
            name: copy_string(&e.name),
            doc,
            export_status: status,
            source_order: *source_order,
            discriminant_enum_name,
            variants,
        };
        Ok((en, du))
    }
}

/// Whether `c` is what the function `f` becomes at position `order`, its
/// parameters documented from its `# Parameters` section.
pub open spec fn function_of(c: CFunction, f: RustFn, order: usize) -> bool {
    let docs = attrs_fn_doc(f.attrs@).2;
    &&& c.name@ == f.name@
    &&& fn_doc_view(c.doc) == attrs_fn_doc(f.attrs@)
    &&& c.export_status == status_of(f.attrs@, f.is_pub)
    &&& c.source_order == order
    &&& c.params@.len() == f.params@.len()
    &&& forall|i: int|
        0 <= i < f.params@.len() ==> ((#[trigger] f.params@[i]) matches RustParam::Typed { name, ty }
            && param_of(c.params@[i], name, ty, docs))
    &&& match f.output {
        None => c.return_type is Void,
        Some(t) => converts_to(t, c.return_type),
    }
}

/// Whether some parameter of `f` is `self`.
pub open spec fn has_receiver(f: RustFn) -> bool {
    exists|i: int| 0 <= i < f.params@.len() && (#[trigger] f.params@[i]) is Receiver
}

impl CFunction {
    /// Creates a function; a method taking `self` is refused.
    pub fn from_item(func: &RustFn, source_order: usize) -> (r: Result<CFunction, String>)
        ensures
            has_receiver(*func) ==> r is Err && r->Err_0@ == "Unsupported function argument 'self'"@,
            !has_receiver(*func) ==> (r matches Ok(c) && function_of(c, *func, source_order)),
    {
        let doc = CFunctionDoc::from_attrs(func.attrs.as_slice());
        let ghost docs = attrs_fn_doc(func.attrs@).2;
        assert(crate::doc::param_docs_view(doc.params@) == docs);
        let mut params: Vec<CFunctionParam> = Vec::new();
        let mut i: usize = 0;
        while i < func.params.len()
            invariant
                i <= func.params@.len(),
                params@.len() == i,
                crate::doc::param_docs_view(doc.params@) == docs,
                forall|j: int|
                    0 <= j < i ==> ((#[trigger] func.params@[j]) matches RustParam::Typed { name, ty }
                        && param_of(params@[j], name, ty, docs)),
            decreases func.params.len() - i,
        {
            match CFunctionParam::from_item(&func.params[i], doc.params.as_slice()) {
                Ok(p) => params.push(p),
                Err(e) => {
                    return Err(e);
                },
            }
            i = i + 1;
        }
        let return_type = match &func.output {
            None => CType::Void,
            Some(t) => convert_type(t),
        };
        Ok(
            CFunction {
                name: copy_string(&func.name),
                doc,
                export_status: export_status_from_attrs(func.attrs.as_slice(), func.is_pub),
                source_order,
                params,
                return_type,
            },
        )
    }
}

/// Whether `f` is a `pub extern "C"` function with `#[no_mangle]`, the only
/// kind that is exported.
pub open spec fn fn_exportable(f: RustFn) -> bool {
    &&& f.abi matches Some(a) && a@ == "C"@
    &&& exists|i: int| 0 <= i < f.attrs@.len() && is_no_mangle(#[trigger] f.attrs@[i])
    &&& f.is_pub
}

/// Whether some variant of `e` carries data.
pub open spec fn has_data_variants(e: RustEnum) -> bool {
    exists|i: int| 0 <= i < e.variants@.len() && !((#[trigger] e.variants@[i]).fields is Unit)
}

/// Why an item cannot be converted, if it cannot.
pub open spec fn item_error(item: RustItem) -> Option<Seq<char>> {
    match item {
        RustItem::Fn(f) => if fn_exportable(f) && has_receiver(f) {
            Some("Unsupported function argument 'self'"@)
        } else {
            None
        },
        RustItem::Struct(s) => if has_repr(s.attrs@, "C"@) && s.fields is Unnamed {
            Some(unnamed_fields_message(s.name@))
        } else {
            None
        },
        RustItem::Macro(m) => if m.path_ident matches Some(p) && p@ == "bitflags"@ {
            bf_error(m.tokens@)
        } else {
            None
        },
        _ => None,
    }
}

/// Whether `v` are the declarations a convertible item becomes at `order`.
pub open spec fn items_from(item: RustItem, order: usize, cfg: &TerraffiConfig, v: Seq<CItem>) -> bool {
    match item {
        RustItem::Fn(f) => if fn_exportable(f) {
            v.len() == 1 && (v[0] matches CItem::Function(c) && function_of(c, f, order))
        } else {
            v.len() == 0
        },
        RustItem::Struct(s) => if has_repr(s.attrs@, "C"@) {
            v.len() == 1 && (v[0] matches CItem::Struct(c) && struct_of(
                c,
                s,
                order,
                match s.fields {
                    RustFields::Named(fs) => fs@,
                    _ => Seq::empty(),
                },
            ))
        } else if has_repr(s.attrs@, "transparent"@) {
            match single_field(s.fields) {
                Some(f) => if converts_void(f.ty) {
                    v.len() == 0
                } else {
                    v.len() == 1 && (v[0] matches CItem::Typedef(t) && typedef_of(
                        t,
                        s.name@,
                        s.attrs@,
                        s.is_pub,
                        order,
                        f.ty,
                    ))
                },
                None => v.len() == 0,
            }
        } else {
            v.len() == 1 && (v[0] matches CItem::Typedef(t) && opaque_of(t, s.name@, s.attrs@, s.is_pub, order))
        },
        RustItem::Enum(e) => if has_repr(e.attrs@, "C"@) {
            if has_data_variants(e) {
                v.len() == 2 && (v[0] matches CItem::Enum(en) && (v[1] matches CItem::DiscriminatedUnion(du)
                    && union_of(en, du, e, order, cfg)))
            } else {
                v.len() == 1 && (v[0] matches CItem::Enum(c) && enum_of(c, e, order))
            }
        } else {
            v.len() == 1 && (v[0] matches CItem::Typedef(t) && opaque_of(t, e.name@, e.attrs@, e.is_pub, order))
        },
        RustItem::TypeAlias(t) => if converts_void(t.ty) {
            v.len() == 0
        } else {
            v.len() == 1 && (v[0] matches CItem::Typedef(d) && typedef_of(d, t.name@, t.attrs@, t.is_pub, order, t.ty))
        },
        RustItem::Macro(m) => if m.path_ident matches Some(p) && p@ == "bitflags"@ {
            v.len() == 1 && (v[0] matches CItem::Bitflags(b) && bitflags_of(b, m.tokens@, order))
        } else {
            v.len() == 0
        },
        RustItem::Const(c) => if converts_void(c.ty) {
            v.len() == 0
        } else {
            v.len() == 1 && (v[0] matches CItem::Const(k) && const_of(k, c, order))
        },
        _ => v.len() == 0,
    }
}

/// Whether `k` is what the constant `c` becomes at `order`.
pub open spec fn const_of(k: CConst, c: RustConst, order: usize) -> bool {
    &&& k.name@ == c.name@
    &&& doc_view(k.doc) == attrs_doc(c.attrs@)
    &&& k.export_status == status_of(c.attrs@, c.is_pub)
    &&& k.source_order == order
    &&& converts_to(c.ty, k.ty)
    &&& k.value@ == tokens_c(c.value@)
}

/// Whether an item takes two source positions: a tagged union takes one for
/// its tag enum and one for itself.
pub open spec fn takes_extra_position(item: RustItem) -> bool {
    item matches RustItem::Enum(e) && has_repr(e.attrs@, "C"@) && has_data_variants(e)
}

impl CItem {
    /// Converts a Rust item into the C declarations it becomes (see
    /// [`items_from`]), or the reason it cannot be (see [`item_error`]).
    pub fn from_item(item: &RustItem, source_order: &mut usize, config: &TerraffiConfig) -> (r: Result<Vec<CItem>, String>)
        requires
            *old(source_order) < usize::MAX,
        ensures
            *final(source_order) == *old(source_order) + if takes_extra_position(*item) {
                1usize
            } else {
                0usize
            },
            match item_error(*item) {
                Some(m) => r is Err && r->Err_0@ == m,
                None => r matches Ok(v) && items_from(*item, *old(source_order), config, v@),
            },
    {
        let order = *source_order;
        match item {
            RustItem::Fn(func) => {
                let is_extern_c = match &func.abi {
                    Some(a) => str_eq(a.as_str(), "C"),
                    None => false,
                };
                if !is_extern_c || !has_no_mangle(func.attrs.as_slice()) || !func.is_pub {
                    return Ok(Vec::new());
                }
                match CFunction::from_item(func, order) {
                    Ok(f) => Ok(vec![CItem::Function(f)]),
                    Err(e) => Err(e),
                }
            },
            RustItem::Struct(st) => {
                if is_repr_c(st.attrs.as_slice()) {
                    match CStruct::from_item(st, order) {
                        Ok(cs) => Ok(vec![CItem::Struct(cs)]),
                        Err(e) => Err(e),
                    }
                } else if is_repr_transparent(st.attrs.as_slice()) {
                    match CTypedef::from_item(st, order) {
                        Ok(Some(td)) => Ok(vec![CItem::Typedef(td)]),
                        Ok(None) => Ok(Vec::new()),
                        Err(e) => Err(e),
                    }
                } else {
                    Ok(vec![CItem::Typedef(opaque_typedef(&st.name, st.attrs.as_slice(), st.is_pub, order))])
                }
            },
            RustItem::Enum(e) => {
                if is_repr_c(e.attrs.as_slice()) {
                    let mut has_data = false;
                    let mut i: usize = 0;
                    while i < e.variants.len()
                        invariant
                            i <= e.variants@.len(),
                            has_data == exists|j: int| 0 <= j < i && !((#[trigger] e.variants@[j]).fields is Unit),
                        decreases e.variants.len() - i,
                    {
                        if !matches!(e.variants[i].fields, RustFields::Unit) {
                            assert(!(e.variants@[i as int].fields is Unit));
                            has_data = true;
                        }
                        i = i + 1;
                    }
                    if has_data {
                        match CDiscriminatedUnion::from_item(e, source_order, config) {
                            Ok((en, du)) => Ok(vec![CItem::Enum(en), CItem::DiscriminatedUnion(du)]),
                            Err(m) => Err(m),
                        }
                    } else {
                        match CEnum::from_item(e, order) {
                            Ok(ce) => Ok(vec![CItem::Enum(ce)]),
                            Err(m) => Err(m),
                        }
                    }
                } else {
                    Ok(vec![CItem::Typedef(opaque_typedef(&e.name, e.attrs.as_slice(), e.is_pub, order))])
                }
            },
            RustItem::TypeAlias(t) => match CTypedef::from_type_alias(t, order) {
                Ok(Some(td)) => Ok(vec![CItem::Typedef(td)]),
                Ok(None) => Ok(Vec::new()),
                Err(e) => Err(e),
            },
            RustItem::Macro(m) => {
                let is_bitflags = match &m.path_ident {
                    Some(p) => str_eq(p.as_str(), "bitflags"),
                    None => false,
                };
                if is_bitflags {
                    match CBitflags::from_item(m, order) {
                        Ok(bf) => Ok(vec![CItem::Bitflags(bf)]),
                        Err(e) => Err(e),
                    }
                } else {
                    Ok(Vec::new())
                }
            },
            RustItem::Const(c) => match CConst::from_item(c, order) {
                Ok(Some(cc)) => Ok(vec![CItem::Const(cc)]),
                Ok(None) => Ok(Vec::new()),
                Err(e) => Err(e),
            },
            _ => Ok(Vec::new()),
        }
    }
}
} // verus!
