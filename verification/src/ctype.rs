//! C types and how they are spelled in a header.

use vstd::prelude::*;
use crate::config::{TerraffiConfig, is_declared, type_name_of, bare_type_name_of, name_set, insert_name, contains_name};
use crate::text::{owned, str_eq, chars_of, string_of};
use crate::syntax::{RustType, RustPathSegment, GenericArg, names_std_option};

verus! {

/// A C type as it appears in a declaration.
#[derive(Debug)]
pub enum CType {
    Void,
    Float,
    Double,
    Int8,
    Int16,
    Int32,
    Int64,
    ISize,
    UInt8,
    UInt16,
    UInt32,
    UInt64,
    USize,
    Bool,
    Char,
    Pointer { is_const: bool, inner: Box<CType> },
    Slice { is_const: bool, inner: Box<CType> },
    Vec { is_const: bool, inner: Box<CType> },
    Array { size: String, inner: Box<CType> },
    FnPointer { return_type: Box<CType>, params: Vec<CType> },
    Named(String),
}

/// The C spelling of a primitive type, if `t` is one.
pub open spec fn primitive_name(t: CType) -> Option<Seq<char>> {
    match t {
        CType::Void => Some("void"@),
        CType::Float => Some("float"@),
        CType::Double => Some("double"@),
        CType::Int8 => Some("int8_t"@),
        CType::Int16 => Some("int16_t"@),
        CType::Int32 => Some("int32_t"@),
        CType::Int64 => Some("int64_t"@),
        CType::ISize => Some("ptrdiff_t"@),
        CType::UInt8 => Some("uint8_t"@),
        CType::UInt16 => Some("uint16_t"@),
        CType::UInt32 => Some("uint32_t"@),
        CType::UInt64 => Some("uint64_t"@),
        CType::USize => Some("size_t"@),
        CType::Bool => Some("bool"@),
        CType::Char => Some("char"@),
        _ => None,
    }
}

/// How a reference to the named type is spelled: by its typedef once that is
/// declared, else through its struct tag, which doubles as a forward declaration.
pub open spec fn named_ref(cfg: &TerraffiConfig, raw: Seq<char>) -> Seq<char> {
    if is_declared(cfg, raw) {
        type_name_of(cfg, raw)
    } else {
        "struct "@ + bare_type_name_of(cfg, raw)
    }
}

/// The C spelling of `t` without a declarator name.
pub open spec fn type_text(t: CType, cfg: &TerraffiConfig) -> Seq<char>
    decreases t, 1nat,
{
    match t {
        CType::Array { inner, .. } => type_text(*inner, cfg) + "*"@,
        CType::Named(n) => named_ref(cfg, n@),
        CType::Pointer { is_const, inner } => {
            let base = type_text(*inner, cfg);
            if is_const {
                if *inner is Pointer {
                    base + " const*"@
                } else {
                    "const "@ + base + "*"@
                }
            } else {
                base + "*"@
            }
        },
        CType::Slice { is_const, inner } => {
            let base = type_text(*inner, cfg);
            if is_const {
                "const "@ + base + "*"@
            } else {
                base + "*"@
            }
        },
        CType::Vec { is_const, inner } => {
            let base = type_text(*inner, cfg);
            if is_const {
                "const "@ + base + "*"@
            } else {
                base + "*"@
            }
        },
        CType::FnPointer { return_type, params } => type_text(*return_type, cfg) + " (*)("@
            + params_text(params@, cfg) + ")"@,
        _ => primitive_name(t).unwrap(),
    }
}

/// A parameter list: `void` when empty, else the types joined by `, `.
pub open spec fn params_text(ps: Seq<CType>, cfg: &TerraffiConfig) -> Seq<char>
    decreases ps, 1nat,
{
    if ps.len() == 0 {
        "void"@
    } else {
        joined_types(ps, cfg)
    }
}

/// The types of `ps`, joined by `, `.
pub open spec fn joined_types(ps: Seq<CType>, cfg: &TerraffiConfig) -> Seq<char>
    decreases ps, 0nat,
{
    if ps.len() == 0 {
        Seq::empty()
    } else if ps.len() == 1 {
        type_text(ps[0], cfg)
    } else {
        joined_types(ps.drop_last(), cfg) + ", "@ + type_text(ps.last(), cfg)
    }
}

/// A declaration of `name` with type `t`.
pub open spec fn named_decl_text(t: CType, name: Seq<char>, cfg: &TerraffiConfig) -> Seq<char> {
    match t {
        CType::FnPointer { return_type, params } => type_text(*return_type, cfg) + " (*"@ + name
            + ")("@ + params_text(params@, cfg) + ")"@,
        CType::Array { size, inner } => type_text(*inner, cfg) + " "@ + name + "["@ + size@
            + "]"@,
        _ => type_text(t, cfg) + " "@ + name,
    }
}

/// The names of all types `t` mentions.
pub open spec fn referenced_names(t: CType) -> Set<Seq<char>>
    decreases t, 1nat,
{
    match t {
        CType::Named(n) => set![n@],
        CType::Pointer { inner, .. } => referenced_names(*inner),
        CType::Slice { inner, .. } => referenced_names(*inner),
        CType::Vec { inner, .. } => referenced_names(*inner),
        CType::Array { inner, .. } => referenced_names(*inner),
        CType::FnPointer { return_type, params } => referenced_names(*return_type).union(
            referenced_names_all(params@),
        ),
        _ => Set::empty(),
    }
}

/// The names of all types the types of `ps` mention.
pub open spec fn referenced_names_all(ps: Seq<CType>) -> Set<Seq<char>>
    decreases ps, 0nat,
{
    if ps.len() == 0 {
        Set::empty()
    } else {
        referenced_names_all(ps.drop_last()).union(referenced_names(ps.last()))
    }
}

fn prim(s: &str) -> (r: String)
    ensures
        r@ == s@,
{
    owned(s)
}

impl CType {
    /// Formats the type without a declarator name. Arrays decay to pointers here.
    pub fn format(&self, terraffi_config: &TerraffiConfig) -> (r: String)
        ensures
            r@ == type_text(*self, terraffi_config),
        decreases self,
    {
        match self {
            CType::Void => prim("void"),
            CType::Float => prim("float"),
            CType::Double => prim("double"),
            CType::Int8 => prim("int8_t"),
            CType::Int16 => prim("int16_t"),
            CType::Int32 => prim("int32_t"),
            CType::Int64 => prim("int64_t"),
            CType::ISize => prim("ptrdiff_t"),
            CType::UInt8 => prim("uint8_t"),
            CType::UInt16 => prim("uint16_t"),
            CType::UInt32 => prim("uint32_t"),
            CType::UInt64 => prim("uint64_t"),
            CType::USize => prim("size_t"),
            CType::Bool => prim("bool"),
            CType::Char => prim("char"),
            CType::Array { inner, .. } => {
                let mut s = inner.format(terraffi_config);
                s.append("*");
                s
            },
            CType::Named(name) => format_named_ref(terraffi_config, name.as_str()),
            CType::Pointer { is_const, inner } => {
                let base = inner.format(terraffi_config);
                if *is_const {
                    if matches!(**inner, CType::Pointer { .. }) {
                        let mut s = base;
                        s.append(" const*");
                        s
                    } else {
                        let mut s = prim("const ");
                        s.append(base.as_str());
                        s.append("*");
                        s
                    }
                } else {
                    let mut s = base;
                    s.append("*");
                    s
                }
            },
            CType::Slice { is_const, inner } => {
                let base = inner.format(terraffi_config);
                if *is_const {
                    let mut s = prim("const ");
                    s.append(base.as_str());
                    s.append("*");
                    s
                } else {
                    let mut s = base;
                    s.append("*");
                    s
                }
            },
            CType::Vec { is_const, inner } => {
                let base = inner.format(terraffi_config);
                if *is_const {
                    let mut s = prim("const ");
                    s.append(base.as_str());
                    s.append("*");
                    s
                } else {
                    let mut s = base;
                    s.append("*");
                    s
                }
            },
            CType::FnPointer { return_type, params } => {
                let mut s = return_type.format(terraffi_config);
                s.append(" (*)(");
                let p = format_params(self, params, terraffi_config);
                s.append(p.as_str());
                s.append(")");
                s
            },
        }
    }

    /// Formats a declaration of `name` with this type: `type name`, except
    /// `ret (*name)(params)` for function pointers and `inner name[size]` for arrays.
    pub fn format_named(&self, name: &str, config: &TerraffiConfig) -> (r: String)
        ensures
            r@ == named_decl_text(*self, name@, config),
    {
        match self {
            CType::FnPointer { return_type, params } => {
                let mut s = return_type.format(config);
                s.append(" (*");
                s.append(name);
                s.append(")(");
                let p = format_params(self, params, config);
                s.append(p.as_str());
                s.append(")");
                s
            },
            CType::Array { size, inner } => {
                let mut s = inner.format(config);
                s.append(" ");
                s.append(name);
                s.append("[");
                s.append(size.as_str());
                s.append("]");
                s
            },
            _ => {
                let mut s = self.format(config);
                s.append(" ");
                s.append(name);
                s
            },
        }
    }

    /// Adds the names of all types this type mentions to `names`.
    pub fn collect_referenced_type_names(&self, names: &mut Vec<String>)
        ensures
            name_set(final(names)@) == name_set(old(names)@).union(referenced_names(*self)),
        decreases self,
    {
        match self {
            CType::Named(name) => {
                insert_name(names, name.as_str());
                assert(name_set(names@) =~= name_set(old(names)@).union(
                    referenced_names(*self),
                ));
            },
            CType::Pointer { inner, .. } | CType::Slice { inner, .. } | CType::Vec {
                inner,
                ..
            } | CType::Array { inner, .. } => {
                inner.collect_referenced_type_names(names);
            },
            CType::FnPointer { return_type, params } => {
                return_type.collect_referenced_type_names(names);
                let mut i: usize = 0;
                while i < params.len()
                    invariant
                        *self matches CType::FnPointer { params: p, .. } && p == *params,
                        i <= params@.len(),
                        name_set(names@) == name_set(old(names)@).union(
                            referenced_names(**return_type),
                        ).union(referenced_names_all(params@.subrange(0, i as int))),
                    decreases params.len() - i,
                {
                    proof {
                        assert(decreases_to!(*params => params@));
                        assert(decreases_to!(params@ => params@[i as int]));
                    }
                    params[i].collect_referenced_type_names(names);
                    assert(params@.subrange(0, i + 1).drop_last() =~= params@.subrange(
                        0,
                        i as int,
                    ));
                    assert(name_set(names@) =~= name_set(old(names)@).union(
                        referenced_names(**return_type),
                    ).union(referenced_names_all(params@.subrange(0, i + 1))));
                    i = i + 1;
                }
                assert(params@.subrange(0, params@.len() as int) =~= params@);
                assert(name_set(names@) =~= name_set(old(names)@).union(referenced_names(*self)));
            },
            _ => {
                assert(name_set(names@) =~= name_set(old(names)@).union(referenced_names(*self)));
            },
        }
    }
}

/// Spells a reference to the named type (see [`named_ref`]).
pub fn format_named_ref(cfg: &TerraffiConfig, raw: &str) -> (r: String)
    ensures
        r@ == named_ref(cfg, raw@),
{
    if contains_name(&cfg.declared_types, raw) || contains_name(&cfg.assumed_declared, raw) {
        cfg.format_type_name(raw)
    } else {
        let mut s = owned("struct ");
        let b = cfg.format_type_name_bare(raw);
        s.append(b.as_str());
        s
    }
}

/// Formats the parameter list of the function pointer `owner`.
fn format_params(owner: &CType, params: &Vec<CType>, cfg: &TerraffiConfig) -> (r: String)
    requires
        owner matches CType::FnPointer { params: p, .. } && p == *params,
    ensures
        r@ == params_text(params@, cfg),
    decreases owner, 0nat,
{
    if params.len() == 0 {
        return prim("void");
    }
    let mut s = String::new();
    let mut i: usize = 0;
    while i < params.len()
        invariant
            owner matches CType::FnPointer { params: p, .. } && p == *params,
            0 < params@.len(),
            i <= params@.len(),
            s@ == joined_types(params@.subrange(0, i as int), cfg),
        decreases params.len() - i,
    {
        proof {
            assert(decreases_to!(*params => params@));
            assert(decreases_to!(params@ => params@[i as int]));
        }
        let t = params[i].format(cfg);
        let ghost pre = params@.subrange(0, i + 1);
        assert(pre.drop_last() =~= params@.subrange(0, i as int));
        if i > 0 {
            s.append(", ");
        }
        s.append(t.as_str());
        i = i + 1;
        assert(i == 1 ==> pre =~= seq![params@[0]]);
    }
    assert(params@.subrange(0, params@.len() as int) =~= params@);
    s
}


/// What a type named by a bare identifier converts to: a primitive, a string
/// pointer, the shared string buffer, or else the named type itself.
pub open spec fn ident_converts(id: Seq<char>, c: CType) -> bool {
    if id == "f32"@ {
        c is Float
    } else if id == "f64"@ {
        c is Double
    } else if id == "i8"@ {
        c is Int8
    } else if id == "i16"@ {
        c is Int16
    } else if id == "i32"@ {
        c is Int32
    } else if id == "i64"@ {
        c is Int64
    } else if id == "isize"@ {
        c is ISize
    } else if id == "u8"@ {
        c is UInt8
    } else if id == "u16"@ {
        c is UInt16
    } else if id == "u32"@ {
        c is UInt32
    } else if id == "u64"@ {
        c is UInt64
    } else if id == "usize"@ {
        c is USize
    } else if id == "bool"@ {
        c is Bool
    } else if id == "c_void"@ {
        c is Void
    } else if id == "c_char"@ {
        c is Char
    } else if id == "CStringPtr"@ || id == "CStringPtrRef"@ {
        c matches CType::Pointer { is_const, inner } && is_const && *inner is Char
    } else if id == "CStringPtrMut"@ || id == "CStringPtrMutRef"@ {
        c matches CType::Pointer { is_const, inner } && !is_const && *inner is Char
    } else if id == "CStringBufferRef"@ {
        c matches CType::Named(n) && n@ == "CStringBuffer"@
    } else {
        c matches CType::Named(n) && n@ == id
    }
}

/// The kind of a scalar value: how its bits are read.
pub enum ScalarKind {
    /// An IEEE 754 binary floating-point number.
    Float,
    /// A two's-complement signed integer.
    Signed,
    /// An unsigned integer.
    Unsigned,
    /// A truth value.
    Boolean,
}

/// The layout of the Rust primitive scalar type written `id`, for the
/// scalars that have a standard C counterpart: its kind and its size in
/// bytes. The integer and `bool` sizes are those vstd states for the Rust
/// types; `f32` and `f64` are IEEE binary32 and binary64.
pub open spec fn rust_scalar_layout(id: Seq<char>) -> Option<(ScalarKind, nat)> {
    if id == "f32"@ {
        Some((ScalarKind::Float, 4))
    } else if id == "f64"@ {
        Some((ScalarKind::Float, 8))
    } else if id == "i8"@ {
        Some((ScalarKind::Signed, vstd::layout::size_of::<i8>()))
    } else if id == "i16"@ {
        Some((ScalarKind::Signed, vstd::layout::size_of::<i16>()))
    } else if id == "i32"@ {
        Some((ScalarKind::Signed, vstd::layout::size_of::<i32>()))
    } else if id == "i64"@ {
        Some((ScalarKind::Signed, vstd::layout::size_of::<i64>()))
    } else if id == "isize"@ {
        Some((ScalarKind::Signed, vstd::layout::size_of::<isize>()))
    } else if id == "u8"@ {
        Some((ScalarKind::Unsigned, vstd::layout::size_of::<u8>()))
    } else if id == "u16"@ {
        Some((ScalarKind::Unsigned, vstd::layout::size_of::<u16>()))
    } else if id == "u32"@ {
        Some((ScalarKind::Unsigned, vstd::layout::size_of::<u32>()))
    } else if id == "u64"@ {
        Some((ScalarKind::Unsigned, vstd::layout::size_of::<u64>()))
    } else if id == "usize"@ {
        Some((ScalarKind::Unsigned, vstd::layout::size_of::<usize>()))
    } else if id == "bool"@ {
        Some((ScalarKind::Boolean, vstd::layout::size_of::<bool>()))
    } else {
        None
    }
}

/// Whether a layout is that of an integer, signed or unsigned.
pub open spec fn is_integer_layout(l: Option<(ScalarKind, nat)>) -> bool {
    match l {
        Some((k, _)) => k is Signed || k is Unsigned,
        None => false,
    }
}

/// The layout of a C scalar type: its kind and its size in bytes. The
/// exact-width `intN_t` and `uintN_t` hold N bits; `ptrdiff_t` and `size_t`
/// are pointer-sized, as Rust's `isize` and `usize` are; `float` and
/// `double` are IEEE binary32 and binary64; C's `bool` takes one byte.
pub open spec fn c_scalar_layout(c: CType) -> Option<(ScalarKind, nat)> {
    match c {
        CType::Float => Some((ScalarKind::Float, 4)),
        CType::Double => Some((ScalarKind::Float, 8)),
        CType::Int8 => Some((ScalarKind::Signed, 1)),
        CType::Int16 => Some((ScalarKind::Signed, 2)),
        CType::Int32 => Some((ScalarKind::Signed, 4)),
        CType::Int64 => Some((ScalarKind::Signed, 8)),
        CType::ISize => Some((ScalarKind::Signed, vstd::layout::size_of::<isize>())),
        CType::UInt8 => Some((ScalarKind::Unsigned, 1)),
        CType::UInt16 => Some((ScalarKind::Unsigned, 2)),
        CType::UInt32 => Some((ScalarKind::Unsigned, 4)),
        CType::UInt64 => Some((ScalarKind::Unsigned, 8)),
        CType::USize => Some((ScalarKind::Unsigned, vstd::layout::size_of::<usize>())),
        CType::Bool => Some((ScalarKind::Boolean, 1)),
        _ => None,
    }
}

/// The layout of the C scalar type a header spells `name`, by the C
/// standard's names (see [`c_scalar_layout`]).
pub open spec fn c_spelled_layout(name: Seq<char>) -> Option<(ScalarKind, nat)> {
    if name == "float"@ {
        Some((ScalarKind::Float, 4))
    } else if name == "double"@ {
        Some((ScalarKind::Float, 8))
    } else if name == "int8_t"@ {
        Some((ScalarKind::Signed, 1))
    } else if name == "int16_t"@ {
        Some((ScalarKind::Signed, 2))
    } else if name == "int32_t"@ {
        Some((ScalarKind::Signed, 4))
    } else if name == "int64_t"@ {
        Some((ScalarKind::Signed, 8))
    } else if name == "ptrdiff_t"@ {
        Some((ScalarKind::Signed, vstd::layout::size_of::<isize>()))
    } else if name == "uint8_t"@ {
        Some((ScalarKind::Unsigned, 1))
    } else if name == "uint16_t"@ {
        Some((ScalarKind::Unsigned, 2))
    } else if name == "uint32_t"@ {
        Some((ScalarKind::Unsigned, 4))
    } else if name == "uint64_t"@ {
        Some((ScalarKind::Unsigned, 8))
    } else if name == "size_t"@ {
        Some((ScalarKind::Unsigned, vstd::layout::size_of::<usize>()))
    } else if name == "bool"@ {
        Some((ScalarKind::Boolean, 1))
    } else {
        None
    }
}

/// A Rust scalar converts to a C scalar of the same kind and size: the
/// value keeps its bits across the boundary (`f64` is `double`, `u64` is
/// `uint64_t`, and so on).
pub proof fn lemma_scalar_keeps_layout(id: Seq<char>, c: CType)
    requires
        ident_converts(id, c),
        rust_scalar_layout(id) is Some,
    ensures
        c_scalar_layout(c) == rust_scalar_layout(id),
{
    broadcast use vstd::layout::layout_of_primitives;
    reveal_strlit("f32");
    reveal_strlit("f64");
    reveal_strlit("i8");
    reveal_strlit("i16");
    reveal_strlit("i32");
    reveal_strlit("i64");
    reveal_strlit("isize");
    reveal_strlit("u8");
    reveal_strlit("u16");
    reveal_strlit("u32");
    reveal_strlit("u64");
    reveal_strlit("usize");
    reveal_strlit("bool");
    reveal_strlit("c_void");
    reveal_strlit("c_char");
    reveal_strlit("CStringPtr");
    reveal_strlit("CStringPtrRef");
    reveal_strlit("CStringPtrMut");
    reveal_strlit("CStringPtrMutRef");
    reveal_strlit("CStringBufferRef");
}

/// The header spells each C scalar by the standard name of a type of that
/// scalar's kind and size.
pub proof fn lemma_scalar_spelling(c: CType, cfg: &TerraffiConfig)
    requires
        c_scalar_layout(c) is Some,
    ensures
        c_spelled_layout(type_text(c, cfg)) === c_scalar_layout(c),
{
    reveal_strlit("float");
    reveal_strlit("double");
    reveal_strlit("int8_t");
    reveal_strlit("int16_t");
    reveal_strlit("int32_t");
    reveal_strlit("int64_t");
    reveal_strlit("ptrdiff_t");
    reveal_strlit("uint8_t");
    reveal_strlit("uint16_t");
    reveal_strlit("uint32_t");
    reveal_strlit("uint64_t");
    reveal_strlit("size_t");
    reveal_strlit("bool");
    assert("int8_t"@[0] != "double"@[0]);
    assert("size_t"@[0] != "double"@[0] && "size_t"@[0] != "int8_t"@[0]);
    assert("int32_t"@[3] != "int16_t"@[3]);
    assert("int64_t"@[3] != "int16_t"@[3] && "int64_t"@[3] != "int32_t"@[3]);
    assert("uint8_t"@[0] != "int16_t"@[0] && "uint8_t"@[0] != "int32_t"@[0] && "uint8_t"@[0] != "int64_t"@[0]);
    assert("uint32_t"@[4] != "uint16_t"@[4]);
    assert("uint64_t"@[4] != "uint16_t"@[4] && "uint64_t"@[4] != "uint32_t"@[4]);
    match c {
        CType::Float => {
            assert(type_text(c, cfg) == "float"@);
            assert(c_spelled_layout("float"@) == Some((ScalarKind::Float, 4nat)));
            assert(c_scalar_layout(c) == Some((ScalarKind::Float, 4nat)));
            assert(c_spelled_layout(type_text(c, cfg)) == c_scalar_layout(c));
        },
        CType::Double => {
            assert(c_spelled_layout(type_text(c, cfg)) == c_scalar_layout(c));
        },
        CType::Int8 => {
            assert(c_spelled_layout(type_text(c, cfg)) == c_scalar_layout(c));
        },
        CType::Int16 => {
            assert(c_spelled_layout(type_text(c, cfg)) == c_scalar_layout(c));
        },
        CType::Int32 => {
            assert(c_spelled_layout(type_text(c, cfg)) == c_scalar_layout(c));
        },
        CType::Int64 => {
            assert(c_spelled_layout(type_text(c, cfg)) == c_scalar_layout(c));
        },
        CType::ISize => {
            assert(type_text(c, cfg) == "ptrdiff_t"@);
            assert("ptrdiff_t"@ != "float"@);
            assert("ptrdiff_t"@ != "double"@);
            assert("ptrdiff_t"@ != "int8_t"@);
            assert("ptrdiff_t"@ != "int16_t"@);
            assert("ptrdiff_t"@ != "int32_t"@);
            assert("ptrdiff_t"@ != "int64_t"@);
            assert(c_spelled_layout("ptrdiff_t"@) == Some((ScalarKind::Signed, vstd::layout::size_of::<isize>())));
            assert(c_spelled_layout(type_text(c, cfg)) == c_scalar_layout(c));
        },
        CType::UInt8 => {
            assert(c_spelled_layout(type_text(c, cfg)) == c_scalar_layout(c));
        },
        CType::UInt16 => {
            assert(c_spelled_layout(type_text(c, cfg)) == c_scalar_layout(c));
        },
        CType::UInt32 => {
            assert(c_spelled_layout(type_text(c, cfg)) == c_scalar_layout(c));
        },
        CType::UInt64 => {
            assert(c_spelled_layout(type_text(c, cfg)) == c_scalar_layout(c));
        },
        CType::USize => {
            assert(c_spelled_layout(type_text(c, cfg)) == c_scalar_layout(c));
        },
        CType::Bool => {
            assert(type_text(c, cfg) == "bool"@);
            assert("bool"@ != "float"@);
            assert("bool"@ != "double"@);
            assert("bool"@ != "int8_t"@);
            assert("bool"@ != "int16_t"@);
            assert("bool"@ != "int32_t"@);
            assert("bool"@ != "int64_t"@);
            assert("bool"@ != "ptrdiff_t"@);
            assert("bool"@ != "uint8_t"@);
            assert("bool"@ != "uint16_t"@);
            assert("bool"@ != "uint32_t"@);
            assert("bool"@ != "uint64_t"@);
            assert("bool"@ != "size_t"@);
            assert(c_spelled_layout(type_text(c, cfg)) == c_scalar_layout(c));
        },
        _ => {},
    }
}

/// How a pointer is spelled from what it points to: a pointer to mutable
/// data adds `*`; a pointer to const data puts `const` before a pointee that
/// is not itself a pointer (`const T*`), and after one that is
/// (`T* const*`), so the `const` always binds the pointee and never the
/// innermost type.
pub proof fn lemma_pointer_spelling(is_const: bool, inner: CType, cfg: &TerraffiConfig)
    ensures
        type_text(CType::Pointer { is_const, inner: Box::new(inner) }, cfg) == if !is_const {
            type_text(inner, cfg) + "*"@
        } else if inner is Pointer {
            type_text(inner, cfg) + " const*"@
        } else {
            "const "@ + type_text(inner, cfg) + "*"@
        },
{
}

/// A const pointer to a mutable pointer to `t` is spelled `t* const*`: the
/// `const` binds the pointer it points to, never `t`.
pub proof fn lemma_const_pointer_to_pointer(t: CType, cfg: &TerraffiConfig)
    ensures
        type_text(
            CType::Pointer {
                is_const: true,
                inner: Box::new(CType::Pointer { is_const: false, inner: Box::new(t) }),
            },
            cfg,
        ) == type_text(t, cfg) + "* const*"@,
{
    reveal_strlit("*");
    reveal_strlit(" const*");
    reveal_strlit("* const*");
    let q = CType::Pointer { is_const: false, inner: Box::new(t) };
    assert(type_text(q, cfg) == type_text(t, cfg) + "*"@);
    assert(type_text(t, cfg) + "*"@ + " const*"@ =~= type_text(t, cfg) + "* const*"@);
}

/// The position of the first type among `args`, or `-1`.
pub open spec fn first_type_index(args: Seq<GenericArg>) -> int
    decreases args.len(),
{
    if args.len() == 0 {
        -1
    } else if args[0] is Type {
        0
    } else {
        let k = first_type_index(args.drop_first());
        if k < 0 {
            -1
        } else {
            k + 1
        }
    }
}

/// Where the first type argument sits, when there is one.
pub proof fn lemma_first_type_index(args: Seq<GenericArg>)
    ensures
        -1 <= first_type_index(args) < args.len(),
        first_type_index(args) >= 0 ==> args[first_type_index(args)] is Type,
        first_type_index(args) < 0 ==> forall|i: int| 0 <= i < args.len() ==> !(#[trigger] args[i] is Type),
    decreases args.len(),
{
    if args.len() > 0 && !(args[0] is Type) {
        lemma_first_type_index(args.drop_first());
        assert forall|i: int| 1 <= i < args.len() implies args[i] == args.drop_first()[i - 1] by {}
    }
}

/// The identifiers of a path's segments.
pub open spec fn segment_idents(segs: Seq<RustPathSegment>) -> Seq<Seq<char>> {
    segs.map_values(|s: RustPathSegment| s.ident@)
}

/// `s` with its spaces removed.
pub open spec fn no_spaces(s: Seq<char>) -> Seq<char>
    decreases s.len(),
{
    if s.len() == 0 {
        s
    } else if s.last() == ' ' {
        no_spaces(s.drop_last())
    } else {
        no_spaces(s.drop_last()).push(s.last())
    }
}

/// Whether `ptr` is a pointer of the given constness to a type `elem` converts to.
pub open spec fn points_to(ptr: CType, is_const: bool, elem: RustType) -> bool
    decreases elem, 2nat,
{
    ptr matches CType::Pointer { is_const: k, inner } && k == is_const && converts_to(elem, *inner)
}

/// How a Rust type converts to a C type.
///
/// Pointers and references become pointers, `Option` of a reference a
/// nullable pointer and `Option<T>` otherwise what `T` becomes; the interop
/// handle, array, slice and vector wrappers, `Box`, `BoxPtr`, `RefPtr` and
/// `MutRefPtr` become pointers, slices and vectors of their first type
/// argument; `ManuallyDrop<T>` is `T`; arrays keep their length; function
/// pointers convert part by part; tuples and unknown forms become `void`;
/// anything else is named by the last segment of its path.
pub open spec fn converts_to(ty: RustType, c: CType) -> bool
    decreases ty, 1nat,
{
    match ty {
        RustType::BareFn { inputs, output } => match c {
            CType::FnPointer { return_type, params } => {
                &&& match output {
                    None => *return_type is Void,
                    Some(o) => converts_to(*o, *return_type),
                }
                &&& params@.len() == inputs@.len()
                &&& forall|i: int| 0 <= i < inputs@.len() ==> converts_to(#[trigger] inputs@[i], params@[i])
            },
            _ => false,
        },
        RustType::Ptr { is_const, elem } => points_to(c, is_const, *elem),
        RustType::Reference { is_mut, elem } => points_to(c, !is_mut, *elem),
        RustType::Array { elem, len } => match c {
            CType::Array { size, inner } => size@ == no_spaces(len@) && converts_to(*elem, *inner),
            _ => false,
        },
        RustType::Other => c is Void,
        RustType::Path { segments } => {
            if segments@.len() == 0 {
                c is Void
            } else {
                let last = segments@.last();
                let id = last.ident@;
                let args = match last.args {
                    Some(a) => a@,
                    None => Seq::<GenericArg>::empty(),
                };
                let has_args = last.args is Some;
                let k = first_type_index(args);
                let first_is_type = has_args && args.len() > 0 && args[0] is Type;
                if names_std_option(segment_idents(segments@)) && first_is_type {
                    match args[0] {
                        GenericArg::Type(inner) => match inner {
                            RustType::Reference { is_mut, elem } => points_to(c, !is_mut, *elem),
                            _ => converts_to(inner, c),
                        },
                        _ => false,
                    }
                } else if id == "CHandle"@ && first_is_type {
                    match args[0] {
                        GenericArg::Type(inner) => match c {
                            CType::Pointer { is_const, inner: mid } => !is_const && points_to(
                                *mid,
                                false,
                                inner,
                            ),
                            _ => false,
                        },
                        _ => false,
                    }
                } else if has_args && k >= 0 && wrapper_kind(id) != 0 {
                    proof {
                        lemma_first_type_index(args);
                    }
                    match args[k] {
                        GenericArg::Type(inner) => wrapper_converts(id, inner, c),
                        _ => false,
                    }
                } else {
                    ident_converts(id, c)
                }
            }
        },
    }
}

/// Which family of wrapper types `id` names: 1 for array pointers, 2 for
/// slices, 3 for vectors, 4 for owning and borrowing pointers, 5 for
/// `ManuallyDrop`, 0 for none.
pub open spec fn wrapper_kind(id: Seq<char>) -> int {
    if id == "CArrayPtr"@ || id == "CArrayPtrMut"@ || id == "CArrayPtrRef"@ || id == "CArrayPtrMutRef"@ {
        1
    } else if id == "CSlice"@ || id == "CSliceRef"@ || id == "CSliceMutRef"@ {
        2
    } else if id == "CVec"@ || id == "CVecRef"@ || id == "CVecMutRef"@ {
        3
    } else if id == "Box"@ || id == "BoxPtr"@ || id == "RefPtr"@ || id == "MutRefPtr"@ {
        4
    } else if id == "ManuallyDrop"@ {
        5
    } else {
        0
    }
}

/// Whether a wrapper of kind [`wrapper_kind`] named `id` around `inner`
/// converts to `c`.
pub open spec fn wrapper_converts(id: Seq<char>, inner: RustType, c: CType) -> bool
    decreases inner, 3nat,
{
    let kind = wrapper_kind(id);
    if kind == 1 {
        points_to(c, id == "CArrayPtr"@ || id == "CArrayPtrRef"@, inner)
    } else if kind == 2 {
        c matches CType::Slice { is_const, inner: e } && is_const == (id == "CSliceRef"@)
            && converts_to(inner, *e)
    } else if kind == 3 {
        c matches CType::Vec { is_const, inner: e } && is_const == (id == "CVecRef"@) && converts_to(
            inner,
            *e,
        )
    } else if kind == 4 {
        points_to(c, id == "RefPtr"@, inner)
    } else {
        converts_to(inner, c)
    }
}


fn named(s: &str) -> (r: CType)
    ensures
        r matches CType::Named(n) && n@ == s@,
{
    CType::Named(owned(s))
}

fn char_pointer(is_const: bool) -> (r: CType)
    ensures
        r matches CType::Pointer { is_const: k, inner } && k == is_const && *inner is Char,
{
    CType::Pointer { is_const, inner: Box::new(CType::Char) }
}

/// Whether a type path names `Option` from `std` or `core`.
pub fn is_std_option(segments: &Vec<RustPathSegment>) -> (r: bool)
    ensures
        r == names_std_option(segment_idents(segments@)),
{
    let ghost ids = segment_idents(segments@);
    let n = segments.len();
    if n == 0 || n > 3 {
        return false;
    }
    if !str_eq(segments[n - 1].ident.as_str(), "Option") {
        return false;
    }
    if n == 1 {
        return true;
    }
    let first = segments[0].ident.as_str();
    let std_or_core = str_eq(first, "std") || str_eq(first, "core");
    if n == 2 {
        return std_or_core;
    }
    std_or_core && str_eq(segments[1].ident.as_str(), "option")
}

/// The position of the first type argument among `args`.
fn first_type_arg(args: &Vec<GenericArg>) -> (r: Option<usize>)
    ensures
        match r {
            Some(k) => k == first_type_index(args@),
            None => first_type_index(args@) == -1,
        },
{
    proof {
        lemma_first_type_index(args@);
    }
    let mut i: usize = 0;
    while i < args.len()
        invariant
            i <= args@.len(),
            forall|j: int| 0 <= j < i ==> !(#[trigger] args@[j] is Type),
        decreases args.len() - i,
    {
        if let GenericArg::Type(_) = &args[i] {
            proof {
                lemma_first_type_index_at(args@, i as int);
            }
            return Some(i);
        }
        i = i + 1;
    }
    proof {
        if first_type_index(args@) >= 0 {
            assert(args@[first_type_index(args@)] is Type);
        }
    }
    None
}

/// The first type argument is the first position holding a type.
pub proof fn lemma_first_type_index_at(args: Seq<GenericArg>, i: int)
    requires
        0 <= i < args.len(),
        args[i] is Type,
        forall|j: int| 0 <= j < i ==> !(#[trigger] args[j] is Type),
    ensures
        first_type_index(args) == i,
    decreases i,
{
    if i > 0 {
        assert forall|j: int| 0 <= j < i - 1 implies !(#[trigger] args.drop_first()[j] is Type) by {
            assert(args.drop_first()[j] == args[j + 1]);
        }
        lemma_first_type_index_at(args.drop_first(), i - 1);
    }
}

fn remove_spaces(s: &str) -> (r: String)
    ensures
        r@ == no_spaces(s@),
{
    let v = chars_of(s);
    let mut out: Vec<char> = Vec::new();
    let mut i: usize = 0;
    while i < v.len()
        invariant
            i <= v@.len(),
            v@ == s@,
            out@ == no_spaces(v@.subrange(0, i as int)),
        decreases v.len() - i,
    {
        assert(v@.subrange(0, i + 1).drop_last() =~= v@.subrange(0, i as int));
        if v[i] != ' ' {
            out.push(v[i]);
        }
        i = i + 1;
    }
    assert(v@.subrange(0, v@.len() as int) =~= v@);
    string_of(out.as_slice())
}

fn wrapper_family(id: &str) -> (k: u8)
    ensures
        k as int == wrapper_kind(id@),
{
    if str_eq(id, "CArrayPtr") || str_eq(id, "CArrayPtrMut") || str_eq(id, "CArrayPtrRef") || str_eq(
        id,
        "CArrayPtrMutRef",
    ) {
        1
    } else if str_eq(id, "CSlice") || str_eq(id, "CSliceRef") || str_eq(id, "CSliceMutRef") {
        2
    } else if str_eq(id, "CVec") || str_eq(id, "CVecRef") || str_eq(id, "CVecMutRef") {
        3
    } else if str_eq(id, "Box") || str_eq(id, "BoxPtr") || str_eq(id, "RefPtr") || str_eq(
        id,
        "MutRefPtr",
    ) {
        4
    } else if str_eq(id, "ManuallyDrop") {
        5
    } else {
        0
    }
}

impl CType {
    /// The C type for a type named by a bare identifier.
    pub fn from_str(s: &str) -> (r: Result<CType, String>)
        ensures
            r matches Ok(c) && ident_converts(s@, c),
    {
        let c = if str_eq(s, "f32") {
            CType::Float
        } else if str_eq(s, "f64") {
            CType::Double
        } else if str_eq(s, "i8") {
            CType::Int8
        } else if str_eq(s, "i16") {
            CType::Int16
        } else if str_eq(s, "i32") {
            CType::Int32
        } else if str_eq(s, "i64") {
            CType::Int64
        } else if str_eq(s, "isize") {
            CType::ISize
        } else if str_eq(s, "u8") {
            CType::UInt8
        } else if str_eq(s, "u16") {
            CType::UInt16
        } else if str_eq(s, "u32") {
            CType::UInt32
        } else if str_eq(s, "u64") {
            CType::UInt64
        } else if str_eq(s, "usize") {
            CType::USize
        } else if str_eq(s, "bool") {
            CType::Bool
        } else if str_eq(s, "c_void") {
            CType::Void
        } else if str_eq(s, "c_char") {
            CType::Char
        } else if str_eq(s, "CStringPtr") || str_eq(s, "CStringPtrRef") {
            char_pointer(true)
        } else if str_eq(s, "CStringPtrMut") || str_eq(s, "CStringPtrMutRef") {
            char_pointer(false)
        } else if str_eq(s, "CStringBufferRef") {
            named("CStringBuffer")
        } else {
            named(s)
        };
        Ok(c)
    }

    /// Converts a Rust type to the C type that represents it (see [`converts_to`]).
    pub fn try_from(value: &RustType) -> (r: Result<CType, String>)
        ensures
            r matches Ok(c) && converts_to(*value, c),
        decreases value,
    {
        match value {
            RustType::BareFn { inputs, output } => {
                let return_type = match output {
                    None => CType::Void,
                    Some(o) => {
                        let Ok(t) = CType::try_from(o) else { return Err(String::new()) };
                        t
                    },
                };
                let mut params: Vec<CType> = Vec::new();
                let mut i: usize = 0;
                while i < inputs.len()
                    invariant
                        *value matches RustType::BareFn { inputs: ins, .. } && ins == *inputs,
                        i <= inputs@.len(),
                        params@.len() == i,
                        forall|j: int| 0 <= j < i ==> converts_to(#[trigger] inputs@[j], params@[j]),
                    decreases inputs.len() - i,
                {
                    proof {
                        assert(decreases_to!(*inputs => inputs@));
                        assert(decreases_to!(inputs@ => inputs@[i as int]));
                    }
                    let Ok(t) = CType::try_from(&inputs[i]) else { return Err(String::new()) };
                    params.push(t);
                    i = i + 1;
                }
                let c = CType::FnPointer { return_type: Box::new(return_type), params };
                assert(converts_to(*value, c));
                Ok(c)
            },
            RustType::Ptr { is_const, elem } => {
                let Ok(inner) = CType::try_from(elem) else { return Err(String::new()) };
                let c = CType::Pointer { is_const: *is_const, inner: Box::new(inner) };
                assert(points_to(c, *is_const, **elem));
                Ok(c)
            },
            RustType::Reference { is_mut, elem } => {
                let Ok(inner) = CType::try_from(elem) else { return Err(String::new()) };
                let c = CType::Pointer { is_const: !*is_mut, inner: Box::new(inner) };
                assert(points_to(c, !*is_mut, **elem));
                Ok(c)
            },
            RustType::Array { elem, len } => {
                let Ok(inner) = CType::try_from(elem) else { return Err(String::new()) };
                Ok(CType::Array { size: remove_spaces(len.as_str()), inner: Box::new(inner) })
            },
            RustType::Other => Ok(CType::Void),
            RustType::Path { segments } => {
                if segments.len() == 0 {
                    return Ok(CType::Void);
                }
                let last = &segments[segments.len() - 1];
                proof {
                    assert(decreases_to!(*segments => segments@));
                    assert(decreases_to!(segments@ => segments@[segments@.len() - 1]));
                }
                if let Some(args) = &last.args {
                    proof {
                        assert(decreases_to!(segments@[segments@.len() - 1] => last.args));
                        assert(decreases_to!(last.args => *args));
                        assert(decreases_to!(*args => args@));
                    }
                    let id = last.ident.as_str();
                    if args.len() > 0 {
                        if let GenericArg::Type(inner) = &args[0] {
                            proof {
                                assert(decreases_to!(args@ => args@[0]));
                            }
                            if is_std_option(segments) {
                                if let RustType::Reference { is_mut, elem } = inner {
                                    let Ok(t) = CType::try_from(elem) else { return Err(String::new()) };
                                    let c = CType::Pointer { is_const: !*is_mut, inner: Box::new(t) };
                                    assert(points_to(c, !*is_mut, **elem));
                                    return Ok(c);
                                }
                                return CType::try_from(inner);
                            }
                            if str_eq(id, "CHandle") {
                                let Ok(t) = CType::try_from(inner) else { return Err(String::new()) };
                                let mid = CType::Pointer { is_const: false, inner: Box::new(t) };
                                assert(points_to(mid, false, *inner));
                                return Ok(CType::Pointer { is_const: false, inner: Box::new(mid) });
                            }
                        }
                    }
                    let kind = wrapper_family(id);
                    if kind != 0 {
                        if let Some(k) = first_type_arg(args) {
                            proof {
                                lemma_first_type_index(args@);
                                assert(decreases_to!(args@ => args@[k as int]));
                            }
                            if let GenericArg::Type(inner) = &args[k] {
                                let Ok(t) = CType::try_from(inner) else { return Err(String::new()) };
                                let c = if kind == 1 {
                                    CType::Pointer {
                                        is_const: str_eq(id, "CArrayPtr") || str_eq(id, "CArrayPtrRef"),
                                        inner: Box::new(t),
                                    }
                                } else if kind == 2 {
                                    CType::Slice { is_const: str_eq(id, "CSliceRef"), inner: Box::new(t) }
                                } else if kind == 3 {
                                    CType::Vec { is_const: str_eq(id, "CVecRef"), inner: Box::new(t) }
                                } else if kind == 4 {
                                    CType::Pointer { is_const: str_eq(id, "RefPtr"), inner: Box::new(t) }
                                } else {
                                    t
                                };
                                assert(wrapper_converts(id@, *inner, c));
                                return Ok(c);
                            }
                        }
                    }
                }
                CType::from_str(last.ident.as_str())
            },
        }
    }
}
} // verus!
