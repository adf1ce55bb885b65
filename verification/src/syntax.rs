//! The parts of Rust source that header generation reads: items, types,
//! attributes and macro tokens, held as plain values.

use vstd::prelude::*;
use crate::text::{owned, str_eq};

verus! {

/// The delimiter of a token group.
#[derive(Debug, Clone, Copy, PartialEq, Eq, Structural)]
pub enum RustDelimiter {
    /// `( ... )`
    Parenthesis,
    /// `{ ... }`
    Brace,
    /// `[ ... ]`
    Bracket,
    /// An invisible group.
    Invisible,
}

/// The shape of an attribute or of one entry of an attribute's argument list.
#[derive(Debug, Clone, Copy, PartialEq, Eq, Structural)]
pub enum MetaKind {
    /// `#[name]`
    Path,
    /// `#[name(...)]`
    List,
    /// `#[name = value]`
    NameValue,
}

/// One entry of an attribute's argument list, such as `C` in `#[repr(C)]`.
#[derive(Debug, Clone)]
pub struct MetaItem {
    /// The entry's path when it is a single plain identifier.
    pub path_ident: Option<String>,
    /// Its shape.
    pub kind: MetaKind,
    /// For `name = "text"`, the string's value.
    pub str_value: Option<String>,
}

/// An outer attribute, `#[...]`.
#[derive(Debug)]
pub struct RustAttr {
    /// The attribute's path when it is a single plain identifier.
    pub path_ident: Option<String>,
    /// Its shape.
    pub kind: MetaKind,
    /// For `#[name = "text"]`, the string's value.
    pub str_value: Option<String>,
    /// For `#[name(...)]`, the tokens between the parentheses.
    pub tokens: Vec<RustToken>,
    /// For `#[name(...)]`, the arguments read as a comma-separated list of
    /// entries, when they read as one.
    pub nested: Option<Vec<MetaItem>>,
    /// For `#[name(...)]`, the arguments read as exactly one entry, when they do.
    pub single: Option<MetaItem>,
}

/// A token of a macro body or an attribute's arguments.
#[derive(Debug)]
pub enum RustToken {
    /// An identifier or keyword.
    Ident(String),
    /// A punctuation character.
    Punct(char),
    /// A literal, as written.
    Literal(String),
    /// A delimited group; `text` is how the group prints, and `attr` is what
    /// its contents read as an attribute's meta, where they read as one (for a
    /// bracket group after `#`, the attribute it declares).
    Group { delimiter: RustDelimiter, text: String, tokens: Vec<RustToken>, attr: Option<RustAttr> },
}

/// The text a token prints as.
pub open spec fn token_text(t: RustToken) -> Seq<char> {
    match t {
        RustToken::Ident(s) => s@,
        RustToken::Punct(c) => seq![c],
        RustToken::Literal(s) => s@,
        RustToken::Group { text, .. } => text@,
    }
}

/// Whether `a` is the attribute `#[name...]`.
pub open spec fn attr_named(a: RustAttr, name: Seq<char>) -> bool {
    a.path_ident matches Some(p) && p@ == name
}

/// Whether some attribute of `attrs` is named `name`.
pub open spec fn has_attr(attrs: Seq<RustAttr>, name: Seq<char>) -> bool {
    exists|i: int| 0 <= i < attrs.len() && attr_named(#[trigger] attrs[i], name)
}

/// Whether the argument entry `m` is the plain identifier path `name`.
pub open spec fn meta_named(m: MetaItem, name: Seq<char>) -> bool {
    m.path_ident matches Some(p) && p@ == name
}

/// Whether `a` is `#[repr(...)]` with an argument named `arg`.
pub open spec fn repr_has(a: RustAttr, arg: Seq<char>) -> bool {
    &&& attr_named(a, "repr"@)
    &&& a.nested is Some
    &&& exists|j: int|
        0 <= j < a.nested.unwrap()@.len() && meta_named(#[trigger] a.nested.unwrap()@[j], arg)
}

/// Whether some attribute of `attrs` is `#[repr(...)]` with an argument `arg`.
pub open spec fn has_repr(attrs: Seq<RustAttr>, arg: Seq<char>) -> bool {
    exists|i: int| 0 <= i < attrs.len() && repr_has(#[trigger] attrs[i], arg)
}

/// Whether `a` is `#[no_mangle]` or `#[unsafe(no_mangle)]`.
pub open spec fn is_no_mangle(a: RustAttr) -> bool {
    attr_named(a, "no_mangle"@) || (attr_named(a, "unsafe"@) && a.kind == MetaKind::List
        && a.single is Some && meta_named(a.single.unwrap(), "no_mangle"@))
}

/// Whether `t` is the identifier `name`.
pub open spec fn is_ident_token(t: RustToken, name: Seq<char>) -> bool {
    match t {
        RustToken::Ident(s) => s@ == name,
        _ => false,
    }
}

/// Whether `a` is a `#[derive(...)]` naming `DiscriminantEnum`.
pub open spec fn derives_discriminant_enum(a: RustAttr) -> bool {
    attr_named(a, "derive"@) && a.kind == MetaKind::List && exists|j: int|
        0 <= j < a.tokens@.len() && is_ident_token(#[trigger] a.tokens@[j], "DiscriminantEnum"@)
}

/// The string that a `discriminant_enum_name = "..."` entry of `ms` gives, first one first.
pub open spec fn discriminant_name_in(ms: Seq<MetaItem>) -> Option<Seq<char>>
    decreases ms.len(),
{
    if ms.len() == 0 {
        None
    } else if ms[0].kind == MetaKind::NameValue && meta_named(ms[0], "discriminant_enum_name"@)
        && ms[0].str_value is Some {
        Some(ms[0].str_value.unwrap()@)
    } else {
        discriminant_name_in(ms.drop_first())
    }
}

/// The name that `#[terraffi(discriminant_enum_name = "...")]` gives, first one first.
pub open spec fn discriminant_name_of(attrs: Seq<RustAttr>) -> Option<Seq<char>>
    decreases attrs.len(),
{
    if attrs.len() == 0 {
        None
    } else {
        let a = attrs[0];
        let here = if attr_named(a, "terraffi"@) && a.kind == MetaKind::List && a.nested is Some {
            discriminant_name_in(a.nested.unwrap()@)
        } else {
            None
        };
        if here is Some {
            here
        } else {
            discriminant_name_of(attrs.drop_first())
        }
    }
}

fn attr_is(a: &RustAttr, name: &str) -> (r: bool)
    ensures
        r == attr_named(*a, name@),
{
    match &a.path_ident {
        Some(p) => str_eq(p.as_str(), name),
        None => false,
    }
}

fn meta_is(m: &MetaItem, name: &str) -> (r: bool)
    ensures
        r == meta_named(*m, name@),
{
    match &m.path_ident {
        Some(p) => str_eq(p.as_str(), name),
        None => false,
    }
}

fn any_attr_named(attrs: &[RustAttr], name: &str) -> (r: bool)
    ensures
        r == has_attr(attrs@, name@),
{
    let mut i: usize = 0;
    while i < attrs.len()
        invariant
            i <= attrs@.len(),
            forall|j: int| 0 <= j < i ==> !attr_named(#[trigger] attrs@[j], name@),
        decreases attrs.len() - i,
    {
        if attr_is(&attrs[i], name) {
            return true;
        }
        i = i + 1;
    }
    false
}

/// Returns true if any attribute in the list is `#[terraffi_export]`.
pub fn has_terraffi_export(attrs: &[RustAttr]) -> (r: bool)
    ensures
        r == has_attr(attrs@, "terraffi_export"@),
{
    any_attr_named(attrs, "terraffi_export")
}

/// Returns true if any attribute in the list is `#[terraffi_ignore]`.
pub fn has_terraffi_ignore(attrs: &[RustAttr]) -> (r: bool)
    ensures
        r == has_attr(attrs@, "terraffi_ignore"@),
{
    any_attr_named(attrs, "terraffi_ignore")
}

#[verifier::loop_isolation(false)]
fn any_repr(attrs: &[RustAttr], arg: &str) -> (r: bool)
    ensures
        r == has_repr(attrs@, arg@),
{
    let mut i: usize = 0;
    while i < attrs.len()
        invariant
            i <= attrs@.len(),
            forall|j: int| 0 <= j < i ==> !repr_has(#[trigger] attrs@[j], arg@),
        decreases attrs.len() - i,
    {
        let a = &attrs[i];
        if attr_is(a, "repr") {
            if let Some(ms) = &a.nested {
                let mut k: usize = 0;
                while k < ms.len()
                    invariant
                        k <= ms@.len(),
                        forall|j: int| 0 <= j < k ==> !meta_named(#[trigger] ms@[j], arg@),
                    decreases ms.len() - k,
                {
                    if meta_is(&ms[k], arg) {
                        assert(repr_has(attrs@[i as int], arg@));
                        return true;
                    }
                    k = k + 1;
                }
            }
        }
        i = i + 1;
    }
    false
}

/// Returns true if the attribute list contains `#[repr(C)]`, including
/// combined forms like `#[repr(C, u32)]`.
pub fn is_repr_c(attrs: &[RustAttr]) -> (r: bool)
    ensures
        r == has_repr(attrs@, "C"@),
{
    any_repr(attrs, "C")
}

/// Returns true if the attribute list contains `#[repr(transparent)]`.
pub fn is_repr_transparent(attrs: &[RustAttr]) -> (r: bool)
    ensures
        r == has_repr(attrs@, "transparent"@),
{
    any_repr(attrs, "transparent")
}

/// Returns true if the attribute list contains `#[no_mangle]` or `#[unsafe(no_mangle)]`.
pub fn has_no_mangle(attrs: &[RustAttr]) -> (r: bool)
    ensures
        r == exists|i: int| 0 <= i < attrs@.len() && is_no_mangle(#[trigger] attrs@[i]),
{
    let mut i: usize = 0;
    while i < attrs.len()
        invariant
            i <= attrs@.len(),
            forall|j: int| 0 <= j < i ==> !is_no_mangle(#[trigger] attrs@[j]),
        decreases attrs.len() - i,
    {
        let a = &attrs[i];
        if attr_is(a, "no_mangle") {
            return true;
        }
        if attr_is(a, "unsafe") && a.kind == MetaKind::List {
            if let Some(m) = &a.single {
                if meta_is(m, "no_mangle") {
                    return true;
                }
            }
        }
        i = i + 1;
    }
    false
}

/// Returns true if the item has `#[derive(DiscriminantEnum)]`.
#[verifier::loop_isolation(false)]
pub fn has_discriminant_enum_derive(attrs: &[RustAttr]) -> (r: bool)
    ensures
        r == exists|i: int| 0 <= i < attrs@.len() && derives_discriminant_enum(#[trigger] attrs@[i]),
{
    let mut i: usize = 0;
    while i < attrs.len()
        invariant
            i <= attrs@.len(),
            forall|j: int| 0 <= j < i ==> !derives_discriminant_enum(#[trigger] attrs@[j]),
        decreases attrs.len() - i,
    {
        let a = &attrs[i];
        if attr_is(a, "derive") && a.kind == MetaKind::List {
            let mut k: usize = 0;
            while k < a.tokens.len()
                invariant
                    k <= a.tokens@.len(),
                    forall|j: int| 0 <= j < k ==> !is_ident_token(#[trigger] a.tokens@[j], "DiscriminantEnum"@),
                decreases a.tokens.len() - k,
            {
                if let RustToken::Ident(s) = &a.tokens[k] {
                    if str_eq(s.as_str(), "DiscriminantEnum") {
                        assert(derives_discriminant_enum(attrs@[i as int]));
                        return true;
                    }
                }
                k = k + 1;
            }
        }
        i = i + 1;
    }
    false
}

/// Extracts the name from a `#[terraffi(discriminant_enum_name = "CustomName")]`
/// helper attribute, if there is one.
#[verifier::loop_isolation(false)]
pub fn get_terraffi_discriminant_enum_name(attrs: &[RustAttr]) -> (r: Option<String>)
    ensures
        match r {
            Some(s) => discriminant_name_of(attrs@) == Some(s@),
            None => discriminant_name_of(attrs@) is None,
        },
{
    let mut i: usize = 0;
    assert(attrs@.subrange(0, attrs@.len() as int) =~= attrs@);
    while i < attrs.len()
        invariant
            i <= attrs@.len(),
            discriminant_name_of(attrs@) == discriminant_name_of(
                attrs@.subrange(i as int, attrs@.len() as int),
            ),
        decreases attrs.len() - i,
    {
        let ghost rest = attrs@.subrange(i as int, attrs@.len() as int);
        assert(rest.drop_first() =~= attrs@.subrange(i + 1, attrs@.len() as int));
        let a = &attrs[i];
        if attr_is(a, "terraffi") && a.kind == MetaKind::List {
            if let Some(ms) = &a.nested {
                let mut k: usize = 0;
                assert(ms@.subrange(0, ms@.len() as int) =~= ms@);
                while k < ms.len()
                    invariant
                        k <= ms@.len(),
                        discriminant_name_in(ms@) == discriminant_name_in(
                            ms@.subrange(k as int, ms@.len() as int),
                        ),
                    decreases ms.len() - k,
                {
                    let ghost mrest = ms@.subrange(k as int, ms@.len() as int);
                    assert(mrest.drop_first() =~= ms@.subrange(k + 1, ms@.len() as int));
                    let m = &ms[k];
                    if m.kind == MetaKind::NameValue && meta_is(m, "discriminant_enum_name") {
                        if let Some(v) = &m.str_value {
                            return Some(owned(v.as_str()));
                        }
                    }
                    k = k + 1;
                }
            }
        }
        i = i + 1;
    }
    None
}

/// Whether the path segments `segs` name `Option` from `std` or `core`:
/// `Option`, `std::Option`, `core::Option`, `std::option::Option` or
/// `core::option::Option`.
pub open spec fn names_std_option(segs: Seq<Seq<char>>) -> bool {
    let std_or_core = |s: Seq<char>| s == "std"@ || s == "core"@;
    if segs.len() == 1 {
        segs[0] == "Option"@
    } else if segs.len() == 2 {
        segs[1] == "Option"@ && std_or_core(segs[0])
    } else if segs.len() == 3 {
        segs[2] == "Option"@ && std_or_core(segs[0]) && segs[1] == "option"@
    } else {
        false
    }
}


/// A type as written in Rust source.
#[derive(Debug)]
pub enum RustType {
    /// `extern "C" fn(A, B) -> R`; `output` is absent for `-> ()` left unwritten.
    BareFn { inputs: Vec<RustType>, output: Option<Box<RustType>> },
    /// `*const T` or `*mut T`.
    Ptr { is_const: bool, elem: Box<RustType> },
    /// `&T` or `&mut T`.
    Reference { is_mut: bool, elem: Box<RustType> },
    /// A path such as `std::option::Option<&T>`.
    Path { segments: Vec<RustPathSegment> },
    /// `[T; N]`; `len` is the length expression as it prints.
    Array { elem: Box<RustType>, len: String },
    /// Any other form, such as a tuple or `()`.
    Other,
}

/// One segment of a type path.
#[derive(Debug)]
pub struct RustPathSegment {
    /// The segment's identifier.
    pub ident: String,
    /// Its angle-bracketed arguments, when it has them.
    pub args: Option<Vec<GenericArg>>,
}

/// One argument of a path segment's angle brackets.
#[derive(Debug)]
pub enum GenericArg {
    /// A type argument.
    Type(RustType),
    /// A lifetime, a constant or a binding.
    Other,
}

/// A named field of a struct or an enum variant.
#[derive(Debug)]
pub struct RustField {
    /// The field's name, empty for a tuple field.
    pub name: String,
    /// Its attributes.
    pub attrs: Vec<RustAttr>,
    /// Its type.
    pub ty: RustType,
}

/// The fields of a struct or enum variant.
#[derive(Debug)]
pub enum RustFields {
    /// `{ a: A, b: B }`
    Named(Vec<RustField>),
    /// `(A, B)`
    Unnamed(Vec<RustField>),
    /// No fields.
    Unit,
}

/// A variant of an enum.
#[derive(Debug)]
pub struct RustVariant {
    /// The variant's name.
    pub name: String,
    /// Its attributes.
    pub attrs: Vec<RustAttr>,
    /// Its fields.
    pub fields: RustFields,
    /// Its explicit discriminant, as it prints.
    pub discriminant: Option<String>,
}

/// A parameter of a function.
#[derive(Debug)]
pub enum RustParam {
    /// `self`, in any form.
    Receiver,
    /// `pattern: Type`; `name` is the binding when the pattern is a plain identifier.
    Typed { name: Option<String>, ty: RustType },
}

/// A function item.
#[derive(Debug)]
pub struct RustFn {
    pub attrs: Vec<RustAttr>,
    pub is_pub: bool,
    /// The ABI string of `extern "..."`, when one is given.
    pub abi: Option<String>,
    pub name: String,
    pub params: Vec<RustParam>,
    /// The return type; absent when none is written.
    pub output: Option<RustType>,
}

/// A struct item.
#[derive(Debug)]
pub struct RustStruct {
    pub attrs: Vec<RustAttr>,
    pub is_pub: bool,
    pub name: String,
    pub fields: RustFields,
}

/// An enum item.
#[derive(Debug)]
pub struct RustEnum {
    pub attrs: Vec<RustAttr>,
    pub is_pub: bool,
    pub name: String,
    pub variants: Vec<RustVariant>,
}

/// A type alias item.
#[derive(Debug)]
pub struct RustTypeAlias {
    pub attrs: Vec<RustAttr>,
    pub is_pub: bool,
    pub name: String,
    pub ty: RustType,
}

/// A macro invocation in item position.
#[derive(Debug)]
pub struct RustMacro {
    /// The macro's name when its path is a single identifier.
    pub path_ident: Option<String>,
    /// The tokens between the macro's delimiters.
    pub tokens: Vec<RustToken>,
}

/// A constant item.
#[derive(Debug)]
pub struct RustConst {
    pub attrs: Vec<RustAttr>,
    pub is_pub: bool,
    pub name: String,
    pub ty: RustType,
    /// The tokens of the value expression.
    pub value: Vec<RustToken>,
}

/// A top-level item of a Rust source file.
#[derive(Debug)]
pub enum RustItem {
    Fn(RustFn),
    Struct(RustStruct),
    Enum(RustEnum),
    TypeAlias(RustTypeAlias),
    Macro(RustMacro),
    Const(RustConst),
    /// `mod name;`, whose contents live in another file.
    ModDecl(String),
    /// Any other item.
    Other,
}

} // verus!
