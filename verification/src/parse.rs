//! Parsing a Rust source file into the item model that header generation reads.
//!
//! The parse itself is `syn`'s. Each converter below turns one of syn's syntax
//! nodes into the matching node of the model, field by field; together they
//! give the named result [`parsed_source`]. What follows the parse, mapping
//! its failure to the library's error, is verified in [`items_of_source`].

use vstd::prelude::*;
use proc_macro2::{TokenStream, TokenTree};
use quote::ToTokens;
use syn::punctuated::Punctuated;
use crate::error::TerraffiError;
use crate::text::owned;
use crate::syntax::{
    RustDelimiter, GenericArg, MetaItem, MetaKind, RustPathSegment, RustAttr, RustConst, RustEnum, RustField,
    RustFields, RustFn, RustItem, RustMacro, RustParam, RustStruct, RustToken, RustType, RustTypeAlias,
    RustVariant,
};

verus! {

#[verifier::external_type_specification]
#[verifier::external_body]
pub struct ExSynItem(syn::Item);

#[verifier::external_type_specification]
#[verifier::external_body]
pub struct ExSynItemFn(syn::ItemFn);

#[verifier::external_type_specification]
#[verifier::external_body]
pub struct ExSynItemStruct(syn::ItemStruct);

#[verifier::external_type_specification]
#[verifier::external_body]
pub struct ExSynItemEnum(syn::ItemEnum);

#[verifier::external_type_specification]
#[verifier::external_body]
pub struct ExSynItemType(syn::ItemType);

#[verifier::external_type_specification]
#[verifier::external_body]
pub struct ExSynItemMacro(syn::ItemMacro);

#[verifier::external_type_specification]
#[verifier::external_body]
pub struct ExSynItemConst(syn::ItemConst);

#[verifier::external_type_specification]
#[verifier::external_body]
pub struct ExSynItemMod(syn::ItemMod);

#[verifier::external_type_specification]
#[verifier::external_body]
pub struct ExSynFnArg(syn::FnArg);

#[verifier::external_type_specification]
#[verifier::external_body]
pub struct ExSynPat(syn::Pat);

#[verifier::external_type_specification]
#[verifier::external_body]
pub struct ExSynReturnType(syn::ReturnType);

#[verifier::external_type_specification]
#[verifier::external_body]
pub struct ExSynVariant(syn::Variant);

#[verifier::external_type_specification]
#[verifier::external_body]
pub struct ExSynVisibility(syn::Visibility);

#[verifier::external_type_specification]
#[verifier::external_body]
pub struct ExSynPath(syn::Path);

#[verifier::external_type_specification]
#[verifier::external_body]
pub struct ExSynExpr(syn::Expr);

#[verifier::external_type_specification]
#[verifier::external_body]
pub struct ExSynMeta(syn::Meta);

#[verifier::external_type_specification]
#[verifier::external_body]
pub struct ExSynMetaList(syn::MetaList);

#[verifier::external_type_specification]
#[verifier::external_body]
pub struct ExSynAttribute(syn::Attribute);

#[verifier::external_type_specification]
#[verifier::external_body]
pub struct ExSynType(syn::Type);

#[verifier::external_type_specification]
#[verifier::external_body]
pub struct ExSynTypeBareFn(syn::TypeBareFn);

#[verifier::external_type_specification]
#[verifier::external_body]
pub struct ExSynPathSegment(syn::PathSegment);

#[verifier::external_type_specification]
#[verifier::external_body]
pub struct ExSynGenericArgument(syn::GenericArgument);

#[verifier::external_type_specification]
#[verifier::external_body]
pub struct ExSynFields(syn::Fields);

#[verifier::external_type_specification]
#[verifier::external_body]
pub struct ExSynField(syn::Field);

#[verifier::external_type_specification]
#[verifier::external_body]
pub struct ExTokenStream(proc_macro2::TokenStream);

#[verifier::external_type_specification]
#[verifier::external_body]
pub struct ExTokenTree(proc_macro2::TokenTree);

#[verifier::external_type_specification]
#[verifier::external_body]
pub struct ExTokenGroup(proc_macro2::Group);

#[verifier::external_type_specification]
#[verifier::external_body]
pub struct ExTokenDelimiter(proc_macro2::Delimiter);

/// What parsing `text` as a Rust source file gives: its top-level items in
/// the model, or the parser's message where the text is not a source file.
pub uninterp spec fn parsed_source(text: Seq<char>) -> Result<Seq<RustItem>, Seq<char>>;

/// A parse result, by views.
pub open spec fn parse_view(r: Result<Vec<RustItem>, String>) -> Result<Seq<RustItem>, Seq<char>> {
    match r {
        Ok(v) => Ok(v@),
        Err(e) => Err(e@),
    }
}

/// `syn::parse_file` on `text`, its items converted into the model and its
/// error into its message. The result is named [`parsed_source`] of the text;
/// Rust's grammar and syn's messages are not restated here.
#[verifier::external_body]
pub fn parse_source(text: &str) -> (r: Result<Vec<RustItem>, String>)
    ensures
        parse_view(r) == parsed_source(text@),
{
    match syn::parse_file(text) {
        Ok(file) => Ok(file.items.iter().map(item_of).collect()),
        Err(e) => Err(e.to_string()),
    }
}

/// The items of the source file at `path` whose text is `text`, or
/// [`TerraffiError::ParseSource`] naming the file and the parser's message.
pub fn items_of_source(path: &str, text: &str) -> (r: Result<Vec<RustItem>, TerraffiError>)
    ensures
        match parsed_source(text@) {
            Ok(items) => r matches Ok(v) && v@ == items,
            Err(m) => r matches Err(TerraffiError::ParseSource { path: p, message }) && p@ == path@
                && message@ == m,
        },
{
    match parse_source(text) {
        Ok(items) => Ok(items),
        Err(message) => Err(TerraffiError::ParseSource { path: owned(path), message }),
    }
}

/// A syn item as a model item; items the model does not distinguish become
/// `Other`.
#[verifier::external_body]
fn item_of(item: &syn::Item) -> RustItem {
    match item {
        syn::Item::Fn(f) => RustItem::Fn(fn_of(f)),
        syn::Item::Struct(s) => RustItem::Struct(struct_of(s)),
        syn::Item::Enum(e) => RustItem::Enum(enum_of(e)),
        syn::Item::Type(t) => RustItem::TypeAlias(alias_of(t)),
        syn::Item::Macro(m) => RustItem::Macro(macro_of(m)),
        syn::Item::Const(c) => RustItem::Const(const_of(c)),
        syn::Item::Mod(m) => mod_of(m),
        _ => RustItem::Other,
    }
}

/// A function item, field by field.
#[verifier::external_body]
fn fn_of(f: &syn::ItemFn) -> RustFn {
    RustFn {
        attrs: attrs_of(&f.attrs),
        is_pub: is_pub(&f.vis),
        abi: f.sig.abi.as_ref().and_then(|a| a.name.as_ref().map(|n| n.value())),
        name: f.sig.ident.to_string(),
        params: f.sig.inputs.iter().map(param_of).collect(),
        output: return_of(&f.sig.output),
    }
}

/// A struct item, field by field.
#[verifier::external_body]
fn struct_of(s: &syn::ItemStruct) -> RustStruct {
    RustStruct {
        attrs: attrs_of(&s.attrs),
        is_pub: is_pub(&s.vis),
        name: s.ident.to_string(),
        fields: fields_of(&s.fields),
    }
}

/// An enum item, field by field.
#[verifier::external_body]
fn enum_of(e: &syn::ItemEnum) -> RustEnum {
    RustEnum {
        attrs: attrs_of(&e.attrs),
        is_pub: is_pub(&e.vis),
        name: e.ident.to_string(),
        variants: e.variants.iter().map(variant_of).collect(),
    }
}

/// A type alias item, field by field.
#[verifier::external_body]
fn alias_of(t: &syn::ItemType) -> RustTypeAlias {
    RustTypeAlias {
        attrs: attrs_of(&t.attrs),
        is_pub: is_pub(&t.vis),
        name: t.ident.to_string(),
        ty: type_of(&t.ty),
    }
}

/// A macro invocation in item position: its path and its tokens.
#[verifier::external_body]
fn macro_of(m: &syn::ItemMacro) -> RustMacro {
    RustMacro { path_ident: ident_of_path(&m.mac.path), tokens: tokens_of(m.mac.tokens.clone()) }
}

/// A constant item, field by field; the value as its tokens.
#[verifier::external_body]
fn const_of(c: &syn::ItemConst) -> RustConst {
    RustConst {
        attrs: attrs_of(&c.attrs),
        is_pub: is_pub(&c.vis),
        name: c.ident.to_string(),
        ty: type_of(&c.ty),
        value: tokens_of(c.expr.to_token_stream()),
    }
}

/// `mod name;` as a declaration; a module written inline is `Other`.
#[verifier::external_body]
fn mod_of(m: &syn::ItemMod) -> RustItem {
    match &m.content {
        None => RustItem::ModDecl(m.ident.to_string()),
        Some(_) => RustItem::Other,
    }
}

/// A function parameter: `self` in any form, or a typed pattern.
#[verifier::external_body]
fn param_of(a: &syn::FnArg) -> RustParam {
    match a {
        syn::FnArg::Receiver(_) => RustParam::Receiver,
        syn::FnArg::Typed(p) => RustParam::Typed { name: pat_name(&p.pat), ty: type_of(&p.ty) },
    }
}

/// The identifier a pattern binds, when it is a plain identifier pattern.
#[verifier::external_body]
fn pat_name(p: &syn::Pat) -> Option<String> {
    match p {
        syn::Pat::Ident(i) => Some(i.ident.to_string()),
        _ => None,
    }
}

/// A written return type, or nothing where none is written.
#[verifier::external_body]
fn return_of(o: &syn::ReturnType) -> Option<RustType> {
    match o {
        syn::ReturnType::Default => None,
        syn::ReturnType::Type(_, t) => Some(type_of(t)),
    }
}

/// An enum variant, field by field; the discriminant as it prints.
#[verifier::external_body]
fn variant_of(v: &syn::Variant) -> RustVariant {
    RustVariant {
        name: v.ident.to_string(),
        attrs: attrs_of(&v.attrs),
        fields: fields_of(&v.fields),
        discriminant: v.discriminant.as_ref().map(|(_, e)| e.to_token_stream().to_string()),
    }
}

/// Whether a visibility is plain `pub`.
#[verifier::external_body]
fn is_pub(v: &syn::Visibility) -> bool {
    match v {
        syn::Visibility::Public(_) => true,
        _ => false,
    }
}

/// A path's identifier, when the path is a single identifier.
#[verifier::external_body]
fn ident_of_path(p: &syn::Path) -> Option<String> {
    p.get_ident().map(|i| i.to_string())
}

/// A string literal's value, when the expression is one.
#[verifier::external_body]
fn lit_str(e: &syn::Expr) -> Option<String> {
    match e {
        syn::Expr::Lit(syn::ExprLit { lit: syn::Lit::Str(s), .. }) => Some(s.value()),
        _ => None,
    }
}

/// One entry of an attribute's argument list: its path, shape and string value.
#[verifier::external_body]
fn meta_item(m: &syn::Meta) -> MetaItem {
    match m {
        syn::Meta::Path(p) => MetaItem { path_ident: ident_of_path(p), kind: MetaKind::Path, str_value: None },
        syn::Meta::List(l) => MetaItem { path_ident: ident_of_path(&l.path), kind: MetaKind::List, str_value: None },
        syn::Meta::NameValue(nv) => MetaItem {
            path_ident: ident_of_path(&nv.path),
            kind: MetaKind::NameValue,
            str_value: lit_str(&nv.value),
        },
    }
}

/// The attributes, in order, each by its meta.
#[verifier::external_body]
fn attrs_of(attrs: &[syn::Attribute]) -> Vec<RustAttr> {
    attrs.iter().map(|a| attr_of_meta(&a.meta)).collect()
}

/// An attribute by its meta: a path, a list or a name-value pair.
#[verifier::external_body]
fn attr_of_meta(m: &syn::Meta) -> RustAttr {
    match m {
        syn::Meta::Path(p) => RustAttr {
            path_ident: ident_of_path(p), kind: MetaKind::Path, str_value: None,
            tokens: Vec::new(), nested: None, single: None,
        },
        syn::Meta::List(l) => list_attr(l),
        syn::Meta::NameValue(nv) => RustAttr {
            path_ident: ident_of_path(&nv.path), kind: MetaKind::NameValue, str_value: lit_str(&nv.value),
            tokens: Vec::new(), nested: None, single: None,
        },
    }
}

/// A list attribute: its tokens, and its arguments read by syn as a
/// comma-separated list of metas and as a single meta, where they read so.
#[verifier::external_body]
fn list_attr(l: &syn::MetaList) -> RustAttr {
    RustAttr {
        path_ident: ident_of_path(&l.path),
        kind: MetaKind::List,
        str_value: None,
        tokens: tokens_of(l.tokens.clone()),
        nested: l.parse_args_with(Punctuated::<syn::Meta, syn::token::Comma>::parse_terminated).ok()
            .map(|ms| ms.iter().map(meta_item).collect()),
        single: l.parse_args::<syn::Meta>().ok().map(|m| meta_item(&m)),
    }
}

/// The tokens of a stream, in order.
#[verifier::external_body]
fn tokens_of(s: TokenStream) -> Vec<RustToken> {
    s.into_iter().map(token_of).collect()
}

/// One token tree as a model token.
#[verifier::external_body]
fn token_of(t: TokenTree) -> RustToken {
    match t {
        TokenTree::Ident(i) => RustToken::Ident(i.to_string()),
        TokenTree::Punct(p) => RustToken::Punct(p.as_char()),
        TokenTree::Literal(l) => RustToken::Literal(l.to_string()),
        TokenTree::Group(g) => group_of(&g),
    }
}

/// A delimited group: its delimiter, how it prints, its tokens, and its
/// contents read by syn as an attribute's meta, where they read as one.
#[verifier::external_body]
fn group_of(g: &proc_macro2::Group) -> RustToken {
    RustToken::Group {
        delimiter: delimiter_of(g.delimiter()),
        text: g.to_string(),
        tokens: tokens_of(g.stream()),
        attr: syn::parse2::<syn::Meta>(g.stream()).ok().map(|m| attr_of_meta(&m)),
    }
}

/// A group delimiter, variant for variant.
#[verifier::external_body]
fn delimiter_of(d: proc_macro2::Delimiter) -> RustDelimiter {
    match d {
        proc_macro2::Delimiter::Parenthesis => RustDelimiter::Parenthesis,
        proc_macro2::Delimiter::Brace => RustDelimiter::Brace,
        proc_macro2::Delimiter::Bracket => RustDelimiter::Bracket,
        proc_macro2::Delimiter::None => RustDelimiter::Invisible,
    }
}

/// A type as the model holds it; forms the model does not distinguish become `Other`.
#[verifier::external_body]
fn type_of(t: &syn::Type) -> RustType {
    match t {
        syn::Type::BareFn(f) => bare_fn_of(f),
        syn::Type::Ptr(p) => RustType::Ptr { is_const: p.const_token.is_some(), elem: Box::new(type_of(&p.elem)) },
        syn::Type::Reference(r) => RustType::Reference { is_mut: r.mutability.is_some(), elem: Box::new(type_of(&r.elem)) },
        syn::Type::Path(p) => RustType::Path { segments: p.path.segments.iter().map(segment_of).collect() },
        syn::Type::Array(a) => RustType::Array { elem: Box::new(type_of(&a.elem)), len: a.len.to_token_stream().to_string() },
        _ => RustType::Other,
    }
}

/// A function pointer type: its parameter types and written return type.
#[verifier::external_body]
fn bare_fn_of(f: &syn::TypeBareFn) -> RustType {
    RustType::BareFn {
        inputs: f.inputs.iter().map(|a| type_of(&a.ty)).collect(),
        output: return_of(&f.output).map(Box::new),
    }
}

/// A path segment: its identifier and its angle-bracketed arguments, if any.
#[verifier::external_body]
fn segment_of(s: &syn::PathSegment) -> RustPathSegment {
    RustPathSegment {
        ident: s.ident.to_string(),
        args: match &s.arguments {
            syn::PathArguments::AngleBracketed(a) => Some(a.args.iter().map(generic_arg_of).collect()),
            _ => None,
        },
    }
}

/// A generic argument: a type, or anything else.
#[verifier::external_body]
fn generic_arg_of(g: &syn::GenericArgument) -> GenericArg {
    match g {
        syn::GenericArgument::Type(t) => GenericArg::Type(type_of(t)),
        _ => GenericArg::Other,
    }
}

/// The fields of a struct or variant, by shape.
#[verifier::external_body]
fn fields_of(f: &syn::Fields) -> RustFields {
    match f {
        syn::Fields::Named(n) => RustFields::Named(n.named.iter().map(field_of).collect()),
        syn::Fields::Unnamed(u) => RustFields::Unnamed(u.unnamed.iter().map(field_of).collect()),
        syn::Fields::Unit => RustFields::Unit,
    }
}

/// One field: its name (empty for a tuple field), attributes and type.
#[verifier::external_body]
fn field_of(f: &syn::Field) -> RustField {
    RustField {
        name: f.ident.as_ref().map(|i| i.to_string()).unwrap_or_default(),
        attrs: attrs_of(&f.attrs),
        ty: type_of(&f.ty),
    }
}

} // verus!
