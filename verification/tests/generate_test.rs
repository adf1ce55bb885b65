//! Header generation from crate models: the fixtures and the test library,
//! written as the items a source scan yields.

use terraffi::builder::TerraffiGeneratorBuilder;
use terraffi::case::Case;
use terraffi::error::TerraffiError;
use terraffi::parse::items_of_source;
use terraffi::syntax::{
    RustDelimiter, GenericArg, MetaItem, MetaKind, RustPathSegment, RustAttr, RustConst, RustEnum, RustField,
    RustFields, RustFn, RustItem, RustMacro, RustParam, RustStruct, RustToken, RustType, RustTypeAlias,
    RustVariant,
};
use terraffi::validate::UnrepresentableReason;

fn s(x: &str) -> String {
    x.to_string()
}

fn meta(name: &str) -> MetaItem {
    MetaItem { path_ident: Some(s(name)), kind: MetaKind::Path, str_value: None }
}

fn plain_attr(name: &str) -> RustAttr {
    RustAttr { path_ident: Some(s(name)), kind: MetaKind::Path, str_value: None, tokens: vec![], nested: None, single: None }
}

fn doc(text: &str) -> RustAttr {
    RustAttr {
        path_ident: Some(s("doc")),
        kind: MetaKind::NameValue,
        str_value: Some(format!(" {}", text)),
        tokens: vec![],
        nested: None,
        single: None,
    }
}

fn docs(lines: &[&str]) -> Vec<RustAttr> {
    lines.iter().map(|l| if l.is_empty() { RustAttr { str_value: Some(s("")), ..doc("") } } else { doc(l) }).collect()
}

fn list_attr(name: &str, args: &[&str]) -> RustAttr {
    let mut tokens = vec![];
    for (i, a) in args.iter().enumerate() {
        if i > 0 {
            tokens.push(RustToken::Punct(','));
        }
        tokens.push(RustToken::Ident(s(a)));
    }
    RustAttr {
        path_ident: Some(s(name)),
        kind: MetaKind::List,
        str_value: None,
        tokens,
        nested: Some(args.iter().map(|a| meta(a)).collect()),
        single: if args.len() == 1 { Some(meta(args[0])) } else { None },
    }
}

fn repr(args: &[&str]) -> RustAttr {
    list_attr("repr", args)
}

fn export() -> RustAttr {
    plain_attr("terraffi_export")
}

fn no_mangle() -> RustAttr {
    list_attr("unsafe", &["no_mangle"])
}

fn segs(name: &str) -> Vec<RustPathSegment> {
    name.split("::").map(|p| RustPathSegment { ident: s(p), args: None }).collect()
}

fn path(name: &str) -> RustType {
    RustType::Path { segments: segs(name) }
}

fn generic(name: &str, args: Vec<GenericArg>) -> RustType {
    let mut segments = segs(name);
    let last = segments.len() - 1;
    segments[last].args = Some(args);
    RustType::Path { segments }
}

fn arg(t: RustType) -> GenericArg {
    GenericArg::Type(t)
}

fn lifetime() -> GenericArg {
    GenericArg::Other
}

fn ptr(is_const: bool, t: RustType) -> RustType {
    RustType::Ptr { is_const, elem: Box::new(t) }
}

fn reference(is_mut: bool, t: RustType) -> RustType {
    RustType::Reference { is_mut, elem: Box::new(t) }
}

fn array(t: RustType, len: &str) -> RustType {
    RustType::Array { elem: Box::new(t), len: s(len) }
}

fn tuple() -> RustType {
    RustType::Other
}

fn field(name: &str, attrs: Vec<RustAttr>, ty: RustType) -> RustField {
    RustField { name: s(name), attrs, ty }
}

fn strukt(attrs: Vec<RustAttr>, name: &str, fields: Vec<RustField>) -> RustItem {
    RustItem::Struct(RustStruct { attrs, is_pub: true, name: s(name), fields: RustFields::Named(fields) })
}

fn unit_strukt(attrs: Vec<RustAttr>, name: &str) -> RustItem {
    RustItem::Struct(RustStruct { attrs, is_pub: true, name: s(name), fields: RustFields::Unit })
}

fn variant(attrs: Vec<RustAttr>, name: &str, data: Option<RustType>, discriminant: Option<&str>) -> RustVariant {
    RustVariant {
        name: s(name),
        attrs,
        fields: match data {
            Some(t) => RustFields::Unnamed(vec![field("0", vec![], t)]),
            None => RustFields::Unit,
        },
        discriminant: discriminant.map(s),
    }
}

fn enumeration(attrs: Vec<RustAttr>, name: &str, variants: Vec<RustVariant>) -> RustItem {
    RustItem::Enum(RustEnum { attrs, is_pub: true, name: s(name), variants })
}

fn func(attrs: Vec<RustAttr>, name: &str, params: Vec<(&str, RustType)>, output: Option<RustType>) -> RustItem {
    RustItem::Fn(RustFn {
        attrs,
        is_pub: true,
        abi: Some(s("C")),
        name: s(name),
        params: params.into_iter().map(|(n, t)| RustParam::Typed { name: Some(s(n)), ty: t }).collect(),
        output,
    })
}

fn exported_fn(mut attrs: Vec<RustAttr>, name: &str, params: Vec<(&str, RustType)>, output: Option<RustType>) -> RustItem {
    attrs.push(no_mangle());
    func(attrs, name, params, output)
}

fn alias(attrs: Vec<RustAttr>, name: &str, ty: RustType) -> RustItem {
    RustItem::TypeAlias(RustTypeAlias { attrs, is_pub: true, name: s(name), ty })
}

fn constant(attrs: Vec<RustAttr>, name: &str, ty: &str, value: Vec<RustToken>) -> RustItem {
    RustItem::Const(RustConst { attrs, is_pub: true, name: s(name), ty: path(ty), value })
}

fn limit(ty: &str, which: &str) -> Vec<RustToken> {
    vec![RustToken::Ident(s(ty)), RustToken::Punct(':'), RustToken::Punct(':'), RustToken::Ident(s(which))]
}

fn attr_group(a: RustAttr) -> Vec<RustToken> {
    vec![
        RustToken::Punct('#'),
        RustToken::Group { delimiter: RustDelimiter::Bracket, text: s("[..]"), tokens: vec![], attr: Some(a) },
    ]
}

fn flag(doc_text: &str, name: &str, value: &str) -> Vec<RustToken> {
    let mut t = attr_group(doc(doc_text));
    t.push(RustToken::Ident(s("const")));
    t.push(RustToken::Ident(s(name)));
    t.push(RustToken::Punct('='));
    t.push(RustToken::Literal(s(value)));
    t.push(RustToken::Punct(';'));
    t
}

/// The test library's dependency, `terraffi_testdeplib`.
fn testdeplib() -> Vec<RustItem> {
    vec![strukt(
        {
            let mut a = docs(&[
                "A simple struct defined in a dependency crate, used to verify",
                "that types from local dependency crates are included in the generated header.",
            ]);
            a.push(repr(&["C"]));
            a
        },
        "ExampleDependencyStruct",
        vec![field("foo", vec![], path("i32"))],
    )]
}

fn with(mut a: Vec<RustAttr>, more: Vec<RustAttr>) -> Vec<RustAttr> {
    a.extend(more);
    a
}

/// The test library, `terraffi_testlib`: its `example_structure` module, then `point`.
fn testlib() -> Vec<RustItem> {
    let mut items = vec![
        RustItem::Other,
        RustItem::Other,
        RustItem::Other,
        RustItem::Other,
        RustItem::Other,
        RustItem::Other,
        RustItem::Other,
        RustItem::Other,
        unit_strukt(docs(&["An opaque struct"]), "OpaqueStruct"),
        unit_strukt(
            docs(&["An opaque struct which should not appear in the header as it is unreferenced"]),
            "UnreferencedOpaqueStruct",
        ),
        strukt(
            with(
                docs(&[
                    "Uses the borrowed string buffer, which shares `CStringBuffer`'s layout and so",
                    "shares its C struct.",
                ]),
                vec![export(), repr(&["C"])],
            ),
            "ExampleBorrowedBuffer",
            vec![
                field(
                    "borrowed",
                    docs(&["A borrowed null-terminated buffer."]),
                    generic("terraffi_ctypes::CStringBufferRef", vec![lifetime()]),
                ),
                field(
                    "maybe",
                    docs(&["The same, optional."]),
                    generic("Option", vec![arg(generic("terraffi_ctypes::CStringBufferRef", vec![lifetime()]))]),
                ),
            ],
        ),
        strukt(
            with(
                docs(&[
                    "A structure demonstrating various field types supported by terraffi,",
                    "including primitives, enums, nullable strings, slices, and types from",
                    "dependency crates.",
                ]),
                vec![repr(&["C"])],
            ),
            "ExampleStructure",
            vec![
                field("float_member", docs(&["A single-precision floating point value."]), path("f32")),
                field("int_member", docs(&["A 32-bit signed integer value."]), path("i32")),
                field("enum_member", docs(&["An enum member demonstrating enum field support."]), path("ExampleEnum")),
                field(
                    "string_pointer_member",
                    docs(&["An optional owned C string pointer, nullable in the generated header."]),
                    generic("Option", vec![arg(path("CStringPtr"))]),
                ),
                field(
                    "array_member",
                    docs(&["A slice of integers, expanded to a length + pointer pair in C."]),
                    generic("CSlice", vec![arg(path("i32"))]),
                ),
                field("struct_member", docs(&["A struct from a dependency crate."]), path("ExampleDependencyStruct")),
                field("slice_member", docs(&["A slice member"]), array(path("u8"), "16")),
                field("box_ptr_member", docs(&["A box ptr member"]), generic("BoxPtr", vec![arg(path("i32"))])),
                field(
                    "option_box_member",
                    docs(&["A option box member"]),
                    generic("Option", vec![arg(generic("Box", vec![arg(path("i32"))]))]),
                ),
            ],
        ),
        strukt(
            vec![export(), repr(&["C"])],
            "ExampleRefStructure",
            vec![
                field(
                    "option_ref",
                    vec![],
                    generic("Option", vec![arg(reference(false, path("ExampleStructure")))]),
                ),
                field("ref_ptr", vec![], generic("RefPtr", vec![lifetime(), arg(path("ExampleStructure"))])),
                field(
                    "mut_option_ref",
                    vec![],
                    generic("Option", vec![arg(reference(true, path("ExampleStructure")))]),
                ),
                field("mut_ref_ptr", vec![], generic("MutRefPtr", vec![lifetime(), arg(path("ExampleStructure"))])),
            ],
        ),
        strukt(
            with(
                docs(&[
                    "A self-referential structure demonstrating a node that contains a pointer",
                    "to another instance of its own type, as in a singly-linked list.",
                ]),
                vec![export(), repr(&["C"])],
            ),
            "ExampleSelfReferentialStructure",
            vec![
                field("value", docs(&["The value held by this node."]), path("i32")),
                field(
                    "next",
                    docs(&["A pointer to the next node, or null if this is the last node."]),
                    generic("Option", vec![arg(generic("Box", vec![arg(path("ExampleSelfReferentialStructure"))]))]),
                ),
            ],
        ),
        strukt(
            with(
                docs(&[
                    "One half of a mutually referential pair. Neither type's typedef can be complete",
                    "before the other is named, so the first one emitted refers to its peer through",
                    "the struct tag.",
                ]),
                vec![export(), repr(&["C"])],
            ),
            "ExampleMutualA",
            vec![
                field("value", docs(&["A value held by this node."]), path("i32")),
                field(
                    "peer",
                    docs(&["A pointer to the peer, or null."]),
                    generic("Option", vec![arg(generic("Box", vec![arg(path("ExampleMutualB"))]))]),
                ),
            ],
        ),
        strukt(
            with(
                docs(&[
                    "The other half of the mutually referential pair. By the time this is emitted",
                    "its peer is declared, so it uses the plain typedef name.",
                ]),
                vec![export(), repr(&["C"])],
            ),
            "ExampleMutualB",
            vec![
                field("value", docs(&["A value held by this node."]), path("i32")),
                field(
                    "peer",
                    docs(&["A pointer to the peer, or null."]),
                    generic("Option", vec![arg(generic("Box", vec![arg(path("ExampleMutualA"))]))]),
                ),
            ],
        ),
        RustItem::Struct(RustStruct {
            attrs: vec![
                export(),
                repr(&["transparent"]),
                list_attr("derive", &["Default", "Copy", "Clone", "PartialEq", "Eq", "PartialOrd", "Ord", "Hash"]),
            ],
            is_pub: true,
            name: s("ExampleSliceType"),
            fields: RustFields::Unnamed(vec![field("0", vec![], array(path("u8"), "16"))]),
        }),
        enumeration(
            with(
                docs(&["A simple C-compatible enum with unit variants and no explicit discriminant values."]),
                vec![repr(&["C"])],
            ),
            "ExampleEnum",
            vec![
                variant(docs(&["Represents the absence of a value."]), "None", None, None),
                variant(docs(&["First variant."]), "Foo", None, None),
                variant(docs(&["Second variant."]), "Bar", None, None),
            ],
        ),
        enumeration(
            with(
                docs(&[
                    "A C-compatible enum with explicitly assigned discriminant values,",
                    "including gaps in the numbering.",
                ]),
                vec![repr(&["C"])],
            ),
            "ExampleEnumWithValues",
            vec![
                variant(docs(&["Default variant with value 0."]), "None", None, Some("0")),
                variant(docs(&["Variant with an explicit value of 10."]), "Foo", None, Some("10")),
                variant(docs(&["Variant with an auto-incremented value."]), "Bar", None, None),
                variant(docs(&["Variant with a large explicit value."]), "Baz", None, Some("2544")),
            ],
        ),
        strukt(
            with(
                docs(&["A struct only used inside a data-carrying enum variant, not referenced by any function."]),
                vec![repr(&["C"])],
            ),
            "UnionOnlyStruct",
            vec![
                field("x", docs(&["An x coordinate."]), path("f32")),
                field("y", docs(&["A y coordinate."]), path("f32")),
            ],
        ),
        enumeration(
            with(
                docs(&[
                    "An enum with data-carrying variants, emitted as a tagged union in C.",
                    "The `DiscriminantEnum` derive generates a companion `ExampleDataEnumKind`",
                    "enum containing only the discriminant tags.",
                ]),
                vec![
                    list_attr("derive", &["DiscriminantEnum"]),
                    RustAttr {
                        path_ident: Some(s("terraffi")),
                        kind: MetaKind::List,
                        str_value: None,
                        tokens: vec![RustToken::Ident(s("additional_derives"))],
                        nested: Some(vec![MetaItem {
                            path_ident: Some(s("additional_derives")),
                            kind: MetaKind::NameValue,
                            str_value: None,
                        }]),
                        single: Some(MetaItem {
                            path_ident: Some(s("additional_derives")),
                            kind: MetaKind::NameValue,
                            str_value: None,
                        }),
                    },
                    repr(&["C"]),
                ],
            ),
            "ExampleDataEnum",
            vec![
                variant(docs(&["Empty variant with no associated data."]), "None", None, None),
                variant(docs(&["Variant carrying a single unsigned 32-bit integer."]), "Foo", Some(path("u32")), None),
                variant(docs(&["Variant carrying an enum value."]), "Bar", Some(path("ExampleEnum")), None),
                variant(docs(&["Variant carrying a full structure."]), "Baz", Some(path("ExampleStructure")), None),
                variant(docs(&["Variant carrying a struct only used in this enum."]), "Qux", Some(path("UnionOnlyStruct")), None),
            ],
        ),
        enumeration(
            with(
                docs(&[
                    "An enum with data-carrying variants, explicit discriminant values, and a fixed",
                    "`u32` tag width. Demonstrates that variant values are preserved in the generated",
                    "C discriminant enum.",
                ]),
                vec![
                    repr(&["C", "u32"]),
                    RustAttr {
                        path_ident: Some(s("terraffi")),
                        kind: MetaKind::List,
                        str_value: None,
                        tokens: vec![RustToken::Ident(s("discriminant_enum_name"))],
                        nested: Some(vec![MetaItem {
                            path_ident: Some(s("discriminant_enum_name")),
                            kind: MetaKind::NameValue,
                            str_value: Some(s("ExampleDataEnumKind")),
                        }]),
                        single: Some(MetaItem {
                            path_ident: Some(s("discriminant_enum_name")),
                            kind: MetaKind::NameValue,
                            str_value: Some(s("ExampleDataEnumKind")),
                        }),
                    },
                ],
            ),
            "ExampleDataEnumWithValues",
            vec![
                variant(docs(&["Empty variant with value 0."]), "None", None, Some("0")),
                variant(docs(&["Variant carrying a `u32`, with value 10."]), "Foo", Some(path("u32")), Some("10")),
                variant(docs(&["Variant carrying an enum, with an auto-incremented value."]), "Bar", Some(path("ExampleEnum")), None),
                variant(docs(&["Variant carrying a structure, with value 2544."]), "Baz", Some(path("ExampleStructure")), Some("2544")),
            ],
        ),
        constant(
            with(
                docs(&[
                    "Sentinel meaning \"no maximum\" \u{2014} non-ASCII text like \u{a7} must survive",
                    "generation intact, and the value must emit as a C `<stdint.h>` macro.",
                ]),
                vec![export()],
            ),
            "EXAMPLE_NO_MAX",
            "u64",
            limit("u64", "MAX"),
        ),
        constant(with(docs(&["Sentinel meaning \"no minimum\"."]), vec![export()]), "EXAMPLE_NO_MIN", "i32", limit("i32", "MIN")),
        RustItem::Macro(RustMacro { path_ident: Some(s("bitflags")), tokens: bitflags_tokens() }),
    ];
    items.extend(testlib_functions());
    // `point`
    items.push(RustItem::Other);
    items.push(RustItem::Struct(RustStruct {
        attrs: vec![],
        is_pub: true,
        name: s("Point"),
        fields: RustFields::Named(vec![field("x", vec![], path("f32")), field("y", vec![], path("f32"))]),
    }));
    items.push(exported_fn(vec![export()], "distance", vec![("_p", ptr(true, path("Point")))], Some(path("f32"))));
    items
}

fn bitflags_tokens() -> Vec<RustToken> {
    let mut t = vec![];
    t.extend(attr_group(doc("A set of bitflags demonstrating `bitflags!` macro support in terraffi.")));
    t.extend(attr_group(doc("Emitted as a typedef with `#define` constants in the generated C header.")));
    t.extend(attr_group(repr(&["transparent"])));
    t.extend(attr_group(list_attr("derive", &["Debug", "Copy", "Clone", "PartialEq", "Eq", "Hash"])));
    t.push(RustToken::Ident(s("pub")));
    t.push(RustToken::Ident(s("struct")));
    t.push(RustToken::Ident(s("ExampleFlags")));
    t.push(RustToken::Punct(':'));
    t.push(RustToken::Ident(s("u32")));
    let mut body = vec![];
    body.extend(flag("First flag (bit 0).", "Foo", "0b00000001"));
    body.extend(flag("Second flag (bit 1).", "Bar", "0b00000010"));
    body.extend(flag("Third flag (bit 2).", "Baz", "0b00000100"));
    body.push(RustToken::Ident(s("const")));
    body.push(RustToken::Ident(s("_")));
    body.push(RustToken::Punct('='));
    body.push(RustToken::Punct('!'));
    body.push(RustToken::Literal(s("0")));
    body.push(RustToken::Punct(';'));
    t.push(RustToken::Group { delimiter: RustDelimiter::Brace, text: s("{..}"), tokens: body, attr: None });
    t
}

fn param_docs(summary: &[&str], params: &[&str], returns: &[&str]) -> Vec<RustAttr> {
    let mut lines: Vec<&str> = summary.to_vec();
    lines.push("");
    lines.push("# Parameters");
    lines.extend(params.iter().copied());
    if !returns.is_empty() {
        lines.push("");
        lines.push("# Returns");
        lines.extend(returns.iter().copied());
    }
    let mut a = docs(&lines);
    a.push(export());
    a
}

fn testlib_functions() -> Vec<RustItem> {
    vec![
        exported_fn(
            param_docs(&["Accepts an enum by value."], &["- `v`: The enum value to process."], &[]),
            "param_enum",
            vec![("v", path("ExampleEnumWithValues"))],
            None,
        ),
        exported_fn(
            param_docs(
                &["Accepts a const pointer to a structure."],
                &["- `p`: A non-null const pointer to an [`ExampleStructure`]."],
                &[],
            ),
            "param_pointer",
            vec![("p", ptr(true, path("ExampleStructure")))],
            None,
        ),
        exported_fn(
            param_docs(
                &["Accepts a mutable pointer to a structure."],
                &["- `p`: A non-null mutable pointer to an [`ExampleStructure`]."],
                &[],
            ),
            "param_pointer_mut",
            vec![("p", ptr(false, path("ExampleStructure")))],
            None,
        ),
        exported_fn(
            param_docs(
                &["Accepts an optional immutable reference, emitted as a nullable const pointer in C."],
                &["- `p`: An optional reference to an [`ExampleStructure`], or `None` for null."],
                &[],
            ),
            "param_option",
            vec![("p", generic("Option", vec![arg(reference(false, path("ExampleStructure")))]))],
            None,
        ),
        exported_fn(
            param_docs(
                &["Accepts an optional mutable reference, emitted as a nullable pointer in C."],
                &["- `p`: An optional mutable reference to an [`ExampleStructure`], or `None` for null."],
                &[],
            ),
            "param_option_mut",
            vec![("p", generic("Option", vec![arg(reference(true, path("ExampleStructure")))]))],
            None,
        ),
        exported_fn(
            param_docs(
                &["Accepts an optional owned C string, emitted as a nullable `char*` in C."],
                &["- `p`: An optional owned C string pointer, or `None` for null."],
                &[],
            ),
            "param_string",
            vec![("p", generic("Option", vec![arg(path("CStringPtr"))]))],
            None,
        ),
        exported_fn(
            param_docs(
                &["Accepts a const pointer to a tagged union."],
                &["- `p`: A non-null const pointer to an [`ExampleDataEnumWithValues`]."],
                &["A 32-bit integer status code. Returns `0` on success."],
            ),
            "param_tagged_union",
            vec![("p", ptr(true, path("ExampleDataEnumWithValues")))],
            Some(path("i32")),
        ),
        exported_fn(
            param_docs(&["Accepts a bitflags value by copy."], &["- `f`: A set of [`ExampleFlags`] bitflags."], &[]),
            "param_flags",
            vec![("f", path("ExampleFlags"))],
            None,
        ),
        exported_fn(
            with(docs(&["Accepts an opaque struct by pointer"]), vec![export()]),
            "param_opaque_struct_pointer",
            vec![("f", generic("Option", vec![arg(reference(false, path("OpaqueStruct")))]))],
            None,
        ),
        exported_fn(
            with(docs(&["Creates an owned string"]), vec![export()]),
            "string_new",
            vec![],
            Some(generic("ManuallyDrop", vec![arg(path("CStringBuffer"))])),
        ),
        exported_fn(
            with(docs(&["Frees an owned string"]), vec![export()]),
            "string_free",
            vec![("str", generic("Option", vec![arg(reference(true, path("CStringBuffer")))]))],
            None,
        ),
    ]
}

/// The fixture of unresolved types.
fn unresolved_fixture() -> Vec<RustItem> {
    vec![
        RustItem::Other,
        strukt(
            docs(&[
                "Not `#[repr(C)]` and only used behind a pointer, so this is a legitimate",
                "opaque handle and must NOT be reported as unresolved.",
            ]),
            "OpaqueHandle",
            vec![field("_private", vec![], path("i32"))],
        ),
        strukt(
            with(
                docs(&[
                    "Declared in a hand-written header the user supplies via `add_include`.",
                    "Indistinguishable from a typo without `assume_declared`.",
                ]),
                vec![repr(&["C"])],
            ),
            "FromExternalHeader",
            vec![field("value", vec![], path("i32"))],
        ),
        strukt(
            vec![repr(&["C"])],
            "BadFields",
            vec![
                field("owned", vec![], path("String")),
                field("list", vec![], generic("Vec", vec![arg(path("u8"))])),
                field("map", vec![], generic("HashMap", vec![arg(path("u32")), arg(path("u32"))])),
                field("borrowed", vec![], reference(false, path("str"))),
            ],
        ),
        exported_fn(vec![], "takes_string", vec![("s", path("String"))], Some(path("i32"))),
        exported_fn(vec![], "takes_opaque", vec![("p", ptr(true, path("OpaqueHandle")))], Some(path("i32"))),
        exported_fn(vec![], "takes_typo", vec![("p", ptr(true, path("NoSuchType")))], Some(path("i32"))),
    ]
}

/// The fixture of slices and `void` in signatures.
fn slice_fixture() -> Vec<RustItem> {
    let payload = || path("Payload");
    vec![
        RustItem::Other,
        strukt(vec![repr(&["C"])], "Payload", vec![field("id", vec![], path("u32"))]),
        strukt(
            with(docs(&["Legal: a slice as a struct field expands into adjacent members."]), vec![repr(&["C"])]),
            "Holder",
            vec![field("items", vec![], generic("CSlice", vec![arg(payload())]))],
        ),
        exported_fn(
            docs(&["Illegal: two words in Rust, one pointer in C."]),
            "takes_slice_ref",
            vec![("s", generic("CSliceRef", vec![lifetime(), arg(payload())]))],
            None,
        ),
        exported_fn(
            docs(&["Illegal: three words in Rust."]),
            "takes_vec",
            vec![("v", generic("CVec", vec![arg(payload())]))],
            None,
        ),
        exported_fn(
            docs(&["Illegal in a return position too."]),
            "returns_slice",
            vec![],
            Some(generic("CSlice", vec![arg(payload())])),
        ),
        exported_fn(
            docs(&["Legal: a bare pointer with the length passed alongside it."]),
            "takes_ptr_and_len",
            vec![("p", generic("CArrayPtr", vec![arg(payload())])), ("len", path("usize"))],
            None,
        ),
        exported_fn(
            docs(&["Legal: pointer-sized types are unaffected."]),
            "takes_string",
            vec![("s", path("CStringPtr"))],
            None,
        ),
        exported_fn(
            docs(&["Legal: a pointer to a struct that contains a slice."]),
            "takes_holder",
            vec![("h", generic("Option", vec![arg(reference(false, path("Holder")))]))],
            None,
        ),
        alias(
            with(docs(&["Illegal: a C typedef cannot expand into a pointer and a length."]), vec![export()]),
            "AliasedSlice",
            generic("CSlice", vec![arg(payload())]),
        ),
        strukt(
            with(
                docs(&["Illegal: C would see a pointer to a pointer, not to a pointer/length pair."]),
                vec![export(), repr(&["C"])],
            ),
            "BehindPointer",
            vec![field(
                "items",
                vec![],
                generic("Option", vec![arg(reference(false, generic("CSlice", vec![arg(payload())])))]),
            )],
        ),
        strukt(
            with(docs(&["Illegal: each element is two words in Rust and one in C."]), vec![export(), repr(&["C"])]),
            "InsideArray",
            vec![field("items", vec![], array(generic("CSlice", vec![arg(payload())]), "2"))],
        ),
        enumeration(
            with(
                docs(&["Legal: a tagged union variant expands the same way a struct field does."]),
                vec![export(), repr(&["C", "u32"])],
            ),
            "Tagged",
            vec![
                variant(vec![], "None", None, Some("0")),
                variant(vec![], "Many", Some(generic("CSlice", vec![arg(payload())])), Some("1")),
            ],
        ),
        strukt(
            with(docs(&["Illegal: Rust's unit type becomes `void`, which C rejects as a field."]), vec![export(), repr(&["C"])]),
            "HasUnitField",
            vec![field("nothing", vec![], tuple())],
        ),
        exported_fn(
            with(docs(&["Illegal: a tuple has no C representation either, and becomes `void`."]), vec![export()]),
            "takes_a_tuple",
            vec![("pair", tuple())],
            None,
        ),
        strukt(
            with(docs(&["Illegal: `void x[4]` is rejected for the same reason as `void x`."]), vec![export(), repr(&["C"])]),
            "HasVoidArray",
            vec![field("items", vec![], array(tuple(), "4"))],
        ),
        exported_fn(
            with(docs(&["Legal: `void` is fine as a return type."]), vec![export()]),
            "returns_nothing",
            vec![],
            None,
        ),
        exported_fn(
            with(docs(&["Legal: a pointer to void is an ordinary C pointer."]), vec![export()]),
            "takes_void_pointer",
            vec![("p", ptr(true, path("core::ffi::c_void")))],
            None,
        ),
    ]
}

/// Generates from `root`, with the test library's dependency scanned when
/// scanning is on, as the generator's driver does.
fn generate_with(builder: TerraffiGeneratorBuilder, crate_dir: &str, root: Vec<RustItem>) -> Result<String, TerraffiError> {
    let mut generator = builder.build(crate_dir);
    let deps = if generator.config.is_scan_dependencies && crate_dir.ends_with("terraffi_testlib") {
        vec![testdeplib()]
    } else {
        vec![]
    };
    generator.generate_from(&deps, &root)
}

fn testlib_header(builder: TerraffiGeneratorBuilder) -> String {
    generate_with(builder, "tests/../terraffi_testlib", testlib()).expect("test library should generate")
}

fn unresolved_builder() -> TerraffiGeneratorBuilder {
    TerraffiGeneratorBuilder::new().disable_scan_dependencies().export_public_types()
}

fn unresolved_err(builder: TerraffiGeneratorBuilder) -> TerraffiError {
    generate_with(builder, "tests/fixtures/unresolved", unresolved_fixture()).expect_err("expected unresolved types to be rejected")
}

fn slice_err() -> TerraffiError {
    generate_with(TerraffiGeneratorBuilder::new().disable_scan_dependencies(), "tests/fixtures/slice_in_signature", slice_fixture())
        .expect_err("should fail")
}

#[test]
fn can_generate_header() {
    let header = testlib_header(TerraffiGeneratorBuilder::new());
    assert!(header.starts_with("#ifndef TERRAFFI_TESTLIB_H\n#define TERRAFFI_TESTLIB_H\n\n"));
    assert!(header.contains("#include <stdint.h>\n#include <stddef.h>\n#include <stdbool.h>\n"));
    assert!(header.contains("typedef struct example_structure {"));
    assert!(header.contains("typedef enum example_enum {"));
    assert!(header.contains("#define EXAMPLE_NO_MAX ((uint64_t)UINT64_MAX)"));
    assert!(header.contains("#define EXAMPLE_NO_MIN ((int32_t)INT32_MIN)"));
    assert!(header.contains("\u{a7}"), "non-ASCII doc text must survive");
    assert!(header.contains("#ifdef __cplusplus\nextern \"C\" {"));
    assert!(header.ends_with("\n#endif\n"));
    assert!(!header.contains("unreferenced_opaque_struct"));
}

#[test]
fn can_generate_header_with_prefix() {
    let header = testlib_header(TerraffiGeneratorBuilder::new().typename_prefix("test_"));
    assert!(header.contains("typedef struct test_example_structure {"));
    assert!(header.contains("} test_example_structure_t;"));
    assert!(header.contains("test_example_enum_e"));
}

#[test]
fn can_generate_header_with_export_macro() {
    let header = testlib_header(TerraffiGeneratorBuilder::new().export_macro("DLL_API"));
    assert!(header.contains(
        "\n#if defined _WIN32 || defined __CYGWIN__\n    #define DLL_API __declspec(dllimport)\n#elif __GNUC__ >= 4\n    #define DLL_API __attribute__ ((visibility (\"default\")))\n#else\n    #define DLL_API\n#endif\n"
    ));
    assert!(header.contains("DLL_API void param_enum("));
}

#[test]
fn can_generate_header_with_comment() {
    let header = testlib_header(
        TerraffiGeneratorBuilder::new().header_comment("This file is auto-generated.\nDo not edit manually."),
    );
    assert!(header.starts_with("/*\n * This file is auto-generated.\n * Do not edit manually.\n */\n\n#ifndef TERRAFFI_TESTLIB_H\n"));
}

#[test]
fn can_generate_header_with_pascal_case() {
    let header = testlib_header(TerraffiGeneratorBuilder::new().typename_case(Case::Pascal));
    assert!(header.contains("typedef struct ExampleStructure {"));
    assert!(header.contains("} ExampleStructureT;"));
}

#[test]
fn dependency_scanning_is_on_by_default() {
    let header = testlib_header(TerraffiGeneratorBuilder::new());
    assert!(
        header.contains("typedef struct example_dependency_struct {"),
        "expected the dependency type to be defined when scanning is enabled"
    );
}

#[test]
fn disable_scan_dependencies_alone_is_rejected() {
    let err = generate_with(TerraffiGeneratorBuilder::new().disable_scan_dependencies(), "tests/../terraffi_testlib", testlib())
        .expect_err("expected the undeclared dependency type to be rejected");
    let msg = err.to_string();
    assert!(msg.contains("ExampleDependencyStruct"), "error should name the undeclared type, got: {msg}");
}

#[test]
fn disable_scan_dependencies_omits_dependency_types() {
    let header = testlib_header(
        TerraffiGeneratorBuilder::new()
            .disable_scan_dependencies()
            .assume_declared("ExampleDependencyStruct")
            .add_include("terraffi_testdeplib.h"),
    );
    assert!(
        !header.contains("typedef struct example_dependency_struct {"),
        "dependency type was still defined after disable_scan_dependencies()"
    );
    assert!(
        header.contains("example_dependency_struct_t struct_member;"),
        "the field referencing the dependency type should still be emitted"
    );
    assert!(header.contains("#include \"terraffi_testdeplib.h\"\n"));
}

#[test]
fn default_builder_matches_new() {
    assert_eq!(TerraffiGeneratorBuilder::default(), TerraffiGeneratorBuilder::new());
    let from_default = testlib_header(TerraffiGeneratorBuilder::default());
    let from_new = testlib_header(TerraffiGeneratorBuilder::new());
    assert_eq!(from_default, from_new);
}

#[test]
fn explicitly_setting_a_default_is_a_no_op() {
    let implicit = testlib_header(TerraffiGeneratorBuilder::new());
    let explicit = testlib_header(
        TerraffiGeneratorBuilder::new()
            .add_std_includes(true)
            .export_public_functions()
            .export_only_annotated_types(),
    );
    assert_eq!(implicit, explicit);
}

#[test]
fn struct_members_use_the_right_name_form() {
    let header = testlib_header(TerraffiGeneratorBuilder::new());
    assert!(
        header.contains("    example_dependency_struct_t struct_member;"),
        "a struct member held by value should use the typedef name"
    );
    assert!(
        header.contains("    struct example_self_referential_structure* next;"),
        "a self-referential pointer should use the struct tag"
    );
    assert!(
        header.contains("    const example_structure_t* option_ref;"),
        "a pointer to an already-declared struct should use the typedef name"
    );
}

#[test]
fn mutually_recursive_structs_forward_reference_by_tag() {
    let header = testlib_header(TerraffiGeneratorBuilder::new());
    let a = header.find("typedef struct example_mutual_a {").expect("ExampleMutualA should be emitted");
    let b = header.find("typedef struct example_mutual_b {").expect("ExampleMutualB should be emitted");
    assert!(a < b, "this test assumes A is emitted first");
    assert!(header.contains("    struct example_mutual_b* peer;"), "the forward reference should use the struct tag, got:\n{header}");
    assert!(header.contains("    example_mutual_a_t* peer;"), "the backward reference should use the typedef name");
}

#[test]
fn borrowed_string_buffer_resolves_to_the_owned_struct() {
    let header = testlib_header(TerraffiGeneratorBuilder::new());
    assert!(header.contains("    c_string_buffer_t borrowed;"), "CStringBufferRef should emit the shared struct");
    assert!(header.contains("    c_string_buffer_t maybe;"), "Option<CStringBufferRef> should emit the shared struct");
    assert_eq!(header.matches("typedef struct c_string_buffer {").count(), 1, "the struct should be defined exactly once");
    assert!(!header.contains("c_string_buffer_ref"), "no separate borrowed struct should be emitted");
}

#[test]
fn each_case_renders_as_documented() {
    let renderings = [
        (Case::Snake, "example_enum_e"),
        (Case::UpperSnake, "EXAMPLE_ENUM_E"),
        (Case::Pascal, "ExampleEnumE"),
        (Case::Camel, "exampleEnumE"),
        (Case::Ada, "Example_Enum_E"),
        (Case::Flat, "exampleenume"),
        (Case::UpperFlat, "EXAMPLEENUME"),
    ];
    for (case, expected) in renderings {
        let header = testlib_header(TerraffiGeneratorBuilder::new().typename_case(case));
        assert!(header.contains(expected), "{case:?} should render `ExampleEnum` as `{expected}`");
    }
}

#[test]
fn every_case_is_a_valid_c_identifier() {
    let renderings = [
        (Case::Snake, "example_enum_e"),
        (Case::UpperSnake, "EXAMPLE_ENUM_E"),
        (Case::Pascal, "ExampleEnumE"),
        (Case::Camel, "exampleEnumE"),
        (Case::Ada, "Example_Enum_E"),
        (Case::Flat, "exampleenume"),
        (Case::UpperFlat, "EXAMPLEENUME"),
    ];
    for (case, rendered) in renderings {
        assert!(
            !rendered.is_empty()
                && !rendered.starts_with(|c: char| c.is_ascii_digit())
                && rendered.chars().all(|c| c.is_ascii_alphanumeric() || c == '_'),
            "{case:?} renders `{rendered}`, which is not a valid C identifier"
        );
    }
}

#[test]
fn all_variants_are_covered() {
    let case = Case::Snake;
    let _name = match case {
        Case::Snake => "example_enum_e",
        Case::UpperSnake => "EXAMPLE_ENUM_E",
        Case::Pascal => "ExampleEnumE",
        Case::Camel => "exampleEnumE",
        Case::Ada => "Example_Enum_E",
        Case::Flat => "exampleenume",
        Case::UpperFlat => "EXAMPLEENUME",
        #[allow(unreachable_patterns)]
        _ => unreachable!("non_exhaustive requires a wildcard from outside the crate"),
    };
    let renderings = 7;
    assert_eq!(renderings, 7, "RENDERINGS is missing a variant");
}

#[test]
fn unsupported_std_types_are_rejected_with_a_suggestion() {
    let msg = unresolved_err(unresolved_builder()).to_string();
    assert!(msg.contains("`String`"), "String not reported: {msg}");
    assert!(msg.contains("CStringBuffer"), "String suggestion missing: {msg}");
    assert!(msg.contains("`Vec`"), "Vec not reported: {msg}");
    assert!(msg.contains("CVec<T>"), "Vec suggestion missing: {msg}");
    assert!(msg.contains("`HashMap`"), "HashMap not reported: {msg}");
    assert!(msg.contains("`str`"), "str not reported: {msg}");
}

#[test]
fn error_names_the_field_or_parameter() {
    let msg = unresolved_err(unresolved_builder()).to_string();
    assert!(msg.contains("struct `BadFields`, field `owned`"), "field location missing: {msg}");
    assert!(msg.contains("function `takes_string`, parameter `s`"), "parameter location missing: {msg}");
}

#[test]
fn unknown_type_gets_the_generic_message() {
    let msg = unresolved_err(unresolved_builder()).to_string();
    assert!(msg.contains("`NoSuchType`"), "typo not reported: {msg}");
    assert!(msg.contains("Check the spelling"), "generic guidance missing: {msg}");
}

#[test]
fn opaque_handles_are_not_reported() {
    let msg = unresolved_err(unresolved_builder()).to_string();
    assert!(!msg.contains("OpaqueHandle"), "opaque handle wrongly reported: {msg}");
}

#[test]
fn assume_declared_suppresses_only_the_named_type() {
    let msg = unresolved_err(unresolved_builder().assume_declared("NoSuchType")).to_string();
    assert!(!msg.contains("NoSuchType"), "assume_declared did not suppress the type: {msg}");
    assert!(msg.contains("`String`"), "other types should remain: {msg}");
}

#[test]
fn assume_declared_for_every_type_allows_generation() {
    let header = generate_with(
        unresolved_builder()
            .assume_declared("String")
            .assume_declared("Vec")
            .assume_declared("HashMap")
            .assume_declared("str")
            .assume_declared("NoSuchType"),
        "tests/fixtures/unresolved",
        unresolved_fixture(),
    )
    .expect("all unresolved types were assumed declared");
    assert!(header.contains("takes_string"));
}

#[test]
fn allow_unresolved_types_downgrades_to_a_warning() {
    let mut generator = unresolved_builder().allow_unresolved_types().build("tests/fixtures/unresolved");
    let header = generator
        .generate_from(&vec![], &unresolved_fixture())
        .expect("generation should succeed when unresolved types are allowed");
    assert!(!header.is_empty());
    let reported = generator.unresolved_types();
    assert!(!reported.is_empty(), "expected reported unresolved types");
    assert!(reported.iter().any(|u| u.name == "String"), "String missing from reported types");
    assert!(reported.iter().any(|u| u.location.contains("takes_string")), "location missing from reported types");
}

#[test]
fn valid_crate_reports_nothing() {
    let mut generator = TerraffiGeneratorBuilder::new().allow_unresolved_types().build("tests/../terraffi_testlib");
    generator.generate_from(&vec![testdeplib()], &testlib()).expect("test library should generate");
    assert!(generator.unresolved_types().is_empty(), "unexpected unresolved types: {:?}", generator.unresolved_types());
}

#[test]
fn unresolved_types_can_be_inspected_programmatically() {
    match unresolved_err(TerraffiGeneratorBuilder::new().disable_scan_dependencies().export_public_types()) {
        TerraffiError::UnresolvedTypes(e) => {
            assert!(e.unresolved.iter().any(|u| u.name == "String"), "String missing from structured data");
            assert!(e.unresolved.iter().any(|u| u.location.contains("takes_string")), "location missing from structured data");
        }
        other => panic!("expected UnresolvedTypes, got {other:?}"),
    }
}

#[test]
fn missing_crate_dir_names_the_path() {
    let err = TerraffiError::CrateDirNotFound(s("/definitely/not/a/real/directory"));
    match &err {
        TerraffiError::CrateDirNotFound(path) => assert!(path.contains("not/a/real")),
        other => panic!("expected CrateDirNotFound, got {other:?}"),
    }
    assert!(err.to_string().contains("is not a directory"));
}

/// Errors are routinely moved across threads by build tooling.
#[test]
fn error_is_send_and_sync() {
    fn assert_send_sync<T: Send + Sync + 'static>() {}
    assert_send_sync::<TerraffiError>();
}

#[test]
fn unresolved_types_error_is_a_source() {
    let err = unresolved_err(TerraffiGeneratorBuilder::new().disable_scan_dependencies().export_public_types());
    assert!(err.source().is_some(), "expected a chained source");
}

#[test]
fn slices_in_signatures_are_rejected() {
    let err = slice_err();
    let msg = err.to_string();
    assert!(matches!(err, TerraffiError::UnrepresentableTypes(_)), "expected UnrepresentableTypes, got: {msg}");
    assert!(msg.contains("function `takes_slice_ref`, parameter `s`"), "missing the CSliceRef parameter: {msg}");
    assert!(msg.contains("function `takes_vec`, parameter `v`"), "missing the CVec parameter: {msg}");
    assert!(msg.contains("function `returns_slice`, return type"), "missing the return type: {msg}");
}

#[test]
fn the_error_suggests_a_replacement() {
    let msg = slice_err().to_string();
    assert!(msg.contains("CArrayPtr"), "no suggested replacement: {msg}");
}

#[test]
fn legal_signature_forms_are_not_reported() {
    let msg = slice_err().to_string();
    for legal in ["takes_ptr_and_len", "takes_string", "takes_holder"] {
        assert!(!msg.contains(legal), "`{legal}` should be legal, got: {msg}");
    }
}

#[test]
fn slices_remain_legal_as_struct_fields() {
    let header = testlib_header(TerraffiGeneratorBuilder::new());
    assert!(header.contains("size_t array_member_len;"));
}

#[test]
fn slice_type_aliases_are_rejected() {
    let msg = slice_err().to_string();
    assert!(msg.contains("type alias `AliasedSlice`"), "alias not reported: {msg}");
}

#[test]
fn slices_nested_inside_fields_are_rejected() {
    let msg = slice_err().to_string();
    assert!(msg.contains("struct `BehindPointer`, field `items`"), "pointer-to-slice not reported: {msg}");
    assert!(msg.contains("struct `InsideArray`, field `items`"), "array-of-slices not reported: {msg}");
}

#[test]
fn slices_remain_legal_in_tagged_union_variants() {
    let msg = slice_err().to_string();
    assert!(!msg.contains("Tagged"), "a slice in a union variant should be legal: {msg}");
}

#[test]
fn legal_positions_expand_into_adjacent_members() {
    let header = testlib_header(TerraffiGeneratorBuilder::new());
    assert!(header.contains("    int32_t* array_member;"));
    assert!(header.contains("    size_t array_member_len;"));
}

#[test]
fn bare_void_is_rejected_outside_return_position() {
    let msg = slice_err().to_string();
    assert!(msg.contains("struct `HasUnitField`, field `nothing`"), "unit field not reported: {msg}");
    assert!(msg.contains("function `takes_a_tuple`, parameter `pair`"), "tuple parameter not reported: {msg}");
    assert!(msg.contains("struct `HasVoidArray`, field `items`"), "void array not reported: {msg}");
}

#[test]
fn legal_void_positions_are_not_reported() {
    let msg = slice_err().to_string();
    assert!(!msg.contains("returns_nothing"), "void return wrongly reported: {msg}");
    assert!(!msg.contains("takes_void_pointer"), "void pointer wrongly reported: {msg}");
}

#[test]
fn failures_carry_their_reason() {
    let TerraffiError::UnrepresentableTypes(e) = slice_err() else {
        panic!("expected UnrepresentableTypes");
    };
    assert!(e.unrepresentable.iter().any(|u| u.reason == UnrepresentableReason::Void), "no void reason recorded");
    assert!(
        e.unrepresentable.iter().any(|u| u.reason == UnrepresentableReason::SliceOrVector),
        "no slice reason recorded"
    );
}

#[test]
fn ignored_items_never_reach_the_header() {
    let root = vec![
        strukt(vec![plain_attr("terraffi_ignore"), repr(&["C"])], "Hidden", vec![field("x", vec![], path("i32"))]),
        strukt(vec![repr(&["C"])], "Shown", vec![field("x", vec![], path("i32"))]),
        exported_fn(vec![plain_attr("terraffi_ignore")], "hidden_fn", vec![], None),
        exported_fn(vec![], "shown_fn", vec![], None),
    ];
    let header = generate_with(
        TerraffiGeneratorBuilder::new().disable_scan_dependencies().export_public_types(),
        "somewhere/demo",
        root,
    )
    .expect("should generate");
    assert!(header.starts_with("#ifndef DEMO_H\n#define DEMO_H\n"));
    assert!(!header.contains("hidden"));
    assert!(header.contains("typedef struct shown {"));
    assert!(header.contains("void shown_fn(void);"));
}

#[test]
fn only_annotated_functions_when_asked() {
    let root = vec![
        exported_fn(vec![export()], "annotated_fn", vec![], None),
        exported_fn(vec![], "plain_fn", vec![], None),
    ];
    let header = generate_with(
        TerraffiGeneratorBuilder::new().disable_scan_dependencies().export_only_annotated_functions(),
        "somewhere/demo",
        root,
    )
    .expect("should generate");
    assert!(header.contains("annotated_fn"));
    assert!(!header.contains("plain_fn"));
}

#[test]
fn declarations_follow_what_they_reference() {
    let header = testlib_header(TerraffiGeneratorBuilder::new());
    let at = |s: &str| header.find(s).unwrap_or_else(|| panic!("missing {s}"));
    assert!(at("typedef enum example_enum {") < at("typedef struct example_structure {"));
    assert!(at("typedef struct example_dependency_struct {") < at("typedef struct example_structure {"));
    assert!(at("typedef struct union_only_struct {") < at("#ifdef __cplusplus"));
    assert!(at("typedef struct example_structure {") < at("#ifdef __cplusplus"));
    assert!(at("void param_enum(") < at("void param_pointer("));
    assert_eq!(header.matches("typedef struct example_structure {").count(), 1);
}

#[test]
fn renamed_types_keep_their_name() {
    let header = testlib_header(TerraffiGeneratorBuilder::new().rename_type("ExampleStructure", "my_struct"));
    assert!(header.contains("} my_struct;"));
    assert!(header.contains("const my_struct* option_ref;"));
}

#[test]
fn unconvertible_items_fail_generation() {
    let root = vec![RustItem::Struct(RustStruct {
        attrs: vec![repr(&["C"])],
        is_pub: true,
        name: s("Pair"),
        fields: RustFields::Unnamed(vec![field("0", vec![], path("i32")), field("1", vec![], path("i32"))]),
    })];
    let err = generate_with(TerraffiGeneratorBuilder::new().disable_scan_dependencies(), "somewhere/demo", root)
        .expect_err("a tuple struct cannot become a C struct");
    assert!(matches!(err, TerraffiError::UnsupportedItem(_)), "got {err:?}");
}

/// Generates the header of a one-file crate made of `items`.
fn readme_header(items: Vec<RustItem>) -> String {
    generate_with(TerraffiGeneratorBuilder::new(), "tests/readme_example", items).expect("example should generate")
}

#[test]
fn readme_function_becomes_a_prototype() {
    let header = readme_header(vec![exported_fn(vec![], "example_function", vec![("foo", path("i32"))], Some(path("i32")))]);
    assert!(header.contains("int32_t example_function(int32_t foo);"));
}

#[test]
fn readme_structs_become_typedefs() {
    let header = readme_header(vec![
        strukt(
            vec![export(), repr(&["C"])],
            "ExampleStruct",
            vec![field("foo", vec![], path("i32")), field("bar", vec![], path("f32"))],
        ),
        RustItem::Struct(RustStruct {
            attrs: vec![export(), repr(&["transparent"])],
            is_pub: true,
            name: s("ExampleTransparentStruct"),
            fields: RustFields::Unnamed(vec![field("0", vec![], array(path("u8"), "16"))]),
        }),
    ]);
    assert!(header.contains("typedef struct example_struct {\n    int32_t foo;\n    float bar;\n}"));
    assert!(header.contains("typedef uint8_t example_transparent_struct_t[16];"));
}

#[test]
fn readme_enums_keep_their_values() {
    let header = readme_header(vec![enumeration(
        vec![export(), repr(&["C"])],
        "ExampleEnum",
        vec![
            variant(vec![], "None", None, Some("0")),
            variant(vec![], "Foo", None, Some("1")),
            variant(vec![], "Bar", None, Some("2")),
        ],
    )]);
    assert!(header.contains(
        "typedef enum example_enum {\n    EXAMPLE_ENUM_NONE = 0,\n    EXAMPLE_ENUM_FOO = 1,\n    EXAMPLE_ENUM_BAR = 2\n} example_enum_e;"
    ));
}

#[test]
fn readme_enums_with_data_become_tagged_unions() {
    let header = readme_header(vec![enumeration(
        vec![export(), repr(&["C", "u32"])],
        "Value",
        vec![
            variant(vec![], "None", None, Some("0")),
            variant(vec![], "Foo", Some(path("u32")), Some("1")),
            variant(vec![], "Bar", Some(path("f32")), Some("2")),
        ],
    )]);
    assert!(header.contains(
        "typedef enum value_kind {\n    VALUE_KIND_NONE = 0,\n    VALUE_KIND_FOO = 1,\n    VALUE_KIND_BAR = 2\n} value_kind_e;"
    ));
    assert!(header.contains(
        "typedef struct value {\n    value_kind_e kind;\n    union {\n        uint32_t foo;\n        float bar;\n    };\n} value_t;"
    ));
}

#[test]
fn readme_bitflags_become_a_typedef_and_defines() {
    let header = testlib_header(TerraffiGeneratorBuilder::new());
    assert!(header.contains("typedef uint32_t example_flags_t;\n"));
    assert!(header.contains("#define EXAMPLE_FLAGS_FOO ((example_flags_t)0x1)\n"));
    assert!(header.contains("#define EXAMPLE_FLAGS_BAR ((example_flags_t)0x2)\n"));
    assert!(header.contains("#define EXAMPLE_FLAGS_BAZ ((example_flags_t)0x4)\n"));
}

#[test]
fn readme_opaque_types_are_forward_declared() {
    let header = readme_header(vec![
        unit_strukt(vec![], "OpaqueStruct"),
        exported_fn(
            vec![],
            "use_opaque",
            vec![("p", generic("Option", vec![arg(reference(false, path("OpaqueStruct")))]))],
            None,
        ),
    ]);
    assert!(header.contains("typedef struct opaque_struct opaque_struct_t;"));
    assert!(header.contains("void use_opaque(const opaque_struct_t* p);"));
    assert!(!header.contains("typedef struct opaque_struct {"));
}

#[test]
fn readme_pointer_forms_map_onto_c_pointers() {
    let payload = || path("Payload");
    let header = readme_header(vec![
        strukt(vec![repr(&["C"])], "Payload", vec![field("id", vec![], path("u32"))]),
        strukt(
            vec![export(), repr(&["C"])],
            "Holder",
            vec![
                field("a", vec![], ptr(true, payload())),
                field("b", vec![], ptr(false, payload())),
                field("c", vec![], generic("Option", vec![arg(reference(false, payload()))])),
                field("d", vec![], generic("RefPtr", vec![lifetime(), arg(payload())])),
                field("e", vec![], generic("Option", vec![arg(reference(true, payload()))])),
                field("f", vec![], generic("MutRefPtr", vec![lifetime(), arg(payload())])),
                field("g", vec![], generic("Option", vec![arg(generic("Box", vec![arg(payload())]))])),
                field("h", vec![], generic("BoxPtr", vec![arg(payload())])),
            ],
        ),
    ]);
    for line in [
        "    const payload_t* a;\n",
        "    payload_t* b;\n",
        "    const payload_t* c;\n",
        "    const payload_t* d;\n",
        "    payload_t* e;\n",
        "    payload_t* f;\n",
        "    payload_t* g;\n",
        "    payload_t* h;\n",
    ] {
        assert!(header.contains(line), "missing {:?}", line);
    }
}

#[test]
fn readme_self_reference_goes_through_the_struct_tag() {
    let header = readme_header(vec![strukt(
        vec![export(), repr(&["C"])],
        "Node",
        vec![
            field("value", vec![], path("i32")),
            field("next", vec![], generic("Option", vec![arg(generic("Box", vec![arg(path("Node"))]))])),
        ],
    )]);
    assert!(header.contains("typedef struct node {\n    int32_t value;\n    struct node* next;\n} node_t;"));
}

#[test]
fn readme_doc_comments_become_doxygen() {
    let header = testlib_header(TerraffiGeneratorBuilder::new());
    assert!(header.contains(
        "/** Accepts a const pointer to a tagged union.\n *\n * @param p A non-null const pointer to an @ref ExampleDataEnumWithValues.\n *\n * @return A 32-bit integer status code. Returns `0` on success.\n */\nint32_t param_tagged_union(const example_data_enum_with_values_t* p);"
    ));
}

#[test]
fn section_headings_match_in_any_case() {
    let header = readme_header(vec![exported_fn(
        docs(&["Adds one.", "", "# PARAMETERS", "- `x`: The input.", "", "# Return Value", "The input plus one."]),
        "add_one",
        vec![("x", path("i32"))],
        Some(path("i32")),
    )]);
    assert!(header.contains(
        "/** Adds one.\n *\n * @param x The input.\n *\n * @return The input plus one.\n */\nint32_t add_one(int32_t x);"
    ));
}

const EXAMPLE_SOURCE: &str = r#"
use terraffi::{CSlice, CStringPtr};

mod inner;

/// A point.
#[repr(C)]
pub struct Payload {
    /// Its id.
    pub id: u32,
    pub items: CSlice<i32>,
    pub next: Option<Box<Payload>>,
}

#[repr(C, u32)]
pub enum Value {
    None = 0,
    Foo(u32) = 1,
    Bar(f32) = 2,
}

bitflags! {
    /// Some flags.
    #[repr(transparent)]
    #[derive(Debug, Copy, Clone)]
    pub struct ExampleFlags: u32 {
        /// The first.
        const Foo = 0b00000001;
        const Bar = 0b00000010;
    }
}

/// No maximum.
#[terraffi_export]
pub const EXAMPLE_NO_MAX: u64 = u64::MAX;

pub struct OpaqueStruct;

/// Uses things.
///
/// # Parameters
/// - `p`: A [`Payload`].
///
/// # Returns
/// A status.
#[unsafe(no_mangle)]
pub extern "C" fn use_things(p: *const Payload, v: Option<&OpaqueStruct>, f: ExampleFlags, w: *mut Value, s: Option<CStringPtr>) -> i32 {
    0
}
"#;

#[test]
fn source_text_parses_into_the_model() {
    let items = items_of_source("src/lib.rs", EXAMPLE_SOURCE).expect("example parses");
    assert!(matches!(&items[0], RustItem::Other));
    assert!(matches!(&items[1], RustItem::ModDecl(n) if n == "inner"));
    match &items[2] {
        RustItem::Struct(s) => {
            assert_eq!(s.name, "Payload");
            assert!(s.is_pub);
            assert_eq!(s.attrs.len(), 2);
            assert_eq!(s.attrs[1].path_ident.as_deref(), Some("repr"));
            match &s.fields {
                RustFields::Named(fs) => {
                    assert_eq!(fs.len(), 3);
                    assert_eq!(fs[0].name, "id");
                }
                _ => panic!("expected named fields"),
            }
        }
        _ => panic!("expected a struct"),
    }
    match &items[3] {
        RustItem::Enum(e) => {
            assert_eq!(e.variants.len(), 3);
            assert_eq!(e.variants[1].discriminant.as_deref(), Some("1"));
            assert!(matches!(&e.variants[1].fields, RustFields::Unnamed(fs) if fs.len() == 1 && fs[0].name.is_empty()));
        }
        _ => panic!("expected an enum"),
    }
    assert!(matches!(&items[4], RustItem::Macro(m) if m.path_ident.as_deref() == Some("bitflags")));
    match &items[7] {
        RustItem::Fn(f) => {
            assert_eq!(f.abi.as_deref(), Some("C"));
            assert_eq!(f.params.len(), 5);
            assert!(f.output.is_some());
        }
        _ => panic!("expected a function"),
    }
}

#[test]
fn source_text_generates_a_header() {
    let mut items = items_of_source("src/lib.rs", EXAMPLE_SOURCE).expect("example parses");
    items.retain(|i| !matches!(i, RustItem::ModDecl(_)));
    let header = readme_header(items);
    assert!(header.contains("#define EXAMPLE_NO_MAX ((uint64_t)UINT64_MAX)"));
    assert!(header.contains("typedef uint32_t example_flags_t;\n/** The first. */\n#define EXAMPLE_FLAGS_FOO ((example_flags_t)0x1)\n"));
    assert!(header.contains("#define EXAMPLE_FLAGS_BAR ((example_flags_t)0x2)\n"));
    assert!(header.contains("typedef struct opaque_struct opaque_struct_t;"));
    assert!(header.contains("    /** Its id. */\n    uint32_t id;\n"));
    assert!(header.contains("    int32_t* items;\n"));
    assert!(header.contains("    size_t items_len;\n"));
    assert!(header.contains("    struct payload* next;\n"));
    assert!(header.contains(
        "typedef struct value {\n    value_kind_e kind;\n    union {\n        uint32_t foo;\n        float bar;\n    };\n} value_t;"
    ));
    assert!(header.contains(" * @param p A @ref Payload.\n *\n * @return A status.\n */\n"));
    assert!(header.contains(
        "int32_t use_things(const payload_t* p, const opaque_struct_t* v, example_flags_t f, value_t* w, const char* s);"
    ));
}

#[test]
fn unparsable_source_names_the_file() {
    match items_of_source("src/broken.rs", "pub struct {") {
        Err(TerraffiError::ParseSource { path, message }) => {
            assert_eq!(path, "src/broken.rs");
            assert!(!message.is_empty());
        }
        other => panic!("expected a parse error, got {:?}", other.map(|v| v.len())),
    }
}

#[test]
fn equal_positions_keep_their_place_in_the_items() {
    let header = readme_header(vec![
        strukt(vec![export(), repr(&["C"])], "First", vec![field("x", vec![], path("i32"))]),
        exported_fn(vec![], "take_buffer", vec![("b", path("CStringBuffer"))], None),
    ]);
    let first = header.find("typedef struct first {").expect("first is declared");
    let buffer = header.find("typedef struct c_string_buffer {").expect("the buffer is declared");
    assert!(first < buffer);
}
