//! The pieces of header generation on their own: literals, types, docs,
//! names and validation messages.

use terraffi::builder::TerraffiGeneratorBuilder;
use terraffi::ctype::CType;
use terraffi::doc::{convert_rust_links_to_doxygen, CDoc};
use terraffi::literal::{rust_literal_to_c, rust_literal_tokens_to_c};
use terraffi::syntax::RustToken;
use terraffi::validate::suggestion_for;

fn chars(s: &str) -> Vec<char> {
    s.chars().collect()
}

fn text(v: &[char]) -> String {
    v.iter().collect()
}

#[test]
fn integer_literals_become_c_literals() {
    assert_eq!(rust_literal_to_c("0x1u32"), "0x1");
    assert_eq!(rust_literal_to_c("0b0001"), "0x1");
    assert_eq!(rust_literal_to_c("0b1010_1010"), "0xAA");
    assert_eq!(rust_literal_to_c("1_000_000"), "1000000");
    assert_eq!(rust_literal_to_c("42"), "42");
    assert_eq!(rust_literal_to_c("0xFF_u8"), "0xFF");
}

#[test]
fn constant_expressions_become_c_expressions() {
    let limit = vec![
        RustToken::Ident("u64".to_string()),
        RustToken::Punct(':'),
        RustToken::Punct(':'),
        RustToken::Ident("MAX".to_string()),
    ];
    assert_eq!(rust_literal_tokens_to_c(&limit), "UINT64_MAX");
    let min = vec![
        RustToken::Ident("i32".to_string()),
        RustToken::Punct(':'),
        RustToken::Punct(':'),
        RustToken::Ident("MIN".to_string()),
    ];
    assert_eq!(rust_literal_tokens_to_c(&min), "INT32_MIN");
    assert_eq!(rust_literal_tokens_to_c(&[RustToken::Literal("0b100".to_string())]), "0x4");
    assert_eq!(rust_literal_tokens_to_c(&[RustToken::Punct('!'), RustToken::Literal("0u8".to_string())]), "!0");
}

#[test]
fn type_names_map_to_c_types() {
    let cfg = TerraffiGeneratorBuilder::new().into_config();
    assert_eq!(CType::from_str("i32").unwrap().format(&cfg), "int32_t");
    assert_eq!(CType::from_str("usize").unwrap().format(&cfg), "size_t");
    assert_eq!(CType::from_str("c_char").unwrap().format(&cfg), "char");
    assert_eq!(CType::from_str("CStringPtr").unwrap().format(&cfg), "const char*");
    assert_eq!(CType::from_str("CStringPtrMut").unwrap().format(&cfg), "char*");
    // Not declared yet: named through its struct tag.
    assert_eq!(CType::from_str("MyType").unwrap().format(&cfg), "struct my_type");
    let declared = TerraffiGeneratorBuilder::new().assume_declared("MyType").into_config();
    assert_eq!(CType::from_str("MyType").unwrap().format(&declared), "my_type");
}

#[test]
fn suggestions_name_the_replacement() {
    assert_eq!(
        suggestion_for("Vec").as_deref(),
        Some("use `CVec<T>` for an owned buffer, or `CSlice<T>` / `CSliceRef<T>` for a borrowed one")
    );
    assert_eq!(
        suggestion_for("PathBuf").as_deref(),
        Some("use `CStringBuffer` for an owned string, or `CStringPtr` for a borrowed one")
    );
    assert_eq!(suggestion_for("Box").as_deref(), Some("use `BoxPtr<T>` for an owned pointer, or `CHandle<T>` for an opaque handle"));
    assert_eq!(suggestion_for("u32"), None);
}

#[test]
fn rust_links_become_doxygen_references() {
    assert_eq!(convert_rust_links_to_doxygen("See [`Foo`]."), "See @ref Foo.");
    assert_eq!(convert_rust_links_to_doxygen("[`Foo::bar`]"), "@ref Foo::bar");
    assert_eq!(convert_rust_links_to_doxygen("a [link](`path::to`) b"), "a link (@ref path::to) b");
    assert_eq!(convert_rust_links_to_doxygen("plain [text] \u{a7}"), "plain [text] \u{a7}");
}

#[test]
fn short_docs_fit_on_one_line() {
    let mut w: Vec<char> = Vec::new();
    CDoc::from_text("A brief.".to_string()).emit_doxygen(&mut w, "    ");
    assert_eq!(text(&w), "    /** A brief. */\n");
    let mut w: Vec<char> = Vec::new();
    CDoc::from_text(String::new()).emit_doxygen(&mut w, "");
    assert!(w.is_empty());
}
