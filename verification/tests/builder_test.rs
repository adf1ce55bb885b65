//! The generator's options, and the pieces of generation on their own.

use terraffi::builder::TerraffiGeneratorBuilder;
use terraffi::deps::{DependencyCandidate, dependency_source_dirs};
use terraffi::items::CMacro;

#[test]
fn setting_a_default_leaves_the_builder_unchanged() {
    assert_eq!(TerraffiGeneratorBuilder::new().add_std_includes(true), TerraffiGeneratorBuilder::new());
    assert_eq!(TerraffiGeneratorBuilder::new().export_public_functions(), TerraffiGeneratorBuilder::new());
    assert_eq!(TerraffiGeneratorBuilder::new().export_only_annotated_types(), TerraffiGeneratorBuilder::new());
    assert_ne!(TerraffiGeneratorBuilder::new().disable_scan_dependencies(), TerraffiGeneratorBuilder::new());
}

#[test]
fn builder_defaults_reach_the_configuration() {
    let g = TerraffiGeneratorBuilder::new().build("/some/where/my_crate");
    assert_eq!(g.header_guard, "MY_CRATE_H");
    // The stem drops the extension; the dots left become underscores.
    let g2 = TerraffiGeneratorBuilder::new().build("/some/where/my.lib.v2");
    assert_eq!(g2.header_guard, "MY_LIB_H");
    assert_eq!(g.config.struct_suffix, "_t");
    assert_eq!(g.config.enum_suffix, "_e");
    assert_eq!(g.config.discriminated_union_tag_typename_suffix, "Kind");
    assert!(g.config.is_scan_dependencies);
    assert!(g.config.is_export_public_functions);
    assert!(!g.config.is_export_public_types);
    let g = TerraffiGeneratorBuilder::new().header_guard("MINE_H").build("/x/y");
    assert_eq!(g.header_guard, "MINE_H");
}

#[test]
fn later_renames_win() {
    let g = TerraffiGeneratorBuilder::new()
        .rename_type("CStringBuffer", "first_t")
        .rename_type("CStringBuffer", "second_t")
        .build("/x/y");
    assert_eq!(g.config.format_type_name("CStringBuffer"), "second_t");
    assert_eq!(g.config.format_type_name("Other"), "other");
}

#[test]
fn macros_read_from_their_text() {
    let m = CMacro::from_definition("/** Doubles. */ #define TWICE(x) ((x) * 2)");
    assert_eq!(m.name, "TWICE(x)");
    assert_eq!(m.definition, "((x) * 2)");
    assert_eq!(m.doc.brief.as_deref(), Some("Doubles."));
    let m = CMacro::from_definition("#define LIMIT 10");
    assert_eq!(m.name, "LIMIT");
    assert_eq!(m.definition, "10");
    assert!(m.doc.brief.is_none());
    let m = CMacro::new("MY_HELPER(x)", "Doc comment rendered above the macro.", " ((x) * 2)");
    assert_eq!(m.name, "MY_HELPER(x)");
    assert_eq!(m.definition, " ((x) * 2)");
}

#[test]
fn only_local_dependencies_with_sources_are_scanned() {
    let cand = |name: &str, found: bool, local: bool, exists: bool| DependencyCandidate {
        name: name.to_string(),
        package_found: found,
        is_local: local,
        src_dir: format!("/deps/{name}/src"),
        src_dir_exists: exists,
    };
    let candidates = vec![
        cand("terraffi_ctypes", true, true, true),
        cand("mine", true, true, true),
        cand("skipped", true, true, true),
        cand("from_registry", true, false, true),
        cand("no_sources", true, true, false),
        cand("unknown", false, true, true),
        cand("other", true, true, true),
    ];
    let g = TerraffiGeneratorBuilder::new().exclude_crate("skipped").build("/x/y");
    assert_eq!(dependency_source_dirs(&candidates, &g.config), vec!["/deps/mine/src", "/deps/other/src"]);
}
