use wasm_glue::harness::Project;
use wasm_glue::name_map::NameMapper;

#[test]
fn identity_mapper_returns_names_unchanged() {
    let m = NameMapper::identity();
    assert_eq!(m.export_name("greet"), "greet");
    assert_eq!(m.import_name("log"), "log");
    assert_eq!(m.orig_export_name("greet"), "greet");
    assert_eq!(m.orig_import_name("log"), "log");
}

#[test]
fn recorded_renames_round_trip() {
    let mut m = NameMapper::identity();
    assert!(m.add_export_mapping("greet".to_string(), "a".to_string()));
    assert!(m.add_export_mapping("frob".to_string(), "b".to_string()));
    assert!(m.add_import_mapping("log".to_string(), "c".to_string()));
    assert_eq!(m.export_name("greet"), "a");
    assert_eq!(m.export_name("frob"), "b");
    assert_eq!(m.orig_export_name("a"), "greet");
    assert_eq!(m.orig_export_name("b"), "frob");
    assert_eq!(m.import_name("log"), "c");
    assert_eq!(m.orig_import_name("c"), "log");
    // Unknown names fall through unchanged.
    assert_eq!(m.export_name("other"), "other");
}

#[test]
fn duplicate_renames_are_refused() {
    let mut m = NameMapper::identity();
    assert!(m.add_export_mapping("x".to_string(), "a".to_string()));
    assert!(!m.add_export_mapping("x".to_string(), "b".to_string()));
    assert!(!m.add_export_mapping("y".to_string(), "a".to_string()));
    assert_eq!(m.export_name("x"), "a");
    assert_eq!(m.export_name("y"), "y");
}

#[test]
fn project_builder_accumulates_files_and_flags() {
    let mut p = Project::new();
    assert!(p.debug);
    assert!(!p.uglify);
    assert!(p.files.is_empty());
    p.file("Cargo.toml", "[package]");
    p.file("src/lib.rs", "fn main() {}");
    p.debug(false);
    p.uglify(true);
    assert_eq!(p.files.len(), 2);
    assert_eq!(p.files[0].0, "Cargo.toml");
    assert_eq!(p.files[1].1, "fn main() {}");
    assert!(!p.debug);
    assert!(p.uglify);
}
