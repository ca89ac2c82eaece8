use glif_print::paths::has_glif_extension;

#[test]
fn plain_glif_file_is_accepted() {
    assert!(has_glif_extension("foo.glif"));
    assert!(has_glif_extension("dir/a.glif"));
    assert!(has_glif_extension("a.b.glif"));
    assert!(has_glif_extension("deep/er/path/x.glif"));
}

#[test]
fn other_extensions_are_rejected() {
    assert!(!has_glif_extension("foo.txt"));
    assert!(!has_glif_extension("foo.glif.bak"));
    assert!(!has_glif_extension("fooglif"));
    assert!(!has_glif_extension("foo.GLIF"));
}

#[test]
fn hidden_files_without_stem_are_rejected() {
    assert!(!has_glif_extension(".glif"));
    assert!(!has_glif_extension("dir/.glif"));
}

#[test]
fn degenerate_paths_are_rejected() {
    assert!(!has_glif_extension(""));
    assert!(!has_glif_extension("foo"));
    assert!(!has_glif_extension("dir.glif/file"));
    assert!(!has_glif_extension("foo."));
}
