use hsl::fs::{get_file_extension, get_file_stem, get_garbage_base, strip_extension};

#[test]
fn test_get_file_extension() {
    assert_eq!(get_file_extension("foot.txt"), ".txt");
    assert_eq!(get_file_extension("base/foot.hs"), ".hs");
}

#[test]
fn test_strip_file_extension() {
    assert_eq!(strip_extension("foot.txt"), "foot");
    assert_eq!(strip_extension("base/foot.hs"), "base/foot");
}

#[test]
fn extensions_at_the_edges() {
    assert_eq!(get_file_extension(""), "");
    assert_eq!(get_file_extension("foot"), "");
    assert_eq!(get_file_extension("a.b.c"), ".c");
    assert_eq!(get_file_extension("foot."), ".");
    assert_eq!(get_file_extension(".hidden"), ".hidden");
    assert_eq!(get_file_extension("dir.d/foot"), ".d/foot");
    assert_eq!(get_file_extension("héllo.wörld"), ".wörld");
    assert_eq!(strip_extension(""), "");
    assert_eq!(strip_extension("foot"), "foot");
    assert_eq!(strip_extension("a.b.c"), "a.b");
    assert_eq!(strip_extension(".hidden"), "");
    assert_eq!(strip_extension("héllo.wörld"), "héllo");
}

#[test]
fn test_get_garbage_base() {
    assert_eq!(get_garbage_base("foot.txt"), Some(".build".to_string()));
    assert_eq!(
        get_garbage_base("base/foot.hs"),
        Some("base/.build".to_string())
    );
}

#[test]
fn the_empty_path_has_no_directory() {
    assert_eq!(get_garbage_base(""), None);
    assert_eq!(get_file_stem(""), None);
}

#[test]
fn file_stems() {
    assert_eq!(get_file_stem("foot.txt"), Some("foot"));
    assert_eq!(get_file_stem("base/foot.hs"), Some("foot"));
    assert_eq!(get_file_stem("base/foot"), Some("foot"));
}
