//! Tests of the registry-key derivation from a path.

use render_text_desktop::name::derive_font_name;

#[test]
fn stem_of_a_plain_file_name() {
    assert_eq!(derive_font_name("Foo.ttf"), "Foo");
    assert_eq!(derive_font_name("Foo"), "Foo");
    assert_eq!(derive_font_name("foo."), "foo");
}

#[test]
fn stem_of_a_nested_path() {
    assert_eq!(derive_font_name("fonts/Foo.ttf"), "Foo");
    assert_eq!(derive_font_name("/abs/path/Font Name.otf"), "Font Name");
    assert_eq!(derive_font_name("a/b/c.d.e"), "c.d");
}

#[test]
fn leading_dot_starts_the_name_not_an_extension() {
    assert_eq!(derive_font_name(".bashrc"), ".bashrc");
    assert_eq!(derive_font_name("dir/.hidden.ttf"), ".hidden");
}

#[test]
fn trailing_separators_and_dot_components_are_ignored() {
    assert_eq!(derive_font_name("dir/"), "dir");
    assert_eq!(derive_font_name("a/b.ttf/"), "b");
    assert_eq!(derive_font_name("x/."), "x");
    assert_eq!(derive_font_name("a//"), "a");
    assert_eq!(derive_font_name("a/././"), "a");
}

#[test]
fn unusable_paths_fall_back_to_unknown_font() {
    assert_eq!(derive_font_name(""), "Unknown Font");
    assert_eq!(derive_font_name("."), "Unknown Font");
    assert_eq!(derive_font_name("/"), "Unknown Font");
    assert_eq!(derive_font_name(".."), "Unknown Font");
    assert_eq!(derive_font_name("dir/.."), "Unknown Font");
}

#[test]
fn non_ascii_stems_are_kept() {
    assert_eq!(derive_font_name("fonts/Schrift\u{00E4}.ttf"), "Schrift\u{00E4}");
}
