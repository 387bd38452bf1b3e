use merlon::text::{extension, file_name, file_stem, join, trim, with_extension};

#[test]
fn file_name_of_nested_path() {
    assert_eq!(file_name("a/b/c.txt"), "c.txt");
}

#[test]
fn file_name_of_bare_name() {
    assert_eq!(file_name("name"), "name");
}

#[test]
fn file_name_of_trailing_slash_is_empty() {
    assert_eq!(file_name("a/b/"), "");
}

#[test]
fn file_stem_takes_last_dot() {
    assert_eq!(file_stem("a/b/c.tar.gz"), "c.tar");
}

#[test]
fn file_stem_of_dotfile_is_whole_name() {
    assert_eq!(file_stem("/x/.hidden"), ".hidden");
}

#[test]
fn file_stem_without_extension() {
    assert_eq!(file_stem("dir/noext"), "noext");
}

#[test]
fn extension_of_merlon_path() {
    assert_eq!(extension("a/b/c.merlon"), "merlon");
}

#[test]
fn extension_absent_is_empty() {
    assert_eq!(extension("a/b/c"), "");
}

#[test]
fn extension_ignores_dot_in_directory() {
    assert_eq!(extension("a.b/c"), "");
}

#[test]
fn join_inserts_separator() {
    assert_eq!(join("a", "b"), "a/b");
}

#[test]
fn join_keeps_existing_separator() {
    assert_eq!(join("a/", "b"), "a/b");
}

#[test]
fn with_extension_appends() {
    assert_eq!(with_extension("dir/name", "merlon"), "dir/name.merlon");
}

#[test]
fn with_extension_replaces() {
    assert_eq!(with_extension("dir/name.zip", "merlon"), "dir/name.merlon");
}

#[test]
fn trim_strips_both_ends() {
    assert_eq!(trim("  hi \n"), "hi");
}

#[test]
fn trim_of_whitespace_is_empty() {
    assert_eq!(trim("\r\n \t"), "");
}

#[test]
fn trim_keeps_inner_whitespace() {
    assert_eq!(trim(" a b "), "a b");
}
