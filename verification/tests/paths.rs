use hostsync::path::remote_directories;
use hostsync::path::remote_parent;
use hostsync::path::temporary_path;

#[test]
fn parents_stand_before_the_last_slash() {
    assert_eq!(remote_parent("/etc/app/conf"), Some("/etc/app"));
    assert_eq!(remote_parent("a/b"), Some("a"));
    assert_eq!(remote_parent("a/b/"), Some("a/b"));
    assert_eq!(remote_parent("a//b"), Some("a/"));
    assert_eq!(remote_parent("é/中/x"), Some("é/中"));
}

#[test]
fn parent_of_a_top_level_file_is_the_root() {
    assert_eq!(remote_parent("/file"), Some("/"));
    assert_eq!(remote_parent("/"), Some("/"));
}

#[test]
fn bare_names_have_no_parent() {
    assert_eq!(remote_parent("file"), None);
    assert_eq!(remote_parent(""), None);
}

#[test]
fn temporary_file_lies_beside_the_destination() {
    for dest in ["/a/b", "b", "/b", "x/"] {
        let temporary = temporary_path(dest);
        assert_eq!(temporary, format!("{dest}.tmp"));
        assert_eq!(remote_parent(&temporary), remote_parent(dest));
        assert_ne!(temporary, dest);
    }
}

#[test]
fn directories_come_outermost_first() {
    assert_eq!(remote_directories("/a/b/c"), vec!["/a", "/a/b", "/a/b/c"]);
    assert_eq!(remote_directories("a/b"), vec!["a", "a/b"]);
}

#[test]
fn directories_skip_empty_pieces_and_dots() {
    assert_eq!(remote_directories("//a/./b//"), vec!["/a", "/a/b"]);
    assert_eq!(remote_directories("./a"), vec!["a"]);
    assert_eq!(remote_directories("a/../b"), vec!["a", "a/..", "a/../b"]);
    assert_eq!(remote_directories("/..a/.b"), vec!["/..a", "/..a/.b"]);
}

#[test]
fn directories_do_not_depend_on_the_spelling() {
    for (a, b) in [("a", "b"), ("/x/y", "z"), ("", "b"), ("..", "")] {
        let plain = remote_directories(&format!("{a}/{b}"));
        assert_eq!(remote_directories(&format!("{a}//{b}")), plain);
        assert_eq!(remote_directories(&format!("{a}/./{b}")), plain);
        assert_eq!(remote_directories(&format!("{a}/")), remote_directories(a));
    }
}

#[test]
fn nothing_and_the_root_need_no_directories() {
    assert!(remote_directories("").is_empty());
    assert!(remote_directories("/").is_empty());
    assert!(remote_directories("///").is_empty());
    assert!(remote_directories(".").is_empty());
}

#[test]
fn directories_are_never_longer_than_the_path() {
    for path in ["/a/b", "a", "//a//b//", "./x/./y", "/."] {
        for directory in remote_directories(path) {
            assert!(directory.len() <= path.len(), "{directory} in {path}");
        }
    }
}
