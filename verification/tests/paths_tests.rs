use fslinkmanager::paths::{absolute_path, begins_at_root, join, parent};

#[test]
fn absolute_paths_begin_at_the_root() {
    assert!(begins_at_root("/"));
    assert!(begins_at_root("/tmp/a"));
    assert!(!begins_at_root("tmp/a"));
    assert!(!begins_at_root(""));
    assert!(!begins_at_root("./a"));
}

#[test]
fn join_puts_one_separator_between() {
    assert_eq!(join("/tmp/a", "file.txt"), "/tmp/a/file.txt");
    assert_eq!(join("/tmp/a/", "file.txt"), "/tmp/a/file.txt");
    assert_eq!(join("/", ".fslink"), "/.fslink");
    assert_eq!(join("", "file.txt"), "file.txt");
    assert_eq!(join("/tmp/a", ""), "/tmp/a/");
    assert_eq!(join("/home/ü", "é"), "/home/ü/é");
}

#[test]
fn join_keeps_an_absolute_name() {
    assert_eq!(join("/tmp/a", "/etc/hosts"), "/etc/hosts");
}

#[test]
fn absolute_path_keeps_an_absolute_path() {
    assert_eq!(absolute_path("/tmp/a/file.txt", "/home/user"), "/tmp/a/file.txt");
}

#[test]
fn absolute_path_goes_below_the_current_directory() {
    assert_eq!(absolute_path("file.txt", "/home/user"), "/home/user/file.txt");
    assert_eq!(absolute_path("a/file.txt", "/"), "/a/file.txt");
}

#[test]
fn parent_cuts_the_last_component() {
    assert_eq!(parent("/tmp/a/file.txt"), Some("/tmp/a".to_string()));
    assert_eq!(parent("/tmp/a"), Some("/tmp".to_string()));
    assert_eq!(parent("/tmp"), Some("/".to_string()));
    assert_eq!(parent("/home/ü/é"), Some("/home/ü".to_string()));
}

#[test]
fn root_has_no_parent() {
    assert_eq!(parent("/"), None);
    assert_eq!(parent(""), None);
    assert_eq!(parent("name"), None);
}

#[test]
fn walk_to_the_root_ends() {
    let mut at = "/a/b/c/d".to_string();
    let mut steps = 0;
    while let Some(up) = parent(&at) {
        assert!(up.chars().count() < at.chars().count());
        at = up;
        steps += 1;
    }
    assert_eq!(at, "/");
    assert_eq!(steps, 4);
}
