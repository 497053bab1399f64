use mktool::cache::{parse_dump_line, ExistenceCache, OwnershipIndex};
use std::cell::RefCell;

fn entry(path: &str, package: &str) -> Option<(String, String)> {
    Some((path.to_string(), package.to_string()))
}

#[test]
fn dump_line_names_a_path_and_a_package() {
    assert_eq!(
        parse_dump_line("file: /opt/pkg/lib/libfoo.so pkg: libfoo-1.0"),
        entry("/opt/pkg/lib/libfoo.so", "libfoo-1.0")
    );
}

#[test]
fn dump_line_path_ends_at_the_last_marker() {
    assert_eq!(
        parse_dump_line("file: /opt/a pkg: b/c pkg: real-2.0"),
        entry("/opt/a pkg: b/c", "real-2.0")
    );
    assert_eq!(
        parse_dump_line("file: /opt/my file.txt pkg: foo-1"),
        entry("/opt/my file.txt", "foo-1")
    );
    assert_eq!(parse_dump_line("file:  /a  pkg: foo-1"), entry(" /a ", "foo-1"));
}

#[test]
fn dump_line_package_is_the_last_word() {
    assert_eq!(parse_dump_line("file: /a pkg: foo-1 bar-2"), entry("/a", "bar-2"));
    assert_eq!(parse_dump_line("file: /a pkg:    foo-1  \t"), entry("/a", "foo-1"));
}

#[test]
fn other_lines_are_skipped() {
    for line in [
        "",
        "file: /a",
        "file: /a pkg:",
        "file: /a pkg: ",
        "file: /a pkg:foo",
        "file: pkg: foo",
        "file:  pkg: foo",
        "File: /a pkg: foo",
        " file: /a pkg: foo",
        "pkg: foo file: /a",
        "/a pkg: foo",
        "Information for foo-1.0:",
    ] {
        assert_eq!(parse_dump_line(line), None, "{:?}", line);
    }
}

#[test]
fn index_reads_a_dump_and_keeps_the_first_owner() {
    let mut index = OwnershipIndex::new();
    assert!(index.is_empty());
    assert_eq!(index.lookup("/a"), None);
    index.populate(
        "Files of the packages:\nfile: /a pkg: one-1\r\nfile: /b pkg: two-2\n\nfile: /a pkg: three-3\nfile: /c",
    );
    assert!(!index.is_empty());
    assert_eq!(index.lookup("/a"), Some(Some("one-1".to_string())));
    assert_eq!(index.lookup("/b"), Some(Some("two-2".to_string())));
    assert_eq!(index.lookup("/c"), None);
}

#[test]
fn index_never_overwrites() {
    let mut index = OwnershipIndex::new();
    index.record("/a", None);
    index.record("/a", Some("late-1".to_string()));
    index.record("/b", Some("first-1".to_string()));
    index.record("/b", None);
    index.populate("file: /a pkg: dump-1\nfile: /b pkg: dump-1\nfile: /c pkg: dump-1\n");
    assert_eq!(index.lookup("/a"), Some(None));
    assert_eq!(index.lookup("/b"), Some(Some("first-1".to_string())));
    assert_eq!(index.lookup("/c"), Some(Some("dump-1".to_string())));
}

#[test]
fn empty_dump_leaves_the_index_empty() {
    let mut index = OwnershipIndex::new();
    index.populate("");
    assert!(index.is_empty());
    index.populate("nothing of use\n");
    assert!(index.is_empty());
}

#[test]
fn existence_cache_keeps_the_first_answer() {
    let mut cache = ExistenceCache::new();
    assert_eq!(cache.lookup("/a"), None);
    assert_eq!(cache.record("/a", true), true);
    assert_eq!(cache.record("/a", false), true);
    assert_eq!(cache.record("/b", false), false);
    assert_eq!(cache.record("/b", true), false);
    assert_eq!(cache.lookup("/a"), Some(true));
    assert_eq!(cache.lookup("/b"), Some(false));
}

#[test]
fn existence_cache_probes_once_for_each_path() {
    let asked = RefCell::new(Vec::<String>::new());
    let probe = |path: &str| {
        asked.borrow_mut().push(path.to_string());
        path.len() % 2 == 0
    };
    let mut cache = ExistenceCache::new();
    assert_eq!(cache.is_present("/a", &probe), true);
    assert_eq!(cache.is_present("/ab", &probe), false);
    assert_eq!(cache.is_present("/a", &probe), true);
    assert_eq!(cache.is_present("/ab", &probe), false);
    cache.record("/abc", false);
    assert_eq!(cache.is_present("/abc", &probe), false);
    assert_eq!(*asked.borrow(), vec!["/a".to_string(), "/ab".to_string()]);
}
