use std::collections::HashSet;

use unsquash_tpcii::entry::{
    plan_entry, Action, Entry, EntryKind, ErrorKind, Strategy, DIR_MODE, FILE_MODE,
};
use unsquash_tpcii::extract::{start, Start};
use unsquash_tpcii::filter::{expand_filter, PermittedPaths};
use unsquash_tpcii::paths::{destination_of, parent_destination_of};
use unsquash_tpcii::select::{select_entries, selects_nothing};

fn names(list: &[&str]) -> Option<Vec<String>> {
    Some(list.iter().map(|s| s.to_string()).collect())
}

fn as_set(p: &PermittedPaths) -> HashSet<Vec<u8>> {
    p.paths.iter().cloned().collect()
}

fn set_of(list: &[&str]) -> HashSet<Vec<u8>> {
    list.iter().map(|s| s.as_bytes().to_vec()).collect()
}

fn entry(path: &str, kind: EntryKind) -> Entry {
    Entry { path: path.as_bytes().to_vec(), kind }
}

fn file(path: &str, size: u64) -> Entry {
    entry(path, EntryKind::File { size })
}

#[test]
fn expand_single_name() {
    let f = expand_filter(&names(&["foo"])).unwrap();
    assert_eq!(as_set(&f), set_of(&["/", "/index", "/index/foo", "/salts", "/salts/foo"]));
}

#[test]
fn expand_two_names() {
    let f = expand_filter(&names(&["foo", "bar"])).unwrap();
    assert_eq!(
        as_set(&f),
        set_of(&["/", "/index", "/index/foo", "/index/bar", "/salts", "/salts/foo", "/salts/bar"])
    );
}

#[test]
fn expand_nested_name() {
    let f = expand_filter(&names(&["fo/o"])).unwrap();
    assert_eq!(
        as_set(&f),
        set_of(&["/", "/index", "/index/fo", "/index/fo/o", "/salts", "/salts/fo", "/salts/fo/o"])
    );
}

#[test]
fn absent_filter_expands_to_none() {
    assert!(expand_filter(&None).is_none());
    assert!(!selects_nothing(&None));
}

#[test]
fn empty_filter_selects_nothing() {
    let f = expand_filter(&names(&[]));
    assert!(f.is_some());
    assert!(f.as_ref().unwrap().paths.is_empty());
    assert!(selects_nothing(&f));
    let entries = vec![file("/index/foo", 3), entry("/index", EntryKind::Directory)];
    assert!(select_entries(&entries, &f).is_empty());
}

#[test]
fn empty_filter_finishes_without_archive() {
    let r = start(b"/no/such/archive.sqfs", true, &names(&[]));
    assert!(matches!(r, Ok(Start::Finished)));
}

#[test]
fn missing_archive_is_reported_first() {
    let r = start(b"/no/such/archive.sqfs", false, &names(&[]));
    let e = r.unwrap_err();
    assert_eq!(e.kind, ErrorKind::ArchiveNotFound);
    assert_eq!(e.path, b"/no/such/archive.sqfs".to_vec());
}

#[test]
fn start_hands_on_the_filter() {
    match start(b"a.sqfs", true, &names(&["foo"])).unwrap() {
        Start::Extract { filter } => assert_eq!(
            as_set(&filter.unwrap()),
            set_of(&["/", "/index", "/index/foo", "/salts", "/salts/foo"])
        ),
        Start::Finished => panic!("a name was given"),
    }
    match start(b"a.sqfs", true, &None).unwrap() {
        Start::Extract { filter } => assert!(filter.is_none()),
        Start::Finished => panic!("no filter was given"),
    }
}

#[test]
fn absent_filter_selects_all_in_order() {
    let entries = vec![
        file("/z", 1),
        entry("/a", EntryKind::Directory),
        file("/a/b", 0),
        entry("/s", EntryKind::Socket),
    ];
    assert_eq!(select_entries(&entries, &None), vec![0, 1, 2, 3]);
}

#[test]
fn filter_selects_exact_paths_only() {
    let f = expand_filter(&names(&["foo"]));
    let entries = vec![
        entry("/", EntryKind::Directory),
        file("/index/foobar", 1),
        entry("/index", EntryKind::Directory),
        file("/other", 2),
        file("/salts/foo", 4),
        file("/index/foo/inner", 5),
        file("/index/foo", 6),
    ];
    assert_eq!(select_entries(&entries, &f), vec![0, 2, 4, 6]);
}

#[test]
fn destination_paths() {
    assert_eq!(destination_of(b"dest", b"/index/foo"), b"dest/index/foo".to_vec());
    assert_eq!(destination_of(b"dest/", b"/index/foo"), b"dest/index/foo".to_vec());
    assert_eq!(destination_of(b"", b"/index/foo"), b"index/foo".to_vec());
    assert_eq!(destination_of(b"dest", b"/"), b"dest/".to_vec());
    assert_eq!(parent_destination_of(b"dest", b"/index/foo"), b"dest/index".to_vec());
    assert_eq!(parent_destination_of(b"dest", b"/index"), b"dest".to_vec());
    assert_eq!(parent_destination_of(b"dest", b"/"), b"dest".to_vec());
    assert_eq!(parent_destination_of(b"dest", b"/a/b/c/"), b"dest/a/b".to_vec());
}

#[test]
fn file_plan_writes_size_and_mode() {
    let plan = plan_entry(b"dest", &file("/index/foo", 1234), Strategy::Parallel).unwrap();
    assert_eq!(
        plan,
        vec![
            Action::CreateDirAll { path: b"dest/index".to_vec() },
            Action::WriteFile { path: b"dest/index/foo".to_vec(), size: 1234 },
            Action::SetMode { path: b"dest/index/foo".to_vec(), mode: 0o644 },
        ]
    );
    assert_eq!(FILE_MODE, 0o644);
    let concurrent = plan_entry(b"dest", &file("/index/foo", 1234), Strategy::Concurrent).unwrap();
    assert_eq!(concurrent, plan);
}

#[test]
fn directory_plan_sets_dir_mode() {
    let plan = plan_entry(b"out", &entry("/index", EntryKind::Directory), Strategy::Parallel).unwrap();
    assert_eq!(
        plan,
        vec![
            Action::CreateDirAll { path: b"out".to_vec() },
            Action::CreateDirAll { path: b"out/index".to_vec() },
            Action::SetMode { path: b"out/index".to_vec(), mode: 0o755 },
        ]
    );
    assert_eq!(DIR_MODE, 0o755);
}

#[test]
fn symlink_plan_keeps_target_verbatim() {
    let target = b"/nonexistent/../absolute/target".to_vec();
    let e = entry("/salts/link", EntryKind::Symlink { target: target.clone() });
    let plan = plan_entry(b"out", &e, Strategy::Parallel).unwrap();
    assert_eq!(
        plan,
        vec![
            Action::CreateDirAll { path: b"out/salts".to_vec() },
            Action::Symlink { target, link: b"out/salts/link".to_vec() },
            Action::SetLinkMode { link: b"out/salts/link".to_vec(), mode: 0o644 },
        ]
    );
}

#[test]
fn special_kinds_are_unsupported() {
    for kind in [EntryKind::CharDevice, EntryKind::BlockDevice, EntryKind::NamedPipe, EntryKind::Socket] {
        for strategy in [Strategy::Parallel, Strategy::Concurrent] {
            let e = plan_entry(b"out", &entry("/dev/x", kind.clone()), strategy).unwrap_err();
            assert_eq!(e.kind, ErrorKind::UnsupportedEntryKind);
            assert_eq!(e.path, b"out/dev/x".to_vec());
        }
    }
}

#[test]
fn concurrent_strategy_writes_files_only() {
    let d = plan_entry(b"out", &entry("/d", EntryKind::Directory), Strategy::Concurrent);
    assert_eq!(d.unwrap_err().kind, ErrorKind::UnsupportedEntryKind);
    let l = entry("/l", EntryKind::Symlink { target: b"x".to_vec() });
    assert_eq!(
        plan_entry(b"out", &l, Strategy::Concurrent).unwrap_err().kind,
        ErrorKind::UnsupportedEntryKind
    );
}

#[test]
fn file_and_socket_batch_fails_unsupported() {
    let entries = vec![file("/f", 3), entry("/s", EntryKind::Socket)];
    let selected = select_entries(&entries, &None);
    let outcome: Result<Vec<Vec<Action>>, _> = selected
        .iter()
        .map(|&i| plan_entry(b"out", &entries[i], Strategy::Parallel))
        .collect();
    assert_eq!(outcome.unwrap_err().kind, ErrorKind::UnsupportedEntryKind);
}

#[test]
fn planning_twice_gives_the_same_plan() {
    let e = file("/index/foo", 9);
    let a = plan_entry(b"out", &e, Strategy::Parallel).unwrap();
    let b = plan_entry(b"out", &e, Strategy::Parallel).unwrap();
    assert_eq!(a, b);
}

#[test]
fn permitted_paths_membership() {
    let f = expand_filter(&names(&["foo"])).unwrap();
    assert!(f.contains(b"/index/foo"));
    assert!(f.contains(b"/"));
    assert!(!f.contains(b"/index/fo"));
    assert!(!f.contains(b"/index/foo/"));
    assert!(!f.is_empty());
}
