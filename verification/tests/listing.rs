use navfs::dir::{ChildEntry, Dir, EntryKind, FilesystemError};
use navfs::file_picker::FilePicker;

fn child(name: &str, kind: EntryKind) -> ChildEntry {
    ChildEntry { name: name.to_string(), kind }
}

#[test]
fn listing_orders_directories_first_then_files_by_name() {
    let dir = "/x".to_string();
    let children = vec![
        child("b.txt", EntryKind::File),
        child("A", EntryKind::Directory),
        child("a.txt", EntryKind::File),
    ];
    let listing = Dir::get_dir_entries_ordered(&dir, &children);
    assert_eq!(listing.len(), 4);
    assert_eq!(listing[0].display_name, " ..");
    assert_eq!(listing[0].path, "/");
    assert!(matches!(listing[0].kind, EntryKind::ParentMarker));
    assert_eq!(listing[1].display_name, "D A");
    assert_eq!(listing[1].path, "/x/A");
    assert_eq!(listing[2].display_name, "F a.txt");
    assert_eq!(listing[2].path, "/x/a.txt");
    assert_eq!(listing[3].display_name, "F b.txt");
    assert_eq!(listing[3].path, "/x/b.txt");
}

#[test]
fn listing_sorts_each_group_lexicographically() {
    let dir = "/d".to_string();
    let children = vec![
        child("zz", EntryKind::File),
        child("beta", EntryKind::Directory),
        child("alpha", EntryKind::Directory),
        child("Zed", EntryKind::File),
        child("ln", EntryKind::Symlink),
    ];
    let listing = Dir::get_dir_entries_ordered(&dir, &children);
    let labels: Vec<&str> = listing.iter().map(|e| e.display_name.as_str()).collect();
    // case-sensitive: capital letters sort before lower-case ones
    assert_eq!(labels, vec![" ..", "D alpha", "D beta", "F Zed", "L ln", "F zz"]);
}

#[test]
fn listing_of_empty_directory_is_only_the_parent_entry() {
    let dir = "/lonely".to_string();
    let children: Vec<ChildEntry> = Vec::new();
    let listing = Dir::get_dir_entries_ordered(&dir, &children);
    assert_eq!(listing.len(), 1);
    assert_eq!(listing[0].display_name, " ..");
    assert_eq!(listing[0].path, "/");
}

#[test]
fn listing_at_root_points_parent_at_itself() {
    let dir = "/".to_string();
    let children = vec![child("etc", EntryKind::Directory)];
    let listing = Dir::get_dir_entries_ordered(&dir, &children);
    assert_eq!(listing[0].path, "/");
    assert_eq!(listing[1].path, "/etc");
}

#[test]
fn listing_is_deterministic_for_the_same_children() {
    let dir = "/x".to_string();
    let children = vec![
        child("m", EntryKind::File),
        child("d", EntryKind::Directory),
        child("a", EntryKind::File),
    ];
    let l1 = Dir::get_dir_entries_ordered(&dir, &children);
    let l2 = Dir::get_dir_entries_ordered(&dir, &children);
    assert_eq!(l1.len(), l2.len());
    for (a, b) in l1.iter().zip(l2.iter()) {
        assert_eq!(a.path, b.path);
        assert_eq!(a.display_name, b.display_name);
        assert_eq!(a.kind, b.kind);
    }
}

#[test]
fn empty_directory_puts_cursor_on_parent_entry() {
    let mut pane = FilePicker::new(true, "/lonely".to_string());
    pane.initialize("/lonely".to_string(), Ok(Vec::new()), None);
    assert_eq!(pane.cursor_index(), 0);
    assert_eq!(pane.display_entries(), vec![" ..".to_string()]);
}

#[test]
fn unreadable_directory_becomes_a_single_informational_entry() {
    let mut pane = FilePicker::new(true, "/x".to_string());
    pane.initialize("/x".to_string(), Err(FilesystemError::PermissionDenied), None);
    assert_eq!(pane.cursor_index(), 0);
    let labels = pane.display_entries();
    assert_eq!(labels, vec!["Couldn't read entry: permission denied".to_string()]);
}

#[test]
fn each_read_failure_names_its_cause() {
    let cases = vec![
        (FilesystemError::NotFound, "Couldn't read entry: not found"),
        (FilesystemError::PermissionDenied, "Couldn't read entry: permission denied"),
        (FilesystemError::NotADirectory, "Couldn't read entry: not a directory"),
        (FilesystemError::IOOther, "Couldn't read entry: input/output error"),
    ];
    for (error, banner) in cases {
        let mut pane = FilePicker::new(true, "/x".to_string());
        pane.initialize("/x".to_string(), Err(error), None);
        assert_eq!(pane.display_entries(), vec![banner.to_string()]);
    }
}
