use navfs::dir::{ChildEntry, EntryKind};
use navfs::file_picker::{FilePicker, PickerRequest};

fn child(name: &str, kind: EntryKind) -> ChildEntry {
    ChildEntry { name: name.to_string(), kind }
}

fn pane_with(dir: &str, names: &[(&str, EntryKind)]) -> FilePicker {
    let mut pane = FilePicker::new(true, dir.to_string());
    let children: Vec<ChildEntry> = names.iter().map(|(n, k)| child(n, *k)).collect();
    pane.initialize(dir.to_string(), Ok(children), None);
    pane
}

#[test]
fn fresh_listing_selects_first_real_entry() {
    let pane = pane_with("/x", &[("a", EntryKind::File), ("b", EntryKind::File)]);
    assert_eq!(pane.cursor_index(), 1);
}

#[test]
fn desired_index_wins_when_valid() {
    let mut pane = FilePicker::new(true, "/x".to_string());
    let children = vec![child("a", EntryKind::File), child("b", EntryKind::File)];
    pane.initialize("/x".to_string(), Ok(children), Some(2));
    assert_eq!(pane.cursor_index(), 2);
}

#[test]
fn desired_index_out_of_range_falls_back_to_first_entry() {
    let mut pane = FilePicker::new(true, "/x".to_string());
    let children = vec![child("a", EntryKind::File), child("b", EntryKind::File)];
    // the listing has three entries, so index three does not exist
    pane.initialize("/x".to_string(), Ok(children), Some(3));
    assert_eq!(pane.cursor_index(), 1);
}

#[test]
fn cursor_moves_clamp_at_both_ends() {
    let mut pane = pane_with("/x", &[("a", EntryKind::File), ("b", EntryKind::File)]);
    assert_eq!(pane.cursor_index(), 1);
    pane.handle_keys('k');
    assert_eq!(pane.cursor_index(), 0);
    pane.handle_keys('k');
    assert_eq!(pane.cursor_index(), 0);
    pane.handle_keys('j');
    pane.handle_keys('j');
    assert_eq!(pane.cursor_index(), 2);
    pane.handle_keys('j');
    assert_eq!(pane.cursor_index(), 2);
    pane.handle_keys('g');
    assert_eq!(pane.cursor_index(), 1);
    pane.handle_keys('G');
    assert_eq!(pane.cursor_index(), 2);
}

#[test]
fn open_key_requests_the_selected_directory() {
    let mut pane = pane_with("/x", &[("sub", EntryKind::Directory), ("f", EntryKind::File)]);
    match pane.handle_keys('l') {
        PickerRequest::OpenDir(d) => assert_eq!(d, "/x/sub"),
        _ => panic!("expected an open request"),
    }
}

#[test]
fn open_key_on_a_file_is_ignored() {
    let mut pane = pane_with("/x", &[("f", EntryKind::File)]);
    assert!(matches!(pane.handle_keys('l'), PickerRequest::Idle));
}

#[test]
fn parent_key_requests_the_parent_directory() {
    let mut pane = pane_with("/x/y", &[("f", EntryKind::File)]);
    match pane.handle_keys('h') {
        PickerRequest::OpenDir(d) => assert_eq!(d, "/x"),
        _ => panic!("expected an open request"),
    }
}

#[test]
fn parent_key_at_the_root_is_ignored() {
    let mut pane = pane_with("/", &[("f", EntryKind::File)]);
    assert!(matches!(pane.handle_keys('h'), PickerRequest::Idle));
}

#[test]
fn mark_toggle_requests_a_refresh_preserving_the_cursor() {
    let mut pane = pane_with("/x", &[("a", EntryKind::File), ("b", EntryKind::File)]);
    pane.handle_keys('j');
    assert!(!pane.redraw_flag());
    match pane.handle_keys(' ') {
        PickerRequest::Refresh(d, ix) => {
            assert_eq!(d, "/x");
            assert_eq!(ix, Some(2));
        },
        _ => panic!("expected a refresh request"),
    }
    // the labels changed behind the widget's back: a full redraw is owed
    assert!(pane.redraw_flag());
}

#[test]
fn marked_entry_shows_the_mark_after_refresh() {
    let mut pane = pane_with("/x", &[("a", EntryKind::File), ("b", EntryKind::File)]);
    assert_eq!(pane.curr_sel_entry(), "/x/a");
    pane.handle_keys(' ');
    let children = vec![child("a", EntryKind::File), child("b", EntryKind::File)];
    pane.initialize("/x".to_string(), Ok(children), Some(1));
    let labels = pane.display_entries();
    assert_eq!(labels, vec![" ..".to_string(), "- a".to_string(), "F b".to_string()]);
}

#[test]
fn mark_survives_navigating_away_and_back() {
    let mut pane = pane_with(
        "/x",
        &[("sub", EntryKind::Directory), ("keep.txt", EntryKind::File)],
    );
    // put the cursor on keep.txt and mark it
    pane.handle_keys('j');
    assert_eq!(pane.curr_sel_entry(), "/x/keep.txt");
    pane.handle_keys(' ');
    // navigate into the subdirectory, then back to /x
    pane.initialize("/x/sub".to_string(), Ok(vec![child("inner", EntryKind::File)]), None);
    let children = vec![child("sub", EntryKind::Directory), child("keep.txt", EntryKind::File)];
    pane.initialize("/x".to_string(), Ok(children), None);
    let labels = pane.display_entries();
    assert_eq!(labels, vec![" ..".to_string(), "D sub".to_string(), "- keep.txt".to_string()]);
}

#[test]
fn toggling_twice_restores_the_unmarked_label() {
    let mut pane = pane_with("/x", &[("a", EntryKind::File)]);
    pane.handle_keys(' ');
    pane.handle_keys(' ');
    let children = vec![child("a", EntryKind::File)];
    pane.initialize("/x".to_string(), Ok(children), Some(1));
    assert_eq!(pane.display_entries(), vec![" ..".to_string(), "F a".to_string()]);
}

#[test]
fn delete_key_requests_confirmation_for_the_current_path() {
    let mut pane = pane_with("/x", &[("a", EntryKind::File), ("b", EntryKind::File)]);
    pane.handle_keys('j');
    match pane.handle_keys('d') {
        PickerRequest::ConfirmDelete(paths, batch) => {
            assert_eq!(paths, vec!["/x/b".to_string()]);
            assert!(!batch);
        },
        _ => panic!("expected a confirmation request"),
    }
    assert!(pane.redraw_flag());
}

#[test]
fn deleting_past_the_first_entries_keeps_the_cursor_nearby() {
    // a six-entry listing with the cursor on the last entry
    let mut pane = pane_with(
        "/x",
        &[
            ("a", EntryKind::File),
            ("b", EntryKind::File),
            ("c", EntryKind::File),
            ("d", EntryKind::File),
            ("e", EntryKind::File),
        ],
    );
    pane.handle_keys('G');
    assert_eq!(pane.cursor_index(), 5);
    pane.handle_keys('d');
    match pane.finish_delete(true, false) {
        PickerRequest::Refresh(d, ix) => {
            assert_eq!(d, "/x");
            assert_eq!(ix, Some(4));
        },
        _ => panic!("expected a refresh request"),
    }
    // the refreshed listing has five entries and the requested index fits
    let children = vec![
        child("a", EntryKind::File),
        child("b", EntryKind::File),
        child("c", EntryKind::File),
        child("d", EntryKind::File),
    ];
    pane.initialize("/x".to_string(), Ok(children), Some(4));
    assert_eq!(pane.display_entries().len(), 5);
    assert_eq!(pane.cursor_index(), 4);
}

#[test]
fn deleting_near_the_top_lets_the_index_policy_choose() {
    let mut pane = pane_with("/x", &[("a", EntryKind::File), ("b", EntryKind::File)]);
    assert_eq!(pane.cursor_index(), 1);
    pane.handle_keys('d');
    match pane.finish_delete(true, false) {
        PickerRequest::Refresh(_, ix) => assert_eq!(ix, None),
        _ => panic!("expected a refresh request"),
    }
}

#[test]
fn declined_deletion_changes_nothing() {
    let mut pane = pane_with("/x", &[("a", EntryKind::File)]);
    pane.handle_keys('d');
    assert!(matches!(pane.finish_delete(false, false), PickerRequest::Idle));
    assert_eq!(pane.display_entries().len(), 2);
}

#[test]
fn batch_delete_sequence_sends_the_marked_paths_and_clears_them() {
    let mut pane = pane_with("/x", &[("a", EntryKind::File), ("b", EntryKind::File)]);
    pane.handle_keys(' ');
    pane.handle_keys('j');
    pane.handle_keys(' ');
    pane.handle_keys('b');
    match pane.handle_keys('d') {
        PickerRequest::ConfirmDelete(paths, batch) => {
            assert_eq!(paths, vec!["/x/a".to_string(), "/x/b".to_string()]);
            assert!(batch);
        },
        _ => panic!("expected a confirmation request"),
    }
    pane.finish_delete(true, true);
    // nothing stays marked after a confirmed batch deletion
    let children = vec![child("a", EntryKind::File), child("b", EntryKind::File)];
    pane.initialize("/x".to_string(), Ok(children), None);
    assert_eq!(
        pane.display_entries(),
        vec![" ..".to_string(), "F a".to_string(), "F b".to_string()]
    );
}

#[test]
fn clear_sequence_unmarks_everything() {
    let mut pane = pane_with("/x", &[("a", EntryKind::File)]);
    pane.handle_keys(' ');
    pane.clear_redraw();
    pane.handle_keys('b');
    match pane.handle_keys('c') {
        PickerRequest::Refresh(d, ix) => {
            assert_eq!(d, "/x");
            assert_eq!(ix, Some(1));
        },
        _ => panic!("expected a refresh request"),
    }
    assert!(pane.redraw_flag());
    let children = vec![child("a", EntryKind::File)];
    pane.initialize("/x".to_string(), Ok(children), Some(1));
    assert_eq!(pane.display_entries(), vec![" ..".to_string(), "F a".to_string()]);
}

#[test]
fn help_key_requests_the_keybindings_and_a_redraw() {
    let mut pane = pane_with("/x", &[("a", EntryKind::File)]);
    assert!(!pane.redraw_flag());
    assert!(matches!(pane.handle_keys('?'), PickerRequest::ShowHelp));
    assert!(pane.redraw_flag());
    pane.clear_redraw();
    assert!(!pane.redraw_flag());
}
