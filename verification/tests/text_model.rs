use navfs::args::choose_output_file;
use navfs::deletion::{aggregate_delete_errors, build_delete_summary};
use navfs::dir::{Dir, EntryKind};
use navfs::file_picker::{get_directory_display_entries, FilePicker};
use navfs::paths::{file_name_part, join, parent_part};
use navfs::popup::confirm_key_decision;
use navfs::selection::SelectionBuffer;

#[test]
fn file_names_follow_the_last_separator() {
    assert_eq!(file_name_part(&"/a/b/c.txt".to_string()), "c.txt");
    assert_eq!(file_name_part(&"/".to_string()), "");
    assert_eq!(file_name_part(&"plain".to_string()), "plain");
}

#[test]
fn parents_stop_at_the_root() {
    assert_eq!(parent_part(&"/a/b".to_string()), Some("/a".to_string()));
    assert_eq!(parent_part(&"/a".to_string()), Some("/".to_string()));
    assert_eq!(parent_part(&"/".to_string()), None);
    assert_eq!(parent_part(&"plain".to_string()), None);
}

#[test]
fn joining_does_not_double_the_separator() {
    assert_eq!(join(&"/a".to_string(), &"b".to_string()), "/a/b");
    assert_eq!(join(&"/".to_string(), &"b".to_string()), "/b");
}

#[test]
fn parent_entries_carry_the_directory_label() {
    let parent = Dir::get_parent_dir(&"/a/b".to_string());
    assert_eq!(parent.path, "/a");
    assert_eq!(parent.kind, EntryKind::Directory);
    assert_eq!(parent.display_name, "D a");
    let rootless = Dir::get_parent_dir(&"/".to_string());
    assert_eq!(rootless.path, "/");
}

#[test]
fn home_is_shortened_to_a_tilde_wherever_it_occurs() {
    assert_eq!(
        Dir::get_shortened_path(&"/home/u/dir".to_string(), &"/home/u".to_string()),
        "~/dir"
    );
    // every occurrence is replaced, as the display does
    assert_eq!(Dir::get_shortened_path(&"/h/x/h".to_string(), &"/h".to_string()), "~/x~");
    assert_eq!(
        Dir::get_shortened_path(&"/etc".to_string(), &"/home/u".to_string()),
        "/etc"
    );
    assert_eq!(Dir::get_shortened_path(&"/etc".to_string(), &"".to_string()), "/etc");
}

#[test]
fn selection_buffer_toggles_membership() {
    let mut buffer = SelectionBuffer::new();
    let p = "/x/a".to_string();
    assert!(!buffer.contains_path(&p));
    buffer.toggle(&p);
    assert!(buffer.contains_path(&p));
    buffer.toggle(&p);
    assert!(!buffer.contains_path(&p));
    assert_eq!(buffer.count(), 0);
}

#[test]
fn selection_buffer_keeps_marking_order() {
    let mut buffer = SelectionBuffer::new();
    buffer.toggle(&"/x/b".to_string());
    buffer.toggle(&"/x/a".to_string());
    assert_eq!(buffer.paths_vec(), vec!["/x/b".to_string(), "/x/a".to_string()]);
    buffer.clear();
    assert_eq!(buffer.count(), 0);
}

#[test]
fn delete_summary_names_parent_and_entry_with_directory_slash() {
    let entries = vec![
        ("/x/docs/notes.txt".to_string(), false),
        ("/x/docs/old".to_string(), true),
    ];
    let summary = build_delete_summary(&entries);
    assert_eq!(summary, "docs/notes.txt\ndocs/old/\n");
}

#[test]
fn delete_failures_are_aggregated_one_per_line() {
    assert_eq!(aggregate_delete_errors(&Vec::new()), None);
    let failures = vec!["a: busy".to_string(), "b: gone".to_string()];
    assert_eq!(aggregate_delete_errors(&failures), Some("a: busy\nb: gone\n".to_string()));
}

#[test]
fn confirmation_accepts_y_declines_n_and_waits_otherwise() {
    assert_eq!(confirm_key_decision('y'), Some(true));
    assert_eq!(confirm_key_decision('n'), Some(false));
    assert_eq!(confirm_key_decision('x'), None);
    assert_eq!(confirm_key_decision('\n'), None);
}

#[test]
fn output_file_precedence_is_long_short_positional_stdout() {
    assert_eq!(
        choose_output_file(Some("f1".to_string()), Some("f2".to_string()), Some("f3".to_string())),
        "f1"
    );
    assert_eq!(choose_output_file(None, Some("f2".to_string()), Some("f3".to_string())), "f2");
    assert_eq!(choose_output_file(None, None, Some("f3".to_string())), "f3");
    assert_eq!(choose_output_file(None, None, None), "-");
}

#[test]
fn metadata_row_prints_permissions_links_and_date() {
    let row = Dir::get_entry_metadata_to_display(false, true, false, 0o754, 2, 0, 0, 0);
    assert!(row.starts_with("drwxr-xr--  2 "), "row was: {row}");
    assert!(row.ends_with("01 Jan 1970 00:00"), "row was: {row}");
}

#[test]
fn metadata_row_marks_symlinks_and_pads_wide_link_counts() {
    let row = Dir::get_entry_metadata_to_display(true, false, false, 0o777, 12, 0, 0, 86400);
    assert!(row.starts_with("lrwxrwxrwx 12 "), "row was: {row}");
    assert!(row.ends_with("02 Jan 1970 00:00"), "row was: {row}");
}

#[test]
fn display_names_carry_the_kind_glyph() {
    assert_eq!(Dir::get_display_name(&"/x/sub".to_string(), EntryKind::Directory), "D sub");
    assert_eq!(Dir::get_display_name(&"/x/a.txt".to_string(), EntryKind::File), "F a.txt");
    assert_eq!(Dir::get_display_name(&"/x/ln".to_string(), EntryKind::Symlink), "L ln");
    assert_eq!(Dir::get_display_name(&"/x".to_string(), EntryKind::ParentMarker), " ..");
}

#[test]
fn entry_names_drop_the_directory() {
    assert_eq!(Dir::get_entry_name(&"/x/sub/a.txt".to_string()), "a.txt");
    assert_eq!(Dir::get_entry_name(&"rel".to_string()), "rel");
}

#[test]
fn display_entries_mirror_the_listing() {
    let pane = FilePicker::new(true, "/x".to_string());
    assert_eq!(get_directory_display_entries(&pane), vec![" ..".to_string()]);
}

#[test]
fn metadata_row_places_dates_before_the_epoch() {
    let row = Dir::get_entry_metadata_to_display(false, false, true, 0o644, 1, 0, 0, -86400);
    assert!(row.starts_with("-rw-r--r--  1 "), "row was: {row}");
    assert!(row.ends_with("31 Dec 1969 00:00"), "row was: {row}");
}
