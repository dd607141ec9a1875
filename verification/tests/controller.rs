use navfs::app::{App, AppRequest};
use navfs::dir::{ChildEntry, EntryKind};
use navfs::file_picker::PickerRequest;
use navfs::preview_pane::{PreviewContent, PreviewFetch};

fn child(name: &str, kind: EntryKind) -> ChildEntry {
    ChildEntry { name: name.to_string(), kind }
}

fn started_app() -> App {
    let mut app = App::new("/r".to_string());
    let children = vec![child("sub", EntryKind::Directory), child("notes.txt", EntryKind::File)];
    app.finish_primary_refresh("/r".to_string(), Ok(children), None);
    app
}

#[test]
fn quit_key_ends_the_run() {
    let mut app = started_app();
    assert!(!app.is_exit());
    assert!(matches!(app.handle_key('q', false), AppRequest::Idle));
    assert!(app.is_exit());
}

#[test]
fn control_keys_switch_the_active_pane_and_force_a_redraw() {
    let mut app = started_app();
    assert!(app.primary_ref().active_flag());
    app.handle_key('l', true);
    assert!(!app.primary_ref().active_flag());
    assert!(app.preview_ref().active_flag());
    assert!(app.take_redraw());
    assert!(!app.take_redraw());
    app.handle_key('h', true);
    assert!(app.primary_ref().active_flag());
    assert!(!app.preview_ref().active_flag());
}

#[test]
fn movement_on_the_primary_pane_refreshes_the_preview() {
    let mut app = started_app();
    // the cursor starts on the first real entry: the subdirectory
    assert!(matches!(app.handle_key('j', false), AppRequest::Primary(PickerRequest::Idle)));
    match app.take_preview_fetch() {
        Some(PreviewFetch::Text(p)) => assert_eq!(p, "/r/notes.txt"),
        _ => panic!("expected a text fetch for the file under the cursor"),
    }
    assert!(app.take_preview_fetch().is_none());
}

#[test]
fn opening_a_directory_moves_the_reported_dir() {
    let mut app = started_app();
    let request = app.handle_key('l', false);
    let dir = match request {
        AppRequest::Primary(PickerRequest::OpenDir(d)) => d,
        _ => panic!("expected an open request"),
    };
    assert_eq!(dir, "/r/sub");
    app.finish_primary_open(dir, Ok(vec![child("inner", EntryKind::File)]));
    assert_eq!(app.current_dir(), "/r/sub");
    assert_eq!(
        app.primary_ref().display_entries(),
        vec![" ..".to_string(), "F inner".to_string()]
    );
    // the movement also left the preview stale; complete the fetch
    match app.take_preview_fetch() {
        Some(PreviewFetch::Text(p)) => assert_eq!(p, "/r/sub/inner"),
        _ => panic!("expected a text fetch"),
    }
    app.finish_preview_text(Some("inner text".to_string()));
    match app.preview_ref().content_ref() {
        PreviewContent::RawText(s) => assert_eq!(s, "inner text"),
        _ => panic!("expected raw text"),
    }
}

#[test]
fn keys_reach_the_nested_preview_without_touching_the_primary_pane() {
    let mut app = started_app();
    // move down and back up so the subdirectory under the cursor is previewed
    app.handle_key('j', false);
    app.take_preview_fetch();
    app.handle_key('k', false);
    match app.take_preview_fetch() {
        Some(PreviewFetch::Dir(p)) => {
            assert_eq!(p, "/r/sub");
            app.finish_preview_dir(Ok(vec![
                child("x", EntryKind::File),
                child("y", EntryKind::File),
            ]));
        },
        _ => panic!("expected a directory fetch"),
    }
    app.handle_key('l', true);
    let before = app.primary_ref().cursor_index();
    assert!(matches!(app.handle_key('j', false), AppRequest::Nested(PickerRequest::Idle)));
    assert_eq!(app.primary_ref().cursor_index(), before);
    assert_eq!(app.preview_ref().nested_pane_ref().cursor_index(), 1);
    // no preview refresh follows keys handled by the preview side
    assert!(app.take_preview_fetch().is_none());
}

#[test]
fn deletion_flow_from_request_to_refresh() {
    let mut app = started_app();
    app.handle_key('j', false);
    let (paths, batch) = match app.handle_key('d', false) {
        AppRequest::Primary(PickerRequest::ConfirmDelete(paths, batch)) => (paths, batch),
        _ => panic!("expected a confirmation request"),
    };
    assert_eq!(paths, vec!["/r/notes.txt".to_string()]);
    assert!(!batch);
    match app.finish_primary_delete(true, batch) {
        PickerRequest::Refresh(d, ix) => {
            assert_eq!(d, "/r");
            assert_eq!(ix, None);
            app.finish_primary_refresh(d, Ok(vec![child("sub", EntryKind::Directory)]), ix);
        },
        _ => panic!("expected a refresh request"),
    }
    assert_eq!(
        app.primary_ref().display_entries(),
        vec![" ..".to_string(), "D sub".to_string()]
    );
    assert!(app.take_redraw());
}
