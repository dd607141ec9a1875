use navfs::dir::{ChildEntry, Dir, EntryKind};
use navfs::preview_pane::{
    classify_entry, split_lines, PreviewClass, PreviewContent, PreviewFetch, PreviewPane,
};

fn entry(path: &str, kind: EntryKind) -> Dir {
    let p = path.to_string();
    let display_name = Dir::get_display_name(&p, kind);
    Dir { path: p, display_name, kind }
}

#[test]
fn directories_are_classified_for_nested_browsing() {
    assert_eq!(classify_entry(&entry("/x/sub", EntryKind::Directory)), PreviewClass::Directory);
    assert_eq!(classify_entry(&entry("/x", EntryKind::ParentMarker)), PreviewClass::Directory);
}

#[test]
fn image_extensions_are_classified_as_images() {
    assert_eq!(classify_entry(&entry("/x/cat.png", EntryKind::File)), PreviewClass::Image);
    assert_eq!(classify_entry(&entry("/x/cat.jpg", EntryKind::File)), PreviewClass::Image);
    assert_eq!(classify_entry(&entry("/x/cat.jpeg", EntryKind::File)), PreviewClass::Image);
}

#[test]
fn other_names_are_classified_as_text() {
    assert_eq!(classify_entry(&entry("/x/notes.txt", EntryKind::File)), PreviewClass::Text);
    assert_eq!(classify_entry(&entry("/x/README", EntryKind::File)), PreviewClass::Text);
    // a leading dot opens a hidden name; it is no extension
    assert_eq!(classify_entry(&entry("/x/.png", EntryKind::File)), PreviewClass::Text);
    assert_eq!(classify_entry(&entry("/x/pngfile", EntryKind::File)), PreviewClass::Text);
}

#[test]
fn initialize_asks_for_what_the_classification_needs() {
    let mut pane = PreviewPane::new();
    match pane.initialize(entry("/x/sub", EntryKind::Directory)) {
        PreviewFetch::Dir(p) => assert_eq!(p, "/x/sub"),
        _ => panic!("expected a directory fetch"),
    }
    match pane.initialize(entry("/x/cat.png", EntryKind::File)) {
        PreviewFetch::Image(p) => assert_eq!(p, "/x/cat.png"),
        _ => panic!("expected an image fetch"),
    }
    match pane.initialize(entry("/x/notes.txt", EntryKind::File)) {
        PreviewFetch::Text(p) => assert_eq!(p, "/x/notes.txt"),
        _ => panic!("expected a text fetch"),
    }
}

#[test]
fn rendered_image_becomes_glyph_art_with_one_line_per_row() {
    let mut pane = PreviewPane::new();
    pane.initialize(entry("/x/cat.png", EntryKind::File));
    pane.finish_image(Some("..##..\n.#..#.\n######\n".to_string()));
    match pane.content_ref() {
        PreviewContent::GlyphArt(lines) => {
            assert_eq!(
                lines,
                &vec!["..##..".to_string(), ".#..#.".to_string(), "######".to_string()]
            );
        },
        _ => panic!("expected glyph art"),
    }
}

#[test]
fn failed_image_decode_degrades_to_the_placeholder() {
    let mut pane = PreviewPane::new();
    pane.initialize(entry("/x/cat.png", EntryKind::File));
    pane.finish_image(None);
    match pane.content_ref() {
        PreviewContent::Placeholder(s) => assert_eq!(s, "cannot preview"),
        _ => panic!("expected the placeholder"),
    }
}

#[test]
fn readable_text_is_shown_unchanged() {
    let mut pane = PreviewPane::new();
    pane.initialize(entry("/x/notes.txt", EntryKind::File));
    pane.finish_text(Some("hello\nworld".to_string()));
    match pane.content_ref() {
        PreviewContent::RawText(s) => assert_eq!(s, "hello\nworld"),
        _ => panic!("expected raw text"),
    }
}

#[test]
fn unreadable_text_degrades_to_the_placeholder() {
    let mut pane = PreviewPane::new();
    pane.initialize(entry("/x/blob.bin", EntryKind::File));
    pane.finish_text(None);
    match pane.content_ref() {
        PreviewContent::Placeholder(s) => assert_eq!(s, "cannot preview"),
        _ => panic!("expected the placeholder"),
    }
}

#[test]
fn directory_preview_becomes_a_nested_pane_with_the_cursor_on_top() {
    let mut pane = PreviewPane::new();
    pane.initialize(entry("/x/sub", EntryKind::Directory));
    let children = vec![
        ChildEntry { name: "inner".to_string(), kind: EntryKind::File },
        ChildEntry { name: "more".to_string(), kind: EntryKind::Directory },
    ];
    pane.finish_dir(Ok(children));
    assert!(matches!(pane.content_ref(), PreviewContent::NestedPane));
    let nested = pane.nested_pane_ref();
    assert_eq!(nested.cursor_index(), 0);
    assert_eq!(
        nested.display_entries(),
        vec![" ..".to_string(), "D more".to_string(), "F inner".to_string()]
    );
}

#[test]
fn keys_reach_the_nested_pane_only_for_directory_previews() {
    let mut pane = PreviewPane::new();
    pane.initialize(entry("/x/sub", EntryKind::Directory));
    pane.finish_dir(Ok(vec![ChildEntry { name: "inner".to_string(), kind: EntryKind::File }]));
    pane.handle_keys('j');
    assert_eq!(pane.nested_pane_ref().cursor_index(), 1);

    let mut text_pane = PreviewPane::new();
    text_pane.initialize(entry("/x/notes.txt", EntryKind::File));
    text_pane.finish_text(Some("hi".to_string()));
    text_pane.handle_keys('j');
    assert_eq!(text_pane.nested_pane_ref().cursor_index(), 0);
}

#[test]
fn split_lines_handles_breaks_and_trailing_newlines() {
    assert_eq!(split_lines(&"".to_string()), Vec::<String>::new());
    assert_eq!(split_lines(&"one".to_string()), vec!["one".to_string()]);
    assert_eq!(
        split_lines(&"a\nb".to_string()),
        vec!["a".to_string(), "b".to_string()]
    );
    assert_eq!(
        split_lines(&"a\nb\n".to_string()),
        vec!["a".to_string(), "b".to_string()]
    );
    assert_eq!(
        split_lines(&"a\n\nb".to_string()),
        vec!["a".to_string(), "".to_string(), "b".to_string()]
    );
}

#[test]
fn only_the_final_extension_counts() {
    assert_eq!(classify_entry(&entry("/x/archive.tar.gz", EntryKind::File)), PreviewClass::Text);
    assert_eq!(classify_entry(&entry("/x/shot.old.png", EntryKind::File)), PreviewClass::Image);
    assert_eq!(classify_entry(&entry("/x/dot.", EntryKind::File)), PreviewClass::Text);
    assert_eq!(classify_entry(&entry("/x/.hidden.jpg", EntryKind::File)), PreviewClass::Image);
}
