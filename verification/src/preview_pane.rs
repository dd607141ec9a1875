//! The preview pane: deciding and holding what is shown for the entry
//! under the primary cursor.
//!
//! The dispatch is a single classification of the entry — directory,
//! image, or text — answered with a fetch request; the fetched outcome
//! comes back as a plain value and becomes the content: a nested
//! navigation pane, glyph art split into lines, raw text, or a
//! placeholder when nothing could be read or decoded. Decoding images and
//! reading files is filesystem work and stays outside.

use vstd::prelude::*;

use crate::dir::{opens_dir, ChildEntry, Dir, EntryKind, FilesystemError};
use crate::file_picker::{
    finish_delete_rel, handle_keys_rel, initialize_rel, FilePicker, PickerRequest,
};
use crate::lister::children_ok;
use crate::paths::{first_index_of, last_index_of, find_first_char_from, find_last_char, name_of};

verus! {

/// How the entry under the cursor is previewed.
#[derive(Clone, Copy, PartialEq, Eq, Structural, Debug)]
pub enum PreviewClass {
    /// Browse it in a nested pane.
    Directory,
    /// Render it as glyph art.
    Image,
    /// Show its text.
    Text,
}

/// What the preview pane holds.
pub enum PreviewContent {
    /// The nested navigation pane is the preview.
    NestedPane,
    /// One line of glyphs per preview row.
    GlyphArt(Vec<String>),
    /// The file's text.
    RawText(String),
    /// Nothing could be read or decoded.
    Placeholder(String),
}

/// What the pane asks the surrounding layer to fetch.
pub enum PreviewFetch {
    /// Read this directory and hand the children to `finish_dir`.
    Dir(String),
    /// Render this image to glyphs and hand the text to `finish_image`.
    Image(String),
    /// Read this file as text and hand it to `finish_text`.
    Text(String),
}

/// The extension of a file name: what follows its last `.`, except that a
/// name whose only `.` opens it has none.
pub open spec fn extension_of(name: Seq<char>) -> Option<Seq<char>> {
    let q = last_index_of(name, '.');
    if q <= 0 {
        None
    } else {
        Some(name.subrange(q + 1, name.len() as int))
    }
}

/// Whether a file name carries one of the image extensions.
pub open spec fn is_image_name(name: Seq<char>) -> bool {
    match extension_of(name) {
        Some(e) => e == "png"@ || e == "jpg"@ || e == "jpeg"@,
        None => false,
    }
}

/// The dispatch: a directory (and the parent entry) is browsed, an image
/// name is rendered as glyphs, anything else is shown as text.
pub open spec fn classify_of(kind: EntryKind, name: Seq<char>) -> PreviewClass {
    if opens_dir(kind) {
        PreviewClass::Directory
    } else if is_image_name(name) {
        PreviewClass::Image
    } else {
        PreviewClass::Text
    }
}

/// `s` split at every line break; a break closing the last line adds no
/// empty line after it.
pub open spec fn split_lines_of(s: Seq<char>) -> Seq<Seq<char>>
    decreases s.len(),
{
    if s.len() == 0 {
        Seq::<Seq<char>>::empty()
    } else {
        let i = first_index_of(s, '\n');
        if i < 0 || i >= s.len() {
            seq![s]
        } else {
            seq![s.subrange(0, i)] + split_lines_of(s.subrange(i + 1, s.len() as int))
        }
    }
}

/// The dispatch table, written out: a directory — and the parent entry,
/// whose path is one — is browsed in a nested pane; a file name ending
/// `.png`, `.jpg` or `.jpeg` is rendered as glyph art; every other entry
/// is shown as text.
pub proof fn lemma_preview_dispatch_table(kind: EntryKind, name: Seq<char>)
    ensures
        opens_dir(kind) ==> classify_of(kind, name) is Directory,
        !opens_dir(kind) && (extension_of(name) == Some("png"@) || extension_of(name) == Some(
            "jpg"@,
        ) || extension_of(name) == Some("jpeg"@)) ==> classify_of(kind, name) is Image,
        !opens_dir(kind) && !(extension_of(name) == Some("png"@) || extension_of(name) == Some(
            "jpg"@,
        ) || extension_of(name) == Some("jpeg"@)) ==> classify_of(kind, name) is Text,
{
}

/// The words shown when a preview cannot be produced.
pub open spec fn cannot_preview_label() -> Seq<char> {
    "cannot preview"@
}

/// The classification of an entry.
pub fn classify_entry(e: &Dir) -> (r: PreviewClass)
    ensures
        r == classify_of(e.kind, name_of(e.path@)),
{
    if e.opens_as_dir() {
        return PreviewClass::Directory;
    }
    let name = Dir::get_entry_name(&e.path);
    let n: usize = name.as_str().unicode_len();
    match find_last_char(name.as_str(), '.') {
        Some(q) => {
            if q == 0 {
                PreviewClass::Text
            } else {
                let ext = String::from_str(name.as_str().substring_char(q + 1, n));
                if ext == String::from_str("png") || ext == String::from_str("jpg") || ext
                    == String::from_str("jpeg") {
                    PreviewClass::Image
                } else {
                    PreviewClass::Text
                }
            }
        },
        None => PreviewClass::Text,
    }
}

/// `s` split at every line break.
pub fn split_lines(s: &String) -> (r: Vec<String>)
    ensures
        r@.map_values(|x: String| x@) == split_lines_of(s@),
{
    let n: usize = s.as_str().unicode_len();
    let mut r: Vec<String> = Vec::new();
    let mut start: usize = 0;
    proof {
        assert(s@.subrange(0, n as int) =~= s@);
        assert(r@.map_values(|x: String| x@) =~= Seq::<Seq<char>>::empty());
        assert(Seq::<Seq<char>>::empty() + split_lines_of(s@) =~= split_lines_of(s@));
    }
    while start < n
        invariant
            start <= n,
            n == s@.len(),
            split_lines_of(s@) == r@.map_values(|x: String| x@) + split_lines_of(
                s@.subrange(start as int, n as int),
            ),
        decreases n - start,
    {
        let ghost suf = s@.subrange(start as int, n as int);
        let ghost lines_before = r@.map_values(|x: String| x@);
        match find_first_char_from(s.as_str(), '\n', start) {
            Some(i) => {
                let line = String::from_str(s.as_str().substring_char(start, i));
                r.push(line);
                proof {
                    crate::paths::lemma_first_index_of(suf, '\n');
                    assert(first_index_of(suf, '\n') == i - start);
                    assert(suf.subrange(0, i - start) =~= s@.subrange(start as int, i as int));
                    assert(suf.subrange(i - start + 1, suf.len() as int) =~= s@.subrange(
                        i + 1,
                        n as int,
                    ));
                    assert(split_lines_of(suf) == seq![s@.subrange(start as int, i as int)]
                        + split_lines_of(s@.subrange(i + 1, n as int)));
                    assert(r@.map_values(|x: String| x@) =~= lines_before + seq![
                        s@.subrange(start as int, i as int),
                    ]);
                    assert(lines_before + split_lines_of(suf) =~= r@.map_values(|x: String| x@)
                        + split_lines_of(s@.subrange(i + 1, n as int)));
                }
                start = i + 1;
            },
            None => {
                let line = String::from_str(s.as_str().substring_char(start, n));
                r.push(line);
                proof {
                    crate::paths::lemma_first_index_of(suf, '\n');
                    assert(first_index_of(suf, '\n') == -1);
                    assert(suf.len() > 0);
                    assert(split_lines_of(suf) == seq![suf]);
                    assert(r@.map_values(|x: String| x@) =~= lines_before + seq![suf]);
                    assert(s@.subrange(n as int, n as int) =~= Seq::<char>::empty());
                    assert(lines_before + split_lines_of(suf) =~= r@.map_values(|x: String| x@)
                        + split_lines_of(s@.subrange(n as int, n as int)));
                }
                start = n;
            },
        }
    }
    proof {
        assert(s@.subrange(start as int, n as int).len() == 0);
        assert(split_lines_of(s@.subrange(start as int, n as int)) =~= Seq::<Seq<char>>::empty());
        assert(split_lines_of(s@) =~= r@.map_values(|x: String| x@));
    }
    r
}

/// The preview pane: the entry being previewed, its content, and the
/// nested navigation pane used when that entry is a directory.
pub struct PreviewPane {
    curr_entry: Dir,
    content: PreviewContent,
    picker: FilePicker,
    active: bool,
}

impl PreviewPane {
    /// The entry being previewed.
    pub closed spec fn entry(&self) -> Dir {
        self.curr_entry
    }

    /// What the pane holds.
    pub closed spec fn content(&self) -> PreviewContent {
        self.content
    }

    /// The nested pane, shown when the content is `NestedPane`.
    pub closed spec fn nested_pane(&self) -> FilePicker {
        self.picker
    }

    /// Whether this pane receives key events.
    pub closed spec fn is_active(&self) -> bool {
        self.active
    }

    /// The nested pane is always well-formed.
    pub open spec fn wf(&self) -> bool {
        self.nested_pane().wf()
    }

    /// Whether a full redraw is owed, on account of the nested pane.
    pub open spec fn redraw_needed(&self) -> bool {
        self.nested_pane().redraw_needed()
    }

    /// A fresh pane previewing nothing.
    pub fn new() -> (r: PreviewPane)
        ensures
            r.wf(),
            r.entry().path@ == Seq::<char>::empty(),
            r.entry().kind == EntryKind::File,
            (r.content() matches PreviewContent::Placeholder(s) && s@ == Seq::<char>::empty()),
            r.is_active() == false,
            r.redraw_needed() == false,
            r.nested_pane().is_active() == false,
    {
        PreviewPane {
            curr_entry: Dir {
                path: String::new(),
                display_name: String::new(),
                kind: EntryKind::File,
            },
            content: PreviewContent::Placeholder(String::new()),
            picker: FilePicker::new(false, String::new()),
            active: false,
        }
    }

    /// Preview a new entry: remember it and say what must be fetched for
    /// it, by the dispatch classification.
    pub fn initialize(&mut self, entry: Dir) -> (f: PreviewFetch)
        requires
            old(self).wf(),
        ensures
            final(self).wf(),
            final(self).entry() == entry,
            final(self).content() == old(self).content(),
            final(self).nested_pane() == old(self).nested_pane(),
            final(self).is_active() == old(self).is_active(),
            classify_of(entry.kind, name_of(entry.path@)) is Directory ==> (f
                matches PreviewFetch::Dir(p) && p@ == entry.path@),
            classify_of(entry.kind, name_of(entry.path@)) is Image ==> (f
                matches PreviewFetch::Image(p) && p@ == entry.path@),
            classify_of(entry.kind, name_of(entry.path@)) is Text ==> (f
                matches PreviewFetch::Text(p) && p@ == entry.path@),
    {
        let class = classify_entry(&entry);
        let path = entry.path.clone();
        self.curr_entry = entry;
        match class {
            PreviewClass::Directory => PreviewFetch::Dir(path),
            PreviewClass::Image => PreviewFetch::Image(path),
            PreviewClass::Text => PreviewFetch::Text(path),
        }
    }

    /// Take back a directory read: the nested pane lists it with the
    /// cursor on its parent entry, and becomes the content.
    pub fn finish_dir(&mut self, children: Result<Vec<ChildEntry>, FilesystemError>)
        requires
            old(self).wf(),
            children matches Ok(cs) ==> children_ok(cs@),
        ensures
            final(self).wf(),
            final(self).entry() == old(self).entry(),
            final(self).is_active() == old(self).is_active(),
            (final(self).content() matches PreviewContent::NestedPane),
            initialize_rel(
                old(self).nested_pane(),
                final(self).nested_pane(),
                old(self).entry().path@,
                crate::file_picker::children_view(children),
                Some(0),
            ),
    {
        let dir = self.curr_entry.path.clone();
        self.picker.initialize(dir, children, Some(0));
        self.content = PreviewContent::NestedPane;
    }

    /// Take back an image rendering: the glyph text split into lines, or
    /// the placeholder when decoding failed.
    pub fn finish_image(&mut self, rendered: Option<String>)
        requires
            old(self).wf(),
        ensures
            final(self).wf(),
            final(self).entry() == old(self).entry(),
            final(self).is_active() == old(self).is_active(),
            final(self).nested_pane() == old(self).nested_pane(),
            rendered matches Some(s) ==> (final(self).content()
                matches PreviewContent::GlyphArt(lines) && lines@.map_values(|x: String| x@)
                == split_lines_of(s@)),
            rendered is None ==> (final(self).content() matches PreviewContent::Placeholder(p)
                && p@ == cannot_preview_label()),
    {
        match rendered {
            Some(s) => {
                let lines = split_lines(&s);
                self.content = PreviewContent::GlyphArt(lines);
            },
            None => {
                let p = String::from_str("cannot preview");
                proof {
                    reveal_strlit("cannot preview");
                }
                self.content = PreviewContent::Placeholder(p);
            },
        }
    }

    /// Take back a text read: the file's text, or the placeholder when it
    /// could not be read as text.
    pub fn finish_text(&mut self, text: Option<String>)
        requires
            old(self).wf(),
        ensures
            final(self).wf(),
            final(self).entry() == old(self).entry(),
            final(self).is_active() == old(self).is_active(),
            final(self).nested_pane() == old(self).nested_pane(),
            text matches Some(s) ==> (final(self).content() matches PreviewContent::RawText(t)
                && t@ == s@),
            text is None ==> (final(self).content() matches PreviewContent::Placeholder(p) && p@
                == cannot_preview_label()),
    {
        match text {
            Some(s) => {
                self.content = PreviewContent::RawText(s);
            },
            None => {
                let p = String::from_str("cannot preview");
                proof {
                    reveal_strlit("cannot preview");
                }
                self.content = PreviewContent::Placeholder(p);
            },
        }
    }

    /// Answer one key: a directory preview navigates in place; anything
    /// else ignores keys.
    pub fn handle_keys(&mut self, key: char) -> (r: PickerRequest)
        requires
            old(self).wf(),
        ensures
            final(self).wf(),
            final(self).entry() == old(self).entry(),
            final(self).content() == old(self).content(),
            final(self).is_active() == old(self).is_active(),
            opens_dir(old(self).entry().kind) ==> handle_keys_rel(
                old(self).nested_pane(),
                final(self).nested_pane(),
                key,
                r,
            ),
            !opens_dir(old(self).entry().kind) ==> final(self).nested_pane() == old(
                self,
            ).nested_pane() && (r is Idle),
    {
        if self.curr_entry.opens_as_dir() {
            self.picker.handle_keys(key)
        } else {
            PickerRequest::Idle
        }
    }

    /// Refresh the nested pane's listing after a read asked for by one of
    /// its own requests.
    pub fn nested_initialize(
        &mut self,
        dir: String,
        children: Result<Vec<ChildEntry>, FilesystemError>,
        desired: Option<usize>,
    )
        requires
            old(self).wf(),
            children matches Ok(cs) ==> children_ok(cs@),
        ensures
            final(self).wf(),
            final(self).entry() == old(self).entry(),
            final(self).content() == old(self).content(),
            final(self).is_active() == old(self).is_active(),
            initialize_rel(
                old(self).nested_pane(),
                final(self).nested_pane(),
                dir@,
                crate::file_picker::children_view(children),
                desired,
            ),
    {
        self.picker.initialize(dir, children, desired);
    }

    /// Take back a deletion outcome for the nested pane.
    pub fn finish_delete(&mut self, confirmed: bool, batch: bool) -> (r: PickerRequest)
        requires
            old(self).wf(),
        ensures
            final(self).wf(),
            final(self).entry() == old(self).entry(),
            final(self).content() == old(self).content(),
            final(self).is_active() == old(self).is_active(),
            finish_delete_rel(
                old(self).nested_pane(),
                final(self).nested_pane(),
                confirmed,
                batch,
                r,
            ),
    {
        self.picker.finish_delete(confirmed, batch)
    }

    /// Make the pane active or inactive; the nested pane follows.
    pub fn set_active(&mut self, a: bool)
        requires
            old(self).wf(),
        ensures
            final(self).wf(),
            final(self).entry() == old(self).entry(),
            final(self).content() == old(self).content(),
            final(self).is_active() == a,
            final(self).nested_pane().is_active() == a,
            final(self).nested_pane().listing() == old(self).nested_pane().listing(),
            final(self).nested_pane().cursor() == old(self).nested_pane().cursor(),
            final(self).nested_pane().marks_list() == old(self).nested_pane().marks_list(),
            final(self).nested_pane().root_view() == old(self).nested_pane().root_view(),
            final(self).redraw_needed() == old(self).redraw_needed(),
    {
        self.active = a;
        self.picker.set_active(a);
    }

    /// Whether the pane is active, for the rendering layer.
    pub fn active_flag(&self) -> (r: bool)
        ensures
            r == self.is_active(),
    {
        self.active
    }

    /// Whether a full redraw is owed.
    pub fn redraw_flag(&self) -> (r: bool)
        ensures
            r == self.redraw_needed(),
    {
        self.picker.redraw_flag()
    }

    /// The redraw debt is paid: clear the flag.
    pub fn clear_redraw(&mut self)
        requires
            old(self).wf(),
        ensures
            final(self).wf(),
            final(self).entry() == old(self).entry(),
            final(self).content() == old(self).content(),
            final(self).is_active() == old(self).is_active(),
            final(self).redraw_needed() == false,
            final(self).nested_pane().listing() == old(self).nested_pane().listing(),
            final(self).nested_pane().cursor() == old(self).nested_pane().cursor(),
            final(self).nested_pane().marks_list() == old(self).nested_pane().marks_list(),
    {
        self.picker.clear_redraw();
    }

    /// The entry being previewed, for the rendering layer.
    pub fn entry_ref(&self) -> (r: &Dir)
        ensures
            *r == self.entry(),
    {
        &self.curr_entry
    }

    /// What the pane holds, for the rendering layer.
    pub fn content_ref(&self) -> (r: &PreviewContent)
        ensures
            *r == self.content(),
    {
        &self.content
    }

    /// The nested pane, for the rendering layer.
    pub fn nested_pane_ref(&self) -> (r: &FilePicker)
        ensures
            *r == self.nested_pane(),
    {
        &self.picker
    }
}

} // verus!
