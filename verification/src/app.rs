//! The top-level state machine: one primary navigation pane, one preview
//! pane, and the routing between them.
//!
//! Exactly one pane is active at a time; a key goes only to it. After a
//! movement key on the primary pane the preview must be dispatched again
//! against the new entry under the cursor; navigating inside a directory
//! preview never perturbs the primary listing. The directory reported at
//! exit is the last one either pane browsed into.

use vstd::prelude::*;

use crate::dir::{opens_dir, ChildEntry, FilesystemError};
use crate::file_picker::{
    children_view, finish_delete_rel, handle_keys_rel, initialize_rel, FilePicker, PickerRequest,
};
use crate::lister::children_ok;
use crate::paths::name_of;
use crate::preview_pane::{classify_of, PreviewFetch, PreviewPane};

verus! {

/// Which pane is active for key events.
#[derive(Clone, Copy, PartialEq, Eq, Structural, Debug)]
pub enum WhichPane {
    FilePicker,
    PreviewPane,
}

/// What the controller asks of the surrounding layer after a key: a pane
/// request, tagged with the pane it came from, so the outcome goes back
/// to the right one.
pub enum AppRequest {
    Idle,
    Primary(PickerRequest),
    Nested(PickerRequest),
}

/// The keys that move or navigate, after which the preview is dispatched
/// again.
pub open spec fn movement_key(key: char) -> bool {
    key == 'h' || key == 'j' || key == 'k' || key == 'l'
}

/// The top-level state.
pub struct App {
    file_picker: FilePicker,
    preview_pane: PreviewPane,
    curr_selected: WhichPane,
    exit: bool,
    cur_dir: String,
    preview_stale: bool,
    redraw: bool,
}

impl App {
    /// The primary navigation pane.
    pub closed spec fn primary(&self) -> FilePicker {
        self.file_picker
    }

    /// The preview pane.
    pub closed spec fn preview(&self) -> PreviewPane {
        self.preview_pane
    }

    /// Which pane keys go to.
    pub closed spec fn selected(&self) -> WhichPane {
        self.curr_selected
    }

    /// Whether the run is over.
    pub closed spec fn exited(&self) -> bool {
        self.exit
    }

    /// The directory reported at exit: the last one browsed into.
    pub closed spec fn reported_dir(&self) -> Seq<char> {
        self.cur_dir@
    }

    /// Whether a movement was handled and the preview must be dispatched
    /// again.
    pub closed spec fn preview_stale(&self) -> bool {
        self.preview_stale
    }

    /// The controller's own redraw debt, from pane switches.
    pub closed spec fn app_redraw(&self) -> bool {
        self.redraw
    }

    /// Both panes are well-formed.
    pub open spec fn wf(&self) -> bool {
        &&& self.primary().wf()
        &&& self.preview().wf()
    }

    /// A fresh controller over `root`: the primary pane is active, the
    /// preview empty, nothing is stale.
    pub fn new(root: String) -> (r: App)
        ensures
            r.wf(),
            r.selected() is FilePicker,
            !r.exited(),
            r.reported_dir() == root@,
            !r.preview_stale(),
            !r.app_redraw(),
            r.primary().is_active() == true,
            r.primary().root_view() == root@,
            r.primary().marks_list() == Seq::<Seq<char>>::empty(),
            r.preview().is_active() == false,
    {
        let file_picker = FilePicker::new(true, root.clone());
        App {
            file_picker,
            preview_pane: PreviewPane::new(),
            curr_selected: WhichPane::FilePicker,
            exit: false,
            cur_dir: root,
            preview_stale: false,
            redraw: false,
        }
    }

    /// Route one key: `q` ends the run, a control key switches the active
    /// pane, anything else goes to the active pane, whose request comes
    /// back tagged. A movement key on the primary pane leaves the preview
    /// stale.
    pub fn handle_key(&mut self, key: char, ctrl: bool) -> (r: AppRequest)
        requires
            old(self).wf(),
        ensures
            final(self).wf(),
            final(self).reported_dir() == old(self).reported_dir(),
            final(self).exited() == (old(self).exited() || key == 'q'),
            final(self).app_redraw() == (old(self).app_redraw() || (key != 'q' && ctrl && (key
                == 'l' || key == 'h'))),
            key == 'q' ==> {
                &&& final(self).primary() == old(self).primary()
                &&& final(self).preview() == old(self).preview()
                &&& final(self).selected() == old(self).selected()
                &&& final(self).preview_stale() == old(self).preview_stale()
                &&& r is Idle
            },
            (key != 'q' && ctrl) ==> {
                &&& r is Idle
                &&& final(self).preview_stale() == old(self).preview_stale()
                &&& key == 'l' ==> final(self).selected() is PreviewPane && final(self).primary().is_active() == false && final(self).preview().is_active() == true
                &&& key == 'h' ==> final(self).selected() is FilePicker && final(self).primary().is_active() == true && final(self).preview().is_active() == false
                &&& (key == 'l' || key == 'h') ==> panes_kept_on_switch(*old(self), *final(self))
                &&& !(key == 'l' || key == 'h') ==> final(self).primary() == old(self).primary()
                    && final(self).preview() == old(self).preview() && final(self).selected()
                    == old(self).selected()
            },
            (key != 'q' && !ctrl && old(self).selected() is FilePicker) ==> {
                &&& final(self).preview() == old(self).preview()
                &&& final(self).selected() == old(self).selected()
                &&& (r matches AppRequest::Primary(req) && handle_keys_rel(
                    old(self).primary(),
                    final(self).primary(),
                    key,
                    req,
                ))
                &&& final(self).preview_stale() == (old(self).preview_stale() || (movement_key(
                    key,
                ) && !old(self).primary().pending()))
            },
            (key != 'q' && !ctrl && old(self).selected() is PreviewPane) ==> {
                &&& final(self).primary() == old(self).primary()
                &&& final(self).selected() == old(self).selected()
                &&& final(self).preview_stale() == old(self).preview_stale()
                &&& final(self).preview().entry() == old(self).preview().entry()
                &&& final(self).preview().content() == old(self).preview().content()
                &&& (r matches AppRequest::Nested(req) && (opens_dir(
                    old(self).preview().entry().kind,
                ) ==> handle_keys_rel(
                    old(self).preview().nested_pane(),
                    final(self).preview().nested_pane(),
                    key,
                    req,
                )) && (!opens_dir(old(self).preview().entry().kind) ==> final(self).preview().nested_pane() == old(self).preview().nested_pane() && (req is Idle)))
            },
    {
        if key == 'q' {
            self.exit = true;
            return AppRequest::Idle;
        }
        if ctrl {
            if key == 'l' {
                self.curr_selected = WhichPane::PreviewPane;
                self.file_picker.set_active(false);
                self.preview_pane.set_active(true);
                self.redraw = true;
            } else if key == 'h' {
                self.curr_selected = WhichPane::FilePicker;
                self.file_picker.set_active(true);
                self.preview_pane.set_active(false);
                self.redraw = true;
            }
            return AppRequest::Idle;
        }
        match self.curr_selected {
            WhichPane::FilePicker => {
                let was_pending = self.file_picker.pending_flag();
                let req = self.file_picker.handle_keys(key);
                if !was_pending && (key == 'h' || key == 'j' || key == 'k' || key == 'l') {
                    self.preview_stale = true;
                }
                AppRequest::Primary(req)
            },
            WhichPane::PreviewPane => {
                let req = self.preview_pane.handle_keys(key);
                AppRequest::Nested(req)
            },
        }
    }

    /// When a movement left the preview stale, point it at the entry now
    /// under the primary cursor and say what must be fetched for it.
    pub fn take_preview_fetch(&mut self) -> (r: Option<PreviewFetch>)
        requires
            old(self).wf(),
        ensures
            final(self).wf(),
            final(self).primary() == old(self).primary(),
            final(self).selected() == old(self).selected(),
            final(self).exited() == old(self).exited(),
            final(self).reported_dir() == old(self).reported_dir(),
            final(self).app_redraw() == old(self).app_redraw(),
            final(self).preview_stale() == false,
            !old(self).preview_stale() ==> r is None && final(self).preview() == old(self).preview(),
            old(self).preview_stale() ==> {
                &&& final(self).preview().entry() == old(self).primary().listing()[old(self).primary().cursor()]
                &&& final(self).preview().content() == old(self).preview().content()
                &&& final(self).preview().nested_pane() == old(self).preview().nested_pane()
                &&& (r matches Some(f) && {
                    let e = old(self).primary().listing()[old(self).primary().cursor()];
                    &&& classify_of(e.kind, name_of(e.path@)) is Directory ==> (f
                        matches PreviewFetch::Dir(p) && p@ == e.path@)
                    &&& classify_of(e.kind, name_of(e.path@)) is Image ==> (f
                        matches PreviewFetch::Image(p) && p@ == e.path@)
                    &&& classify_of(e.kind, name_of(e.path@)) is Text ==> (f
                        matches PreviewFetch::Text(p) && p@ == e.path@)
                })
            },
    {
        if !self.preview_stale {
            return None;
        }
        self.preview_stale = false;
        let entry = self.file_picker.current_entry();
        Some(self.preview_pane.initialize(entry))
    }

    /// Take back a directory read for the primary pane after browsing
    /// into `dir`: the reported directory moves there.
    pub fn finish_primary_open(
        &mut self,
        dir: String,
        children: Result<Vec<ChildEntry>, FilesystemError>,
    )
        requires
            old(self).wf(),
            children matches Ok(cs) ==> children_ok(cs@),
        ensures
            final(self).wf(),
            final(self).preview() == old(self).preview(),
            final(self).selected() == old(self).selected(),
            final(self).exited() == old(self).exited(),
            final(self).preview_stale() == old(self).preview_stale(),
            final(self).app_redraw() == old(self).app_redraw(),
            final(self).reported_dir() == dir@,
            initialize_rel(
                old(self).primary(),
                final(self).primary(),
                dir@,
                children_view(children),
                None,
            ),
    {
        self.cur_dir = dir.clone();
        self.file_picker.initialize(dir, children, None);
    }

    /// Take back a directory read that refreshes the primary pane in
    /// place.
    pub fn finish_primary_refresh(
        &mut self,
        dir: String,
        children: Result<Vec<ChildEntry>, FilesystemError>,
        desired: Option<usize>,
    )
        requires
            old(self).wf(),
            children matches Ok(cs) ==> children_ok(cs@),
        ensures
            final(self).wf(),
            final(self).preview() == old(self).preview(),
            final(self).selected() == old(self).selected(),
            final(self).exited() == old(self).exited(),
            final(self).preview_stale() == old(self).preview_stale(),
            final(self).app_redraw() == old(self).app_redraw(),
            final(self).reported_dir() == old(self).reported_dir(),
            initialize_rel(
                old(self).primary(),
                final(self).primary(),
                dir@,
                children_view(children),
                desired,
            ),
    {
        self.file_picker.initialize(dir, children, desired);
    }

    /// Take back a directory read for the nested preview pane after it
    /// browsed into `dir`: the reported directory moves there.
    pub fn finish_nested_open(
        &mut self,
        dir: String,
        children: Result<Vec<ChildEntry>, FilesystemError>,
    )
        requires
            old(self).wf(),
            children matches Ok(cs) ==> children_ok(cs@),
        ensures
            final(self).wf(),
            final(self).primary() == old(self).primary(),
            final(self).selected() == old(self).selected(),
            final(self).exited() == old(self).exited(),
            final(self).preview_stale() == old(self).preview_stale(),
            final(self).app_redraw() == old(self).app_redraw(),
            final(self).reported_dir() == dir@,
            final(self).preview().entry() == old(self).preview().entry(),
            final(self).preview().content() == old(self).preview().content(),
            initialize_rel(
                old(self).preview().nested_pane(),
                final(self).preview().nested_pane(),
                dir@,
                children_view(children),
                None,
            ),
    {
        self.cur_dir = dir.clone();
        self.preview_pane.nested_initialize(dir, children, None);
    }

    /// Take back a directory read that refreshes the nested preview pane
    /// in place.
    pub fn finish_nested_refresh(
        &mut self,
        dir: String,
        children: Result<Vec<ChildEntry>, FilesystemError>,
        desired: Option<usize>,
    )
        requires
            old(self).wf(),
            children matches Ok(cs) ==> children_ok(cs@),
        ensures
            final(self).wf(),
            final(self).primary() == old(self).primary(),
            final(self).selected() == old(self).selected(),
            final(self).exited() == old(self).exited(),
            final(self).preview_stale() == old(self).preview_stale(),
            final(self).app_redraw() == old(self).app_redraw(),
            final(self).reported_dir() == old(self).reported_dir(),
            final(self).preview().entry() == old(self).preview().entry(),
            final(self).preview().content() == old(self).preview().content(),
            initialize_rel(
                old(self).preview().nested_pane(),
                final(self).preview().nested_pane(),
                dir@,
                children_view(children),
                desired,
            ),
    {
        self.preview_pane.nested_initialize(dir, children, desired);
    }

    /// Take back a directory read fetched for the preview: the nested
    /// pane lists it with the cursor on its parent entry.
    pub fn finish_preview_dir(&mut self, children: Result<Vec<ChildEntry>, FilesystemError>)
        requires
            old(self).wf(),
            children matches Ok(cs) ==> children_ok(cs@),
        ensures
            final(self).wf(),
            final(self).primary() == old(self).primary(),
            final(self).selected() == old(self).selected(),
            final(self).exited() == old(self).exited(),
            final(self).preview_stale() == old(self).preview_stale(),
            final(self).app_redraw() == old(self).app_redraw(),
            final(self).reported_dir() == old(self).reported_dir(),
            final(self).preview().entry() == old(self).preview().entry(),
            (final(self).preview().content() matches
                crate::preview_pane::PreviewContent::NestedPane),
            initialize_rel(
                old(self).preview().nested_pane(),
                final(self).preview().nested_pane(),
                old(self).preview().entry().path@,
                children_view(children),
                Some(0),
            ),
    {
        self.preview_pane.finish_dir(children);
    }

    /// Take back an image rendering fetched for the preview.
    pub fn finish_preview_image(&mut self, rendered: Option<String>)
        requires
            old(self).wf(),
        ensures
            final(self).wf(),
            final(self).primary() == old(self).primary(),
            final(self).selected() == old(self).selected(),
            final(self).exited() == old(self).exited(),
            final(self).preview_stale() == old(self).preview_stale(),
            final(self).app_redraw() == old(self).app_redraw(),
            final(self).reported_dir() == old(self).reported_dir(),
            final(self).preview().entry() == old(self).preview().entry(),
            final(self).preview().nested_pane() == old(self).preview().nested_pane(),
            rendered matches Some(s) ==> (final(self).preview().content() matches
                crate::preview_pane::PreviewContent::GlyphArt(lines) && lines@.map_values(
                |x: String| x@,
            ) == crate::preview_pane::split_lines_of(s@)),
            rendered is None ==> (final(self).preview().content() matches
                crate::preview_pane::PreviewContent::Placeholder(p) && p@
                == crate::preview_pane::cannot_preview_label()),
    {
        self.preview_pane.finish_image(rendered);
    }

    /// Take back a text read fetched for the preview.
    pub fn finish_preview_text(&mut self, text: Option<String>)
        requires
            old(self).wf(),
        ensures
            final(self).wf(),
            final(self).primary() == old(self).primary(),
            final(self).selected() == old(self).selected(),
            final(self).exited() == old(self).exited(),
            final(self).preview_stale() == old(self).preview_stale(),
            final(self).app_redraw() == old(self).app_redraw(),
            final(self).reported_dir() == old(self).reported_dir(),
            final(self).preview().entry() == old(self).preview().entry(),
            final(self).preview().nested_pane() == old(self).preview().nested_pane(),
            text matches Some(s) ==> (final(self).preview().content() matches
                crate::preview_pane::PreviewContent::RawText(t) && t@ == s@),
            text is None ==> (final(self).preview().content() matches
                crate::preview_pane::PreviewContent::Placeholder(p) && p@
                == crate::preview_pane::cannot_preview_label()),
    {
        self.preview_pane.finish_text(text);
    }

    /// Take back a confirmed-or-declined deletion for the primary pane.
    pub fn finish_primary_delete(&mut self, confirmed: bool, batch: bool) -> (r: PickerRequest)
        requires
            old(self).wf(),
        ensures
            final(self).wf(),
            final(self).preview() == old(self).preview(),
            final(self).selected() == old(self).selected(),
            final(self).exited() == old(self).exited(),
            final(self).preview_stale() == old(self).preview_stale(),
            final(self).app_redraw() == old(self).app_redraw(),
            final(self).reported_dir() == old(self).reported_dir(),
            finish_delete_rel(old(self).primary(), final(self).primary(), confirmed, batch, r),
    {
        self.file_picker.finish_delete(confirmed, batch)
    }

    /// Take back a confirmed-or-declined deletion for the nested preview
    /// pane.
    pub fn finish_nested_delete(&mut self, confirmed: bool, batch: bool) -> (r: PickerRequest)
        requires
            old(self).wf(),
        ensures
            final(self).wf(),
            final(self).primary() == old(self).primary(),
            final(self).selected() == old(self).selected(),
            final(self).exited() == old(self).exited(),
            final(self).preview_stale() == old(self).preview_stale(),
            final(self).app_redraw() == old(self).app_redraw(),
            final(self).reported_dir() == old(self).reported_dir(),
            final(self).preview().entry() == old(self).preview().entry(),
            final(self).preview().content() == old(self).preview().content(),
            finish_delete_rel(
                old(self).preview().nested_pane(),
                final(self).preview().nested_pane(),
                confirmed,
                batch,
                r,
            ),
    {
        self.preview_pane.finish_delete(confirmed, batch)
    }

    /// Whether the run is over.
    pub fn is_exit(&self) -> (r: bool)
        ensures
            r == self.exited(),
    {
        self.exit
    }

    /// The directory to report: the last one browsed into.
    pub fn current_dir(&self) -> (r: String)
        ensures
            r@ == self.reported_dir(),
    {
        self.cur_dir.clone()
    }

    /// Whether the next frame must be redrawn in full; asking pays the
    /// debt and clears every redraw flag.
    pub fn take_redraw(&mut self) -> (r: bool)
        requires
            old(self).wf(),
        ensures
            final(self).wf(),
            r == (old(self).primary().redraw_needed() || old(self).preview().redraw_needed()
                || old(self).app_redraw()),
            final(self).primary().redraw_needed() == false,
            final(self).preview().redraw_needed() == false,
            final(self).app_redraw() == false,
            final(self).selected() == old(self).selected(),
            final(self).exited() == old(self).exited(),
            final(self).reported_dir() == old(self).reported_dir(),
            final(self).preview_stale() == old(self).preview_stale(),
            final(self).primary().listing() == old(self).primary().listing(),
            final(self).primary().cursor() == old(self).primary().cursor(),
            final(self).primary().marks_list() == old(self).primary().marks_list(),
            final(self).primary().root_view() == old(self).primary().root_view(),
            final(self).preview().entry() == old(self).preview().entry(),
            final(self).preview().content() == old(self).preview().content(),
            final(self).preview().nested_pane().listing() == old(self).preview().nested_pane().listing(),
            final(self).preview().nested_pane().cursor() == old(self).preview().nested_pane().cursor(),
    {
        let r = self.file_picker.redraw_flag() || self.preview_pane.redraw_flag() || self.redraw;
        self.file_picker.clear_redraw();
        self.preview_pane.clear_redraw();
        self.redraw = false;
        r
    }

    /// The primary pane, for the rendering layer.
    pub fn primary_ref(&self) -> (r: &FilePicker)
        ensures
            *r == self.primary(),
    {
        &self.file_picker
    }

    /// The preview pane, for the rendering layer.
    pub fn preview_ref(&self) -> (r: &PreviewPane)
        ensures
            *r == self.preview(),
    {
        &self.preview_pane
    }
}

/// On a pane switch everything but the active flags stays: the listings,
/// cursors, marks, roots and the preview's entry and content.
pub open spec fn panes_kept_on_switch(o: App, n: App) -> bool {
    &&& n.primary().listing() == o.primary().listing()
    &&& n.primary().cursor() == o.primary().cursor()
    &&& n.primary().marks_list() == o.primary().marks_list()
    &&& n.primary().root_view() == o.primary().root_view()
    &&& n.primary().pending() == o.primary().pending()
    &&& n.preview().entry() == o.preview().entry()
    &&& n.preview().content() == o.preview().content()
    &&& n.preview().nested_pane().listing() == o.preview().nested_pane().listing()
    &&& n.preview().nested_pane().cursor() == o.preview().nested_pane().cursor()
    &&& n.preview().nested_pane().marks_list() == o.preview().nested_pane().marks_list()
    &&& n.preview().nested_pane().root_view() == o.preview().nested_pane().root_view()
}

} // verus!
