//! The navigation pane: one directory listing, a cursor into it, and the
//! selection buffer of marked paths.
//!
//! Every operation keeps the cursor inside the listing. Work that needs
//! the filesystem — reading a directory, confirming and performing a
//! deletion — is not done here: the pane answers each key with a
//! [`PickerRequest`] saying what the surrounding layer must do, and takes
//! the outcome back through `initialize` and `finish_delete`.

use vstd::prelude::*;

use crate::dir::{
    label_of, marked_label_of, ChildEntry, Dir, EntryKind, FilesystemError, error_label_of,
    error_message_of, opens_dir, parent_path_of,
};
use crate::lister::{
    children_ok, entry_consistent, entry_triple, child_triple, is_listing_of, is_parent_entry,
    listing_le,
};
use crate::paths::{join_of, name_of, parent_part};
use crate::selection::{toggled_set, SelectionBuffer};

verus! {

/// What the pane asks of the surrounding layer after a key.
pub enum PickerRequest {
    /// Nothing to do.
    Idle,
    /// Read the directory again and hand the children back to
    /// `initialize`, with this desired cursor index.
    Refresh(String, Option<usize>),
    /// The browsing root moves to this directory: make it the working
    /// directory, read it, and hand the children to `initialize`.
    OpenDir(String),
    /// Ask the user to confirm deleting these paths; the flag says whether
    /// this is the batch of marked paths. Perform what was confirmed, then
    /// call `finish_delete`.
    ConfirmDelete(Vec<String>, bool),
    /// Show the keybindings.
    ShowHelp,
}

/// The entry under the cursor of a displayed listing, with its label
/// showing its membership among the marked paths.
pub open spec fn entry_displayed(e: Dir, dir: Seq<char>, marks: Set<Seq<char>>) -> bool {
    &&& !(e.kind is ParentMarker)
    &&& e.path@ == join_of(dir, name_of(e.path@))
    &&& e.display_name@ == marked_label_of(e.kind, name_of(e.path@), marks.contains(e.path@))
}

/// The parent entry of a displayed listing.
pub open spec fn parent_displayed(e: Dir, dir: Seq<char>, marks: Set<Seq<char>>) -> bool {
    &&& e.kind is ParentMarker
    &&& e.path@ == parent_path_of(dir)
    &&& e.display_name@ == marked_label_of(
        EntryKind::ParentMarker,
        name_of(e.path@),
        marks.contains(e.path@),
    )
}

/// A displayed listing of `dir` with children `cs` under the marks
/// `marks`: the listing contract of the lister, with every label showing
/// its path's membership among the marked paths.
pub open spec fn is_displayed_listing_of(
    r: Seq<Dir>,
    dir: Seq<char>,
    cs: Seq<ChildEntry>,
    marks: Set<Seq<char>>,
) -> bool {
    &&& r.len() == cs.len() + 1
    &&& parent_displayed(r[0], dir, marks)
    &&& forall|i: int| 1 <= i < r.len() ==> entry_displayed(#[trigger] r[i], dir, marks)
    &&& r.skip(1).map_values(|e: Dir| entry_triple(e)).to_multiset() == cs.map_values(
        |c: ChildEntry| child_triple(c),
    ).to_multiset()
    &&& forall|i: int, j: int| 1 <= i < j < r.len() ==> listing_le(#[trigger] r[i], #[trigger] r[j])
}

/// The banner of the one-entry listing shown when a directory could not
/// be read.
pub open spec fn error_banner_of(e: FilesystemError) -> Seq<char> {
    "Couldn't read entry: "@ + error_label_of(e)
}

/// Where the cursor lands in a fresh listing of length `len`: a desired
/// index that is in range wins; otherwise the first real entry, or the
/// parent entry of an empty directory.
pub open spec fn index_policy(len: int, desired: Option<usize>) -> int {
    match desired {
        Some(v) => if v < len {
            v as int
        } else {
            fallback_index(len)
        },
        None => fallback_index(len),
    }
}

/// The cursor position when no valid index is asked for.
pub open spec fn fallback_index(len: int) -> int {
    if len > 1 {
        1
    } else {
        0
    }
}

/// The label with its first character replaced by the mark indicator.
fn mark_label(s: &String) -> (r: String)
    requires
        s@.len() >= 1,
    ensures
        r@ == seq!['-'] + s@.skip(1),
{
    let n: usize = s.as_str().unicode_len();
    let r = String::from_str("-").concat(s.as_str().substring_char(1, n));
    proof {
        reveal_strlit("-");
        assert(r@ =~= seq!['-'] + s@.skip(1));
    }
    r
}

/// A listing outcome as a plain value: the children's views, or the error.
pub open spec fn children_view(r: Result<Vec<ChildEntry>, FilesystemError>) -> Result<
    Seq<ChildEntry>,
    FilesystemError,
> {
    match r {
        Ok(v) => Ok(v@),
        Err(e) => Err(e),
    }
}

/// What `initialize` does to a pane: the listing is rebuilt over `dir`
/// under the pane's marks, the cursor lands by the index policy, and the
/// marks and flags ride through; a read failure leaves a one-entry
/// informational listing.
pub open spec fn initialize_rel(
    o: FilePicker,
    n: FilePicker,
    dir: Seq<char>,
    children: Result<Seq<ChildEntry>, FilesystemError>,
    desired: Option<usize>,
) -> bool {
    &&& n.wf()
    &&& n.root_view() == dir
    &&& n.marks_list() == o.marks_list()
    &&& n.is_active() == o.is_active()
    &&& n.redraw_needed() == o.redraw_needed()
    &&& n.pending() == o.pending()
    &&& children matches Ok(cs) ==> is_displayed_listing_of(n.listing(), dir, cs, o.marks())
    &&& children matches Ok(cs) ==> n.cursor() == index_policy(cs.len() as int + 1, desired)
    &&& children matches Err(e) ==> n.listing().len() == 1 && n.cursor() == 0 && n.listing()[0].display_name@
        == error_banner_of(e) && n.listing()[0].path@ == dir && n.listing()[0].kind
        == EntryKind::File
}

/// What one key does to a pane, and what it asks of the surrounding
/// layer: the transition relation of `handle_keys`.
pub open spec fn handle_keys_rel(o: FilePicker, n: FilePicker, key: char, r: PickerRequest) -> bool {
    &&& (n.wf())
    &&& (n.root_view() == o.root_view())
    &&& (n.is_active() == o.is_active())
    // the second key of a `b` sequence
    &&& (o.pending() ==> {
                &&& n.pending() == false
                &&& n.listing() == o.listing()
                &&& n.cursor() == o.cursor()
                &&& n.redraw_needed() == (o.redraw_needed() || key == 'd' || key == 'c')
                &&& key == 'c' ==> n.marks_list() == Seq::<Seq<char>>::empty() && (
                r matches PickerRequest::Refresh(d, ix) && d@ == o.root_view() && ix
                    == Some(o.cursor() as usize))
                &&& key == 'd' ==> n.marks_list() == o.marks_list() && (
                r matches PickerRequest::ConfirmDelete(ps, batch) && ps@.map_values(
                    |s: String| s@,
                ) == o.marks_list() && batch == true)
                &&& (key != 'c' && key != 'd') ==> n.marks_list() == o.marks_list() && r is Idle
            })
    // ordinary keys
    &&& (!o.pending() ==> {
                &&& n.pending() == (key == 'b')
                &&& n.redraw_needed() == (o.redraw_needed() || key == '?' || key == 'd'
                    || key == ' ')
                &&& key == 'j' ==> n.cursor() == if o.cursor() + 1 < o.listing().len() {
                    o.cursor() + 1
                } else {
                    o.cursor()
                } && n.listing() == o.listing() && r is Idle
                &&& key == 'k' ==> n.cursor() == if o.cursor() > 0 {
                    o.cursor() - 1
                } else {
                    0
                } && n.listing() == o.listing() && r is Idle
                &&& key == 'g' ==> n.cursor() == fallback_index(
                    o.listing().len() as int,
                ) && n.listing() == o.listing() && r is Idle
                &&& key == 'G' ==> n.cursor() == o.listing().len() - 1 && n.listing() == o.listing() && r is Idle
                &&& key == 'l' ==> n.cursor() == o.cursor() && n.listing() == o.listing() && (if opens_dir(
                    o.listing()[o.cursor()].kind,
                ) {
                    r matches PickerRequest::OpenDir(d) && d@ == o.listing()[o.cursor()].path@
                } else {
                    r is Idle
                })
                &&& key == 'h' ==> n.cursor() == o.cursor() && n.listing() == o.listing() && (match crate::paths::parent_of(
                    o.root_view(),
                ) {
                    Some(p) => r matches PickerRequest::OpenDir(d) && d@ == p,
                    None => r is Idle,
                })
                &&& key == ' ' ==> n.marks() == toggled_set(
                    o.marks(),
                    o.listing()[o.cursor()].path@,
                ) && n.cursor() == o.cursor() && n.listing() == o.listing() && (r matches PickerRequest::Refresh(d, ix) && d@ == o.root_view() && ix == Some(o.cursor() as usize))
                &&& key == 'd' ==> n.cursor() == o.cursor() && n.listing() == o.listing() && (r matches PickerRequest::ConfirmDelete(
                    ps,
                    batch,
                ) && ps@.map_values(|s: String| s@) == seq![
                    o.listing()[o.cursor()].path@,
                ] && batch == false)
                &&& key == '?' ==> n.cursor() == o.cursor() && n.listing() == o.listing() && (r matches PickerRequest::ShowHelp)
                &&& key != ' ' ==> n.marks_list() == o.marks_list()
                &&& (key == 'b' || !(key == 'j' || key == 'k' || key == 'g' || key == 'G' || key
                    == 'l' || key == 'h' || key == ' ' || key == 'd' || key == '?')) ==> n.cursor() == o.cursor() && n.listing() == o.listing()
                    && r is Idle
            })
}

/// What taking back a deletion outcome does to a pane: the transition
/// relation of `finish_delete`.
pub open spec fn finish_delete_rel(
    o: FilePicker,
    n: FilePicker,
    confirmed: bool,
    batch: bool,
    r: PickerRequest,
) -> bool {
    &&& (n.wf())
    &&& (n.listing() == o.listing())
    &&& (n.cursor() == o.cursor())
    &&& (n.root_view() == o.root_view())
    &&& (n.is_active() == o.is_active())
    &&& (n.pending() == o.pending())
    &&& (n.redraw_needed() == true)
    &&& (!confirmed ==> r is Idle && n.marks_list() == o.marks_list())
    &&& (confirmed ==> (r matches PickerRequest::Refresh(d, ix) && d@ == o.root_view() && ix == (if o.cursor() > 2 {
                Some((o.cursor() - 1) as usize)
            } else {
                None::<usize>
            })))
    &&& ((confirmed && batch) ==> n.marks_list() == Seq::<Seq<char>>::empty())
    &&& ((confirmed && !batch) ==> n.marks_list() == o.marks_list())
}

/// The navigation pane.
pub struct FilePicker {
    items: Vec<Dir>,
    index: usize,
    buffer: SelectionBuffer,
    root: String,
    active: bool,
    needs_redraw: bool,
    pending_seq: bool,
}

impl FilePicker {
    /// The entries shown, the parent entry first.
    pub closed spec fn listing(&self) -> Seq<Dir> {
        self.items@
    }

    /// The cursor: an index into the listing.
    pub closed spec fn cursor(&self) -> int {
        self.index as int
    }

    /// The directory whose listing is shown.
    pub closed spec fn root_view(&self) -> Seq<char> {
        self.root@
    }

    /// The marked paths in the order they were marked.
    pub closed spec fn marks_list(&self) -> Seq<Seq<char>> {
        self.buffer.paths()
    }

    /// The marked paths as a set: always the set of the marked-path list,
    /// so whatever preserves the list preserves the set.
    pub open spec fn marks(&self) -> Set<Seq<char>> {
        self.marks_list().to_set()
    }

    /// Whether a `b` was pressed and the pane waits for the second key of
    /// the sequence.
    pub closed spec fn pending(&self) -> bool {
        self.pending_seq
    }

    /// Whether this pane receives key events.
    pub closed spec fn is_active(&self) -> bool {
        self.active
    }

    /// Whether something changed that the rendering layer's own change
    /// detection cannot see, so the next frame must be redrawn in full.
    pub closed spec fn redraw_needed(&self) -> bool {
        self.needs_redraw
    }

    /// Make the pane active or inactive for key events.
    pub fn set_active(&mut self, a: bool)
        ensures
            final(self).is_active() == a,
            final(self).wf() == old(self).wf(),
            final(self).listing() == old(self).listing(),
            final(self).cursor() == old(self).cursor(),
            final(self).root_view() == old(self).root_view(),
            final(self).marks_list() == old(self).marks_list(),
            final(self).redraw_needed() == old(self).redraw_needed(),
            final(self).pending() == old(self).pending(),
    {
        self.active = a;
    }

    /// Whether the pane waits for the second key of a `b` sequence.
    pub fn pending_flag(&self) -> (r: bool)
        ensures
            r == self.pending(),
    {
        self.pending_seq
    }

    /// Whether the pane is active, for the rendering layer.
    pub fn active_flag(&self) -> (r: bool)
        ensures
            r == self.is_active(),
    {
        self.active
    }

    /// Whether a full redraw is owed.
    pub fn redraw_flag(&self) -> (r: bool)
        ensures
            r == self.redraw_needed(),
    {
        self.needs_redraw
    }

    /// The redraw debt is paid: clear the flag.
    pub fn clear_redraw(&mut self)
        ensures
            final(self).redraw_needed() == false,
            final(self).wf() == old(self).wf(),
            final(self).listing() == old(self).listing(),
            final(self).cursor() == old(self).cursor(),
            final(self).root_view() == old(self).root_view(),
            final(self).marks_list() == old(self).marks_list(),
            final(self).is_active() == old(self).is_active(),
            final(self).pending() == old(self).pending(),
    {
        self.needs_redraw = false;
    }

    /// The marked paths as a set, and whether they are held soundly.
    pub closed spec fn marks_wf(&self) -> bool {
        self.buffer.wf()
    }

    /// The cursor always stands inside the never-empty listing, and no
    /// path is marked twice.
    pub open spec fn wf(&self) -> bool {
        &&& self.listing().len() >= 1
        &&& 0 <= self.cursor() < self.listing().len()
        &&& self.marks_wf()
    }

    /// A fresh pane over `root`, showing only the parent entry until the
    /// first `initialize`.
    pub fn new(is_selected: bool, root: String) -> (r: FilePicker)
        ensures
            r.wf(),
            r.cursor() == 0,
            r.root_view() == root@,
            r.marks_list() == Seq::<Seq<char>>::empty(),
            r.is_active() == is_selected,
            r.redraw_needed() == false,
            r.pending() == false,
            r.listing().len() == 1,
            is_parent_entry(r.listing()[0], root@),
    {
        let mut items: Vec<Dir> = Vec::new();
        items.push(Dir::parent_entry(&root));
        FilePicker {
            items,
            index: 0,
            buffer: SelectionBuffer::new(),
            root,
            active: is_selected,
            needs_redraw: false,
            pending_seq: false,
        }
    }

    /// Replace the listing with a fresh one of `dir`, whose children the
    /// filesystem reported as `children`, and place the cursor by the
    /// index policy. On a read failure the listing becomes a single
    /// informational entry, so the pane always shows something.
    pub fn initialize(
        &mut self,
        dir: String,
        children: Result<Vec<ChildEntry>, FilesystemError>,
        desired: Option<usize>,
    )
        requires
            old(self).wf(),
            children matches Ok(cs) ==> children_ok(cs@),
        ensures
            initialize_rel(*old(self), *final(self), dir@, children_view(children), desired),
    {
        match children {
            Ok(cs) => {
                let base = Dir::get_dir_entries_ordered(&dir, &cs);
                let mut items: Vec<Dir> = Vec::new();
                let mut i: usize = 0;
                while i < base.len()
                    invariant
                        i <= base.len(),
                        is_listing_of(base@, dir@, cs@),
                        items@.len() == i,
                        self.buffer == old(self).buffer,
                        old(self).wf(),
                        forall|k: int|
                            0 <= k < i ==> (#[trigger] items@[k]).path@ == base@[k].path@
                                && items@[k].kind == base@[k].kind && items@[k].display_name@
                                == marked_label_of(
                                base@[k].kind,
                                name_of(base@[k].path@),
                                old(self).marks().contains(base@[k].path@),
                            ),
                    decreases base.len() - i,
                {
                    let e = &base[i];
                    let marked = self.buffer.contains_path(&e.path);
                    proof {
                        if i == 0 {
                            assert(is_parent_entry(base@[0], dir@));
                            assert(e.display_name@ == label_of(e.kind, name_of(e.path@)));
                        } else {
                            assert(entry_consistent(base@[i as int], dir@));
                        }
                        assert(e.display_name@.len() >= 1);
                    }
                    let display_name = if marked {
                        mark_label(&e.display_name)
                    } else {
                        e.display_name.clone()
                    };
                    let entry = Dir { path: e.path.clone(), display_name, kind: e.kind };
                    proof {
                        assert(entry.display_name@ == marked_label_of(
                            base@[i as int].kind,
                            name_of(base@[i as int].path@),
                            old(self).marks().contains(base@[i as int].path@),
                        ));
                    }
                    items.push(entry);
                    i = i + 1;
                }
                let len = items.len();
                let new_index: usize = match desired {
                    Some(v) => {
                        if v < len {
                            v
                        } else {
                            if len > 1 {
                                1
                            } else {
                                0
                            }
                        }
                    },
                    None => if len > 1 {
                        1
                    } else {
                        0
                    },
                };
                self.items = items;
                self.index = new_index;
                self.root = dir;
                proof {
                    assert(is_displayed_listing_of(
                        self.items@,
                        self.root@,
                        cs@,
                        old(self).marks(),
                    )) by {
                        assert(forall|k: int|
                            1 <= k < self.items@.len() ==> entry_consistent(
                                #[trigger] base@[k],
                                dir@,
                            ));
                        assert(forall|k: int|
                            1 <= k < self.items@.len() ==> name_of(
                                (#[trigger] self.items@[k]).path@,
                            ) == name_of(base@[k].path@));
                        assert(self.items@.skip(1).map_values(|e: Dir| entry_triple(e)) =~= base@.skip(
                            1,
                        ).map_values(|e: Dir| entry_triple(e)));
                        assert(forall|a: int, b: int|
                            1 <= a < b < self.items@.len() ==> listing_le(
                                #[trigger] self.items@[a],
                                #[trigger] self.items@[b],
                            )) by {
                            assert(forall|a: int, b: int|
                                1 <= a < b < base@.len() ==> listing_le(
                                    #[trigger] base@[a],
                                    #[trigger] base@[b],
                                ));
                        }
                    }
                }
            },
            Err(e) => {
                let mut items: Vec<Dir> = Vec::new();
                let mut banner = String::from_str("Couldn't read entry: ");
                banner.append(error_message_of(e).as_str());
                proof {
                    reveal_strlit("Couldn't read entry: ");
                    assert(banner@ =~= error_banner_of(e));
                }
                items.push(Dir { path: dir.clone(), display_name: banner, kind: EntryKind::File });
                self.items = items;
                self.index = 0;
                self.root = dir;
            },
        }
    }

    /// Move the cursor one entry down, stopping at the last.
    pub fn select_next(&mut self)
        requires
            old(self).wf(),
        ensures
            final(self).wf(),
            final(self).cursor() == if old(self).cursor() + 1 < old(self).listing().len() {
                old(self).cursor() + 1
            } else {
                old(self).cursor()
            },
            final(self).listing() == old(self).listing(),
            final(self).root_view() == old(self).root_view(),
            final(self).marks_list() == old(self).marks_list(),
            final(self).is_active() == old(self).is_active(),
            final(self).redraw_needed() == old(self).redraw_needed(),
            final(self).pending() == old(self).pending(),
    {
        if self.index < self.items.len() - 1 {
            self.index = self.index + 1;
        }
    }

    /// Move the cursor one entry up, stopping at the first.
    pub fn select_prev(&mut self)
        requires
            old(self).wf(),
        ensures
            final(self).wf(),
            final(self).cursor() == if old(self).cursor() > 0 {
                old(self).cursor() - 1
            } else {
                0
            },
            final(self).listing() == old(self).listing(),
            final(self).root_view() == old(self).root_view(),
            final(self).marks_list() == old(self).marks_list(),
            final(self).is_active() == old(self).is_active(),
            final(self).redraw_needed() == old(self).redraw_needed(),
            final(self).pending() == old(self).pending(),
    {
        if self.index > 0 {
            self.index = self.index - 1;
        }
    }

    /// Put the cursor on the first real entry, or on the parent entry of
    /// an empty listing.
    pub fn select_first(&mut self)
        requires
            old(self).wf(),
        ensures
            final(self).wf(),
            final(self).cursor() == fallback_index(old(self).listing().len() as int),
            final(self).listing() == old(self).listing(),
            final(self).root_view() == old(self).root_view(),
            final(self).marks_list() == old(self).marks_list(),
            final(self).is_active() == old(self).is_active(),
            final(self).redraw_needed() == old(self).redraw_needed(),
            final(self).pending() == old(self).pending(),
    {
        self.index = if self.items.len() > 1 {
            1
        } else {
            0
        };
    }

    /// Put the cursor on the last entry.
    pub fn select_last(&mut self)
        requires
            old(self).wf(),
        ensures
            final(self).wf(),
            final(self).cursor() == old(self).listing().len() - 1,
            final(self).listing() == old(self).listing(),
            final(self).root_view() == old(self).root_view(),
            final(self).marks_list() == old(self).marks_list(),
            final(self).is_active() == old(self).is_active(),
            final(self).redraw_needed() == old(self).redraw_needed(),
            final(self).pending() == old(self).pending(),
    {
        self.index = self.items.len() - 1;
    }

    /// The path of the entry under the cursor.
    pub fn curr_sel_entry(&self) -> (r: String)
        requires
            self.wf(),
        ensures
            r@ == self.listing()[self.cursor()].path@,
    {
        self.items[self.index].path.clone()
    }

    /// The entry under the cursor.
    pub fn current_entry(&self) -> (r: Dir)
        requires
            self.wf(),
        ensures
            r == self.listing()[self.cursor()],
    {
        self.items[self.index].duplicate()
    }

    /// The directory whose listing is shown.
    pub fn get_curr_displaying_dir(&self) -> (r: String)
        ensures
            r@ == self.root_view(),
    {
        self.root.clone()
    }

    /// The labels of the entries, for the rendering layer.
    pub fn display_entries(&self) -> (r: Vec<String>)
        ensures
            r@.map_values(|s: String| s@) == self.listing().map_values(|e: Dir| e.display_name@),
    {
        let mut r: Vec<String> = Vec::new();
        let mut i: usize = 0;
        while i < self.items.len()
            invariant
                i <= self.items.len(),
                r@.len() == i,
                forall|k: int| 0 <= k < i ==> (#[trigger] r@[k])@ == self.items@[k].display_name@,
            decreases self.items.len() - i,
        {
            r.push(self.items[i].display_name.clone());
            i = i + 1;
        }
        proof {
            assert(r@.map_values(|s: String| s@) =~= self.listing().map_values(
                |e: Dir| e.display_name@,
            ));
        }
        r
    }

    /// The cursor index, for the rendering layer's list state.
    pub fn cursor_index(&self) -> (r: usize)
        ensures
            r == self.cursor(),
    {
        self.index
    }

    /// Flip the mark on the entry under the cursor.
    fn toggle_mark(&mut self)
        requires
            old(self).wf(),
        ensures
            final(self).wf(),
            final(self).marks() == toggled_set(
                old(self).marks(),
                old(self).listing()[old(self).cursor()].path@,
            ),
            final(self).listing() == old(self).listing(),
            final(self).cursor() == old(self).cursor(),
            final(self).root_view() == old(self).root_view(),
            final(self).is_active() == old(self).is_active(),
            final(self).redraw_needed() == old(self).redraw_needed(),
            final(self).pending() == old(self).pending(),
    {
        let p = self.items[self.index].path.clone();
        self.buffer.toggle(&p);
    }

    /// Answer one key. Movement is done at once; whatever needs the
    /// filesystem or the user comes back as a request.
    pub fn handle_keys(&mut self, key: char) -> (r: PickerRequest)
        requires
            old(self).wf(),
        ensures
            handle_keys_rel(*old(self), *final(self), key, r),

    {
        if self.pending_seq {
            self.pending_seq = false;
            if key == 'c' {
                self.needs_redraw = true;
                self.buffer.clear();
                let dir = self.root.clone();
                return PickerRequest::Refresh(dir, Some(self.index));
            } else if key == 'd' {
                self.needs_redraw = true;
                let paths = self.buffer.paths_vec();
                return PickerRequest::ConfirmDelete(paths, true);
            } else {
                return PickerRequest::Idle;
            }
        }
        if key == 'j' {
            self.select_next();
            PickerRequest::Idle
        } else if key == 'k' {
            self.select_prev();
            PickerRequest::Idle
        } else if key == 'g' {
            self.select_first();
            PickerRequest::Idle
        } else if key == 'G' {
            self.select_last();
            PickerRequest::Idle
        } else if key == 'l' {
            let e = self.current_entry();
            if e.opens_as_dir() {
                PickerRequest::OpenDir(e.path)
            } else {
                PickerRequest::Idle
            }
        } else if key == 'h' {
            match parent_part(&self.root) {
                Some(p) => PickerRequest::OpenDir(p),
                None => PickerRequest::Idle,
            }
        } else if key == ' ' {
            self.needs_redraw = true;
            self.toggle_mark();
            let dir = self.root.clone();
            PickerRequest::Refresh(dir, Some(self.index))
        } else if key == 'd' {
            self.needs_redraw = true;
            let mut paths: Vec<String> = Vec::new();
            paths.push(self.curr_sel_entry());
            proof {
                assert(paths@.map_values(|s: String| s@) =~= seq![
                    self.items@[self.index as int].path@,
                ]);
            }
            PickerRequest::ConfirmDelete(paths, false)
        } else if key == '?' {
            self.needs_redraw = true;
            PickerRequest::ShowHelp
        } else if key == 'b' {
            self.pending_seq = true;
            PickerRequest::Idle
        } else {
            PickerRequest::Idle
        }
    }

    /// Take back the outcome of a confirmed-or-declined deletion. On a
    /// confirmation the listing must be refreshed; the cursor is asked to
    /// stay near where the deleted entry was when it stood past the first
    /// few entries. A confirmed batch deletion empties the marked paths,
    /// also when some removals failed: what failed is reported by the
    /// surrounding layer rather than kept marked.
    pub fn finish_delete(&mut self, confirmed: bool, batch: bool) -> (r: PickerRequest)
        requires
            old(self).wf(),
        ensures
            finish_delete_rel(*old(self), *final(self), confirmed, batch, r),

    {
        self.needs_redraw = true;
        if !confirmed {
            return PickerRequest::Idle;
        }
        if batch {
            self.buffer.clear();
        }
        let dir = self.root.clone();
        if self.index > 2 {
            PickerRequest::Refresh(dir, Some(self.index - 1))
        } else {
            PickerRequest::Refresh(dir, None)
        }
    }
}


/// The labels of a picker's entries.
pub fn get_directory_display_entries(picker: &FilePicker) -> (r: Vec<String>)
    ensures
        r@.map_values(|s: String| s@) == picker.listing().map_values(|e: Dir| e.display_name@),
{
    picker.display_entries()
}


/// Flipping the mark on the same path twice restores the marked set,
/// also when the listing is rebuilt between the two keypresses: a
/// relisting carries the marks through untouched.
pub proof fn lemma_double_toggle_with_refresh(
    o: FilePicker,
    n1: FilePicker,
    mid: FilePicker,
    n2: FilePicker,
    r1: PickerRequest,
    r2: PickerRequest,
    dir: Seq<char>,
    cs: Seq<ChildEntry>,
    desired: Option<usize>,
)
    requires
        !o.pending(),
        handle_keys_rel(o, n1, ' ', r1),
        initialize_rel(n1, mid, dir, Ok(cs), desired),
        handle_keys_rel(mid, n2, ' ', r2),
        mid.listing()[mid.cursor()].path@ == o.listing()[o.cursor()].path@,
    ensures
        n2.marks() == o.marks(),
{
    let p = o.listing()[o.cursor()].path@;
    assert(mid.marks() == toggled_set(o.marks(), p));
    crate::selection::lemma_toggle_twice(o.marks(), p);
}

/// A path marked while one directory was listed is still marked after
/// any relisting: rebuilding a listing never prunes the marked set, and
/// the rebuilt entry of a marked child opens with the mark indicator.
pub proof fn lemma_mark_survives_relisting(
    o: FilePicker,
    n: FilePicker,
    dir: Seq<char>,
    cs: Seq<ChildEntry>,
    desired: Option<usize>,
    k: int,
)
    requires
        children_ok(cs),
        initialize_rel(o, n, dir, Ok(cs), desired),
        0 <= k < cs.len(),
        o.marks().contains(join_of(dir, cs[k].name@)),
    ensures
        n.marks().contains(join_of(dir, cs[k].name@)),
        exists|i: int|
            1 <= i < n.listing().len() && (#[trigger] n.listing()[i]).path@ == join_of(
                dir,
                cs[k].name@,
            ) && n.listing()[i].display_name@[0] == '-',
{
    lemma_marked_entry_shown(n.listing(), dir, cs, o.marks(), k);
}

/// A marked path stays shown as marked: in any displayed listing whose
/// directory holds a child whose path is marked, that child's entry opens
/// with the mark indicator. Marks live in the selection buffer, which
/// navigation never changes, so the mark reappears whenever the
/// directory's listing is rebuilt.
pub proof fn lemma_marked_entry_shown(
    l: Seq<Dir>,
    dir: Seq<char>,
    cs: Seq<ChildEntry>,
    marks: Set<Seq<char>>,
    k: int,
)
    requires
        children_ok(cs),
        is_displayed_listing_of(l, dir, cs, marks),
        0 <= k < cs.len(),
        marks.contains(join_of(dir, cs[k].name@)),
    ensures
        exists|i: int|
            1 <= i < l.len() && (#[trigger] l[i]).path@ == join_of(dir, cs[k].name@)
                && l[i].display_name@[0] == '-',
{
    broadcast use vstd::seq_lib::group_to_multiset_ensures;

    let lt = l.skip(1).map_values(|e: Dir| entry_triple(e));
    let csm = cs.map_values(|c: ChildEntry| child_triple(c));
    assert(csm[k] == child_triple(cs[k]));
    assert(csm.contains(csm[k]));
    assert(lt.to_multiset().count(csm[k]) > 0);
    assert(lt.contains(csm[k]));
    let a = choose|a: int| 0 <= a < lt.len() && #[trigger] lt[a] == csm[k];
    assert(lt[a] == entry_triple(l[a + 1]));
    assert(name_of(l[a + 1].path@) == cs[k].name@);
    assert(entry_displayed(l[a + 1], dir, marks));
    assert(l[a + 1].path@ == join_of(dir, cs[k].name@));
    assert(marks.contains(l[a + 1].path@));
    assert(l[a + 1].display_name@[0] == '-');
    assert(1 <= a + 1 < l.len());
}

} // verus!
