//! Entries of a directory listing.
//!
//! A [`Dir`] associates a path with the label under which it is shown: a
//! kind-specific glyph, a space, and the file name. The synthetic parent
//! entry is labelled `" .."`. A marked entry has the glyph replaced by `-`.

use vstd::prelude::*;

use crate::paths::{file_name_part, name_of, parent_of, parent_part};

verus! {

/// What kind of filesystem object an entry stands for.
#[derive(Clone, Copy, PartialEq, Eq, Structural, Debug)]
pub enum EntryKind {
    Directory,
    File,
    Symlink,
    /// The synthetic first entry of every listing, pointing at the parent.
    ParentMarker,
}

/// Why a directory could not be read.
#[derive(Clone, Copy, PartialEq, Eq, Structural, Debug)]
pub enum FilesystemError {
    NotFound,
    PermissionDenied,
    NotADirectory,
    IOOther,
}

/// One immediate child of a directory, as the filesystem reports it:
/// its bare name and its kind.
pub struct ChildEntry {
    pub name: String,
    pub kind: EntryKind,
}

/// One entry of a listing: a path and the label under which it is shown.
pub struct Dir {
    pub path: String,
    pub display_name: String,
    pub kind: EntryKind,
}

/// The glyph that opens the label of an entry of this kind.
pub open spec fn glyph_of(kind: EntryKind) -> char {
    match kind {
        EntryKind::Directory => 'D',
        EntryKind::File => 'F',
        EntryKind::Symlink => 'L',
        EntryKind::ParentMarker => ' ',
    }
}

/// The unmarked label of an entry: glyph, space and name, or `" .."` for
/// the parent entry.
pub open spec fn label_of(kind: EntryKind, name: Seq<char>) -> Seq<char> {
    if kind is ParentMarker {
        seq![' ', '.', '.']
    } else {
        seq![glyph_of(kind), ' '] + name
    }
}

/// The label once membership in the selection buffer is shown: a marked
/// entry has its first character replaced by `-`.
pub open spec fn marked_label_of(kind: EntryKind, name: Seq<char>, marked: bool) -> Seq<char> {
    if marked {
        seq!['-'] + label_of(kind, name).skip(1)
    } else {
        label_of(kind, name)
    }
}

/// The path a listing's parent entry points at: the directory's parent, or
/// the directory itself when it has none.
pub open spec fn parent_path_of(dir: Seq<char>) -> Seq<char> {
    match parent_of(dir) {
        Some(p) => p,
        None => dir,
    }
}

impl Dir {
    /// A copy of this entry.
    pub fn duplicate(&self) -> (r: Dir)
        ensures
            r == *self,
    {
        Dir { path: self.path.clone(), display_name: self.display_name.clone(), kind: self.kind }
    }

    /// The label under which a path of the given kind is shown.
    pub fn get_display_name(path: &String, kind: EntryKind) -> (r: String)
        ensures
            r@ == label_of(kind, name_of(path@)),
    {
        match kind {
            EntryKind::ParentMarker => {
                let r = String::from_str(" ..");
                proof {
                    reveal_strlit(" ..");
                    assert(r@ =~= label_of(kind, name_of(path@)));
                }
                r
            },
            EntryKind::Directory => {
                let r = String::from_str("D ").concat(file_name_part(path).as_str());
                proof {
                    reveal_strlit("D ");
                    assert(r@ =~= label_of(kind, name_of(path@)));
                }
                r
            },
            EntryKind::File => {
                let r = String::from_str("F ").concat(file_name_part(path).as_str());
                proof {
                    reveal_strlit("F ");
                    assert(r@ =~= label_of(kind, name_of(path@)));
                }
                r
            },
            EntryKind::Symlink => {
                let r = String::from_str("L ").concat(file_name_part(path).as_str());
                proof {
                    reveal_strlit("L ");
                    assert(r@ =~= label_of(kind, name_of(path@)));
                }
                r
            },
        }
    }

    /// The bare file name of a path.
    pub fn get_entry_name(path: &String) -> (r: String)
        ensures
            r@ == name_of(path@),
    {
        file_name_part(path)
    }

    /// The entry for a path's parent directory, or for the path itself when
    /// it has no parent.
    pub fn get_parent_dir(path: &String) -> (r: Dir)
        ensures
            r.path@ == parent_path_of(path@),
            r.kind == EntryKind::Directory,
            r.display_name@ == label_of(EntryKind::Directory, name_of(parent_path_of(path@))),
    {
        match parent_part(path) {
            Some(p) => {
                let display_name = Dir::get_display_name(&p, EntryKind::Directory);
                Dir { path: p, display_name, kind: EntryKind::Directory }
            },
            None => {
                let display_name = Dir::get_display_name(path, EntryKind::Directory);
                Dir { path: path.clone(), display_name, kind: EntryKind::Directory }
            },
        }
    }

    /// A path with every occurrence of the home directory replaced by
    /// `~`, scanning left to right; an empty home replaces nothing.
    pub fn get_shortened_path(path: &String, home: &String) -> (r: String)
        ensures
            r@ == shortened_of(path@, home@),
    {
        let pl: usize = path.as_str().unicode_len();
        let hl: usize = home.as_str().unicode_len();
        if hl == 0 {
            return path.clone();
        }
        let mut r = String::new();
        let mut i: usize = 0;
        proof {
            assert(path@.skip(0) =~= path@);
            assert(r@ + shortened_of(path@, home@) =~= shortened_of(path@, home@));
        }
        while i < pl
            invariant
                i <= pl,
                pl == path@.len(),
                hl == home@.len(),
                hl > 0,
                shortened_of(path@, home@) == r@ + shortened_of(path@.skip(i as int), home@),
            decreases pl - i,
        {
            let ghost suf = path@.skip(i as int);
            let ghost before = r@;
            if pl - i >= hl {
                let piece = String::from_str(path.as_str().substring_char(i, i + hl));
                if piece == *home {
                    r.append("~");
                    proof {
                        reveal_strlit("~");
                        assert(suf.subrange(0, hl as int) =~= path@.subrange(
                            i as int,
                            i + hl,
                        ));
                        assert(shortened_of(suf, home@) == seq!['~'] + shortened_of(
                            suf.skip(hl as int),
                            home@,
                        ));
                        assert(suf.skip(hl as int) =~= path@.skip(i + hl));
                        assert(r@ =~= before + seq!['~']);
                        assert(before + shortened_of(suf, home@) =~= r@ + shortened_of(
                            path@.skip(i + hl),
                            home@,
                        ));
                    }
                    i = i + hl;
                    continue ;
                }
                proof {
                    assert(suf.subrange(0, hl as int) =~= path@.subrange(i as int, i + hl));
                }
            }
            r.append(path.as_str().substring_char(i, i + 1));
            proof {
                assert(suf.len() < hl || suf.subrange(0, hl as int) != home@);
                assert(shortened_of(suf, home@) == seq![suf[0]] + shortened_of(
                    suf.skip(1),
                    home@,
                ));
                assert(path@.subrange(i as int, i + 1) =~= seq![suf[0]]);
                assert(suf.skip(1) =~= path@.skip(i + 1));
                assert(r@ =~= before + seq![suf[0]]);
                assert(before + shortened_of(suf, home@) =~= r@ + shortened_of(
                    path@.skip(i + 1),
                    home@,
                ));
            }
            i = i + 1;
        }
        proof {
            assert(path@.skip(i as int).len() == 0);
            assert(shortened_of(path@.skip(i as int), home@) =~= Seq::<char>::empty());
            assert(r@ =~= shortened_of(path@, home@));
        }
        r
    }

    /// Whether opening this entry browses into a directory: true of real
    /// directories and of the parent entry.
    pub fn opens_as_dir(&self) -> (r: bool)
        ensures
            r == opens_dir(self.kind),
    {
        self.kind == EntryKind::Directory || self.kind == EntryKind::ParentMarker
    }
}

/// Whether an entry of this kind browses into a directory when opened.
pub open spec fn opens_dir(kind: EntryKind) -> bool {
    kind is Directory || kind is ParentMarker
}

/// `path` with every occurrence of `home` replaced by `~`: matches are
/// taken left to right and do not overlap. An empty `home` replaces
/// nothing.
pub open spec fn shortened_of(path: Seq<char>, home: Seq<char>) -> Seq<char>
    decreases path.len(),
{
    if home.len() == 0 || path.len() == 0 {
        path
    } else if path.len() >= home.len() && path.subrange(0, home.len() as int) == home {
        seq!['~'] + shortened_of(path.skip(home.len() as int), home)
    } else {
        seq![path[0]] + shortened_of(path.skip(1), home)
    }
}

/// The message shown when a directory could not be read.
pub fn error_message_of(e: FilesystemError) -> (r: String)
    ensures
        r@ == error_label_of(e),
{
    match e {
        FilesystemError::NotFound => {
            let r = String::from_str("not found");
            proof {
                reveal_strlit("not found");
                assert(r@ =~= error_label_of(e));
            }
            r
        },
        FilesystemError::PermissionDenied => {
            let r = String::from_str("permission denied");
            proof {
                reveal_strlit("permission denied");
                assert(r@ =~= error_label_of(e));
            }
            r
        },
        FilesystemError::NotADirectory => {
            let r = String::from_str("not a directory");
            proof {
                reveal_strlit("not a directory");
                assert(r@ =~= error_label_of(e));
            }
            r
        },
        FilesystemError::IOOther => {
            let r = String::from_str("input/output error");
            proof {
                reveal_strlit("input/output error");
                assert(r@ =~= error_label_of(e));
            }
            r
        },
    }
}

/// The text of each [`FilesystemError`].
pub open spec fn error_label_of(e: FilesystemError) -> Seq<char> {
    match e {
        FilesystemError::NotFound => "not found"@,
        FilesystemError::PermissionDenied => "permission denied"@,
        FilesystemError::NotADirectory => "not a directory"@,
        FilesystemError::IOOther => "input/output error"@,
    }
}

} // verus!
