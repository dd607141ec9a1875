//! The deletion workflow's text: the confirmation summary shown before
//! anything is removed, and the aggregate report of what could not be.
//!
//! The removals themselves are filesystem work and stay outside; their
//! per-path outcomes come back as plain values and are aggregated here
//! under the continue-on-error policy: one failure never hides another.

use vstd::prelude::*;

use crate::dir::{parent_path_of, Dir};
use crate::paths::name_of;

verus! {

/// One line of the confirmation summary: the parent's name, a slash, the
/// entry's name, a trailing slash for a directory, and a line break.
pub open spec fn delete_line_of(p: Seq<char>, is_dir: bool) -> Seq<char> {
    name_of(parent_path_of(p)) + seq!['/'] + name_of(p) + (if is_dir {
        seq!['/']
    } else {
        Seq::<char>::empty()
    }) + seq!['\n']
}

/// The whole confirmation summary, one line per path.
pub open spec fn summary_of(es: Seq<(Seq<char>, bool)>) -> Seq<char>
    decreases es.len(),
{
    if es.len() == 0 {
        Seq::<char>::empty()
    } else {
        summary_of(es.drop_last()) + delete_line_of(es.last().0, es.last().1)
    }
}

/// The aggregate failure report: every failed path's message, one line
/// each.
pub open spec fn joined_lines_of(fs: Seq<Seq<char>>) -> Seq<char>
    decreases fs.len(),
{
    if fs.len() == 0 {
        Seq::<char>::empty()
    } else {
        joined_lines_of(fs.drop_last()) + fs.last() + seq!['\n']
    }
}

/// The confirmation summary for the paths about to be deleted, each given
/// with whether it is a directory.
pub fn build_delete_summary(entries: &Vec<(String, bool)>) -> (r: String)
    ensures
        r@ == summary_of(entries@.map_values(|e: (String, bool)| (e.0@, e.1))),
{
    let ghost es = entries@.map_values(|e: (String, bool)| (e.0@, e.1));
    let mut r = String::new();
    let mut i: usize = 0;
    while i < entries.len()
        invariant
            i <= entries.len(),
            es == entries@.map_values(|e: (String, bool)| (e.0@, e.1)),
            r@ == summary_of(es.subrange(0, i as int)),
        decreases entries.len() - i,
    {
        let p = &entries[i].0;
        let is_dir = entries[i].1;
        let parent = Dir::get_parent_dir(p);
        r.append(Dir::get_entry_name(&parent.path).as_str());
        r.append("/");
        r.append(Dir::get_entry_name(p).as_str());
        if is_dir {
            r.append("/");
        }
        r.append("\n");
        proof {
            reveal_strlit("/");
            reveal_strlit("\n");
            assert(es.subrange(0, i + 1).drop_last() =~= es.subrange(0, i as int));
            assert(es.subrange(0, i + 1).last() == (p@, is_dir));
            assert(r@ =~= summary_of(es.subrange(0, i + 1)));
        }
        i = i + 1;
    }
    proof {
        assert(es.subrange(0, es.len() as int) =~= es);
    }
    r
}

/// The aggregate report after a deletion pass: `None` when every removal
/// succeeded, otherwise every collected failure message, one line each.
pub fn aggregate_delete_errors(failures: &Vec<String>) -> (r: Option<String>)
    ensures
        failures@.len() == 0 ==> r is None,
        failures@.len() > 0 ==> (r matches Some(s) && s@ == joined_lines_of(
            failures@.map_values(|f: String| f@),
        )),
{
    if failures.len() == 0 {
        return None;
    }
    let ghost fs = failures@.map_values(|f: String| f@);
    let mut r = String::new();
    let mut i: usize = 0;
    while i < failures.len()
        invariant
            i <= failures.len(),
            fs == failures@.map_values(|f: String| f@),
            r@ == joined_lines_of(fs.subrange(0, i as int)),
        decreases failures.len() - i,
    {
        r.append(failures[i].as_str());
        r.append("\n");
        proof {
            reveal_strlit("\n");
            assert(fs.subrange(0, i + 1).drop_last() =~= fs.subrange(0, i as int));
            assert(r@ =~= joined_lines_of(fs.subrange(0, i + 1)));
        }
        i = i + 1;
    }
    proof {
        assert(fs.subrange(0, fs.len() as int) =~= fs);
    }
    Some(r)
}

} // verus!
