//! Building the ordered listing of one directory.
//!
//! The listing opens with the synthetic parent entry; the directories
//! follow, then the files and symlinks, each group sorted by name in
//! case-sensitive lexicographic order. Sorting itself is handed to the
//! `itertools` crate; everything around it is verified against the order
//! and permutation stated of that call.

use vstd::prelude::*;

use itertools::Itertools;

use crate::dir::{label_of, parent_path_of, ChildEntry, Dir, EntryKind};
use crate::paths::{join, join_of, lemma_name_of_join, name_of, parent_part};

verus! {

/// Lexicographic order on character sequences, by code point; `true` also
/// when the two are equal. This is the order in which std compares strings.
pub open spec fn lex_le(a: Seq<char>, b: Seq<char>) -> bool
    decreases a.len(),
{
    if a.len() == 0 {
        true
    } else if b.len() == 0 {
        false
    } else if (a[0] as int) < (b[0] as int) {
        true
    } else if (a[0] as int) > (b[0] as int) {
        false
    } else {
        lex_le(a.skip(1), b.skip(1))
    }
}

/// `lex_le` admits equal sequences.
pub proof fn lemma_lex_le_refl(a: Seq<char>)
    ensures
        lex_le(a, a),
    decreases a.len(),
{
    if a.len() > 0 {
        lemma_lex_le_refl(a.skip(1));
    }
}

/// `lex_le` holds in both directions only of equal sequences.
pub proof fn lemma_lex_le_antisym(a: Seq<char>, b: Seq<char>)
    requires
        lex_le(a, b),
        lex_le(b, a),
    ensures
        a == b,
    decreases a.len(),
{
    if a.len() == 0 {
        assert(b.len() == 0);
        assert(a =~= b);
    } else {
        assert(b.len() > 0);
        assert(a[0] == b[0]);
        lemma_lex_le_antisym(a.skip(1), b.skip(1));
        assert(forall|i: int| 1 <= i < a.len() ==> a[i] == b[i]) by {
            assert(forall|i: int| 1 <= i < a.len() ==> a.skip(1)[i - 1] == #[trigger] a[i]);
            assert(forall|i: int| 1 <= i < b.len() ==> b.skip(1)[i - 1] == #[trigger] b[i]);
        }
        assert(a =~= b);
    }
}

/// The group a kind sorts into: directories first, everything else after.
pub open spec fn group_code(kind: EntryKind) -> u8 {
    if kind is Directory {
        0
    } else {
        1
    }
}

/// A small integer standing for each kind, so that a kind can ride through
/// the sort beside its name.
pub open spec fn kind_code(kind: EntryKind) -> u8 {
    match kind {
        EntryKind::Directory => 0,
        EntryKind::File => 1,
        EntryKind::Symlink => 2,
        EntryKind::ParentMarker => 3,
    }
}

/// The order the listing obeys after the parent entry: by group, then by
/// name.
pub open spec fn key_le(g1: u8, n1: Seq<char>, g2: u8, n2: Seq<char>) -> bool {
    g1 < g2 || (g1 == g2 && lex_le(n1, n2))
}

/// What a listing entry contributes to the listing's contents: its group,
/// its name and its kind.
pub open spec fn entry_triple(e: Dir) -> (u8, Seq<char>, u8) {
    (group_code(e.kind), name_of(e.path@), kind_code(e.kind))
}

/// What a reported child contributes: the same three, from its bare name.
pub open spec fn child_triple(c: ChildEntry) -> (u8, Seq<char>, u8) {
    (group_code(c.kind), c.name@, kind_code(c.kind))
}

/// The view of one sort key.
pub open spec fn key_view(t: (u8, String, u8)) -> (u8, Seq<char>, u8) {
    (t.0, t.1@, t.2)
}

/// What the filesystem layer must hand over: children of one directory,
/// with their bare names, no duplicates.
pub open spec fn children_ok(cs: Seq<ChildEntry>) -> bool {
    &&& forall|i: int|
        0 <= i < cs.len() ==> !(#[trigger] cs[i].kind is ParentMarker)
    &&& forall|i: int| 0 <= i < cs.len() ==> !(#[trigger] cs[i].name@).contains('/')
    &&& forall|i: int, j: int|
        0 <= i < j < cs.len() ==> (#[trigger] cs[i].name@) != (#[trigger] cs[j].name@)
}

/// The synthetic first entry of a listing over `dir`.
pub open spec fn is_parent_entry(e: Dir, dir: Seq<char>) -> bool {
    &&& e.kind is ParentMarker
    &&& e.path@ == parent_path_of(dir)
    &&& e.display_name@ == label_of(EntryKind::ParentMarker, name_of(e.path@))
}

/// A listing entry is its own description: its path is its name joined
/// onto `dir`, and its label is the label of that name.
pub open spec fn entry_consistent(e: Dir, dir: Seq<char>) -> bool {
    &&& !(e.kind is ParentMarker)
    &&& e.path@ == join_of(dir, name_of(e.path@))
    &&& e.display_name@ == label_of(e.kind, name_of(e.path@))
}

/// One listing entry sorts no later than another.
pub open spec fn listing_le(e1: Dir, e2: Dir) -> bool {
    key_le(group_code(e1.kind), name_of(e1.path@), group_code(e2.kind), name_of(e2.path@))
}

/// The whole contract of the lister: `r` is the ordered listing of `dir`
/// with children `cs`. The parent entry opens it; every other entry
/// describes itself; together they carry exactly the children; and they
/// stand in order: directories before files, each group sorted by name.
pub open spec fn is_listing_of(r: Seq<Dir>, dir: Seq<char>, cs: Seq<ChildEntry>) -> bool {
    &&& r.len() == cs.len() + 1
    &&& is_parent_entry(r[0], dir)
    &&& forall|i: int| 1 <= i < r.len() ==> entry_consistent(#[trigger] r[i], dir)
    &&& r.skip(1).map_values(|e: Dir| entry_triple(e)).to_multiset() == cs.map_values(
        |c: ChildEntry| child_triple(c),
    ).to_multiset()
    &&& forall|i: int, j: int| 1 <= i < j < r.len() ==> listing_le(#[trigger] r[i], #[trigger] r[j])
}

/// Everything a rendered listing entry shows: path, label and kind.
pub open spec fn entry_view(e: Dir) -> (Seq<char>, Seq<char>, EntryKind) {
    (e.path@, e.display_name@, e.kind)
}

/// A key sequence in ascending `key_le` order.
pub open spec fn sorted_keys(s: Seq<(u8, Seq<char>, u8)>) -> bool {
    forall|i: int, j: int|
        0 <= i < j < s.len() ==> key_le((#[trigger] s[i]).0, s[i].1, (#[trigger] s[j]).0, s[j].1)
}

/// A key sequence whose names are pairwise distinct.
pub open spec fn distinct_key_names(s: Seq<(u8, Seq<char>, u8)>) -> bool {
    forall|i: int, j: int|
        0 <= i < j < s.len() ==> (#[trigger] s[i]).1 != (#[trigger] s[j]).1
}

/// An element standing at two indices counts at least twice.
proof fn lemma_dup_count<A>(s: Seq<A>, i: int, j: int)
    requires
        0 <= i < j < s.len(),
        s[i] == s[j],
    ensures
        s.to_multiset().count(s[i]) >= 2,
{
    broadcast use vstd::seq_lib::group_to_multiset_ensures;

    let t = s.remove(j);
    assert(t[i] == s[i]);
    assert(t.contains(s[i]));
    assert(t.to_multiset() == s.to_multiset().remove(s[j]));
    assert(t.to_multiset().count(s[i]) > 0);
    assert(s.to_multiset().count(s[i]) == t.to_multiset().count(s[i]) + 1);
}

/// Two key sequences with the same contents, both sorted, with distinct
/// names, are the same sequence.
proof fn lemma_sorted_keys_unique(s1: Seq<(u8, Seq<char>, u8)>, s2: Seq<(u8, Seq<char>, u8)>)
    requires
        s1.to_multiset() == s2.to_multiset(),
        sorted_keys(s1),
        sorted_keys(s2),
        distinct_key_names(s1),
        distinct_key_names(s2),
    ensures
        s1 == s2,
    decreases s1.len(),
{
    broadcast use vstd::seq_lib::group_to_multiset_ensures;

    assert(s1.to_multiset().len() == s1.len());
    assert(s2.to_multiset().len() == s2.len());
    if s1.len() == 0 {
        assert(s2.len() == 0);
        assert(s1 =~= s2);
    } else {
        assert(s2.len() == s1.len());
        assert(s2.contains(s2[0]));
        assert(s1.to_multiset().count(s2[0]) > 0);
        assert(s1.contains(s2[0]));
        let i = choose|i: int| 0 <= i < s1.len() && #[trigger] s1[i] == s2[0];
        assert(s2.to_multiset().count(s1[0]) > 0);
        assert(s2.contains(s1[0]));
        let j = choose|j: int| 0 <= j < s2.len() && #[trigger] s2[j] == s1[0];
        lemma_lex_le_refl(s1[0].1);
        assert(key_le(s1[0].0, s1[0].1, s1[i].0, s1[i].1));
        assert(key_le(s2[0].0, s2[0].1, s2[j].0, s2[j].1));
        // both directions of key_le between the two heads
        assert(s1[0].0 == s2[0].0);
        lemma_lex_le_antisym(s1[0].1, s2[0].1);
        assert(s1[0].1 == s2[0].1);
        // distinct names put the witness at the head
        if i != 0 {
            assert(s1[0].1 != s1[i].1);
            assert(false);
        }
        assert(s1[0] == s2[0]);
        let t1 = s1.skip(1);
        let t2 = s2.skip(1);
        assert(s1.remove(0) =~= t1);
        assert(s2.remove(0) =~= t2);
        assert(t1.to_multiset() == s1.to_multiset().remove(s1[0]));
        assert(t2.to_multiset() == s2.to_multiset().remove(s2[0]));
        assert(forall|a: int| 0 <= a < t1.len() ==> #[trigger] t1[a] == s1[a + 1]);
        assert(forall|a: int| 0 <= a < t2.len() ==> #[trigger] t2[a] == s2[a + 1]);
        lemma_sorted_keys_unique(t1, t2);
        assert(forall|a: int| 1 <= a < s1.len() ==> #[trigger] s1[a] == s2[a]) by {
            assert(forall|a: int| 1 <= a < s1.len() ==> t1[a - 1] == #[trigger] s1[a]);
            assert(forall|a: int| 1 <= a < s2.len() ==> t2[a - 1] == #[trigger] s2[a]);
        }
        assert(s1 =~= s2);
    }
}

/// Equal kind codes come from equal kinds.
proof fn lemma_kind_code_injective()
    ensures
        forall|k1: EntryKind, k2: EntryKind|
            kind_code(k1) == kind_code(k2) ==> k1 == k2,
{
}

/// The listing is a function of the directory and of what the filesystem
/// reported: any two listings of the same contents show the same entries,
/// in the same order, under the same labels.
pub proof fn lemma_listing_deterministic(
    r1: Seq<Dir>,
    r2: Seq<Dir>,
    dir: Seq<char>,
    cs: Seq<ChildEntry>,
)
    requires
        children_ok(cs),
        is_listing_of(r1, dir, cs),
        is_listing_of(r2, dir, cs),
    ensures
        r1.map_values(|e: Dir| entry_view(e)) == r2.map_values(|e: Dir| entry_view(e)),
{
    broadcast use vstd::seq_lib::group_to_multiset_ensures;

    let t1 = r1.skip(1).map_values(|e: Dir| entry_triple(e));
    let t2 = r2.skip(1).map_values(|e: Dir| entry_triple(e));
    let csm = cs.map_values(|c: ChildEntry| child_triple(c));
    assert(forall|a: int| 0 <= a < t1.len() ==> #[trigger] t1[a] == entry_triple(r1[a + 1]));
    assert(forall|a: int| 0 <= a < t2.len() ==> #[trigger] t2[a] == entry_triple(r2[a + 1]));
    assert(sorted_keys(t1));
    assert(sorted_keys(t2));
    // names among the children are distinct, so csm never repeats a triple
    assert(csm.no_duplicates()) by {
        assert(forall|a: int, b: int|
            0 <= a < b < csm.len() ==> #[trigger] csm[a] != #[trigger] csm[b]) by {
            assert(forall|a: int, b: int|
                0 <= a < b < cs.len() ==> (#[trigger] csm[a]).1 != (#[trigger] csm[b]).1);
        }
    }
    assert(distinct_key_names(t1)) by {
        if !distinct_key_names(t1) {
            let (a, b) = choose|a: int, b: int|
                0 <= a < b < t1.len() && (#[trigger] t1[a]).1 == (#[trigger] t1[b]).1;
            if t1[a] == t1[b] {
                lemma_dup_count(t1, a, b);
                csm.lemma_multiset_has_no_duplicates();
                assert(csm.to_multiset().count(t1[a]) >= 2);
                assert(csm.to_multiset().contains(t1[a]));
                assert(false);
            } else {
                assert(t1.contains(t1[a]) && t1.contains(t1[b]));
                assert(csm.to_multiset().count(t1[a]) > 0);
                assert(csm.to_multiset().count(t1[b]) > 0);
                assert(csm.contains(t1[a]) && csm.contains(t1[b]));
                let ia = choose|ia: int| 0 <= ia < csm.len() && #[trigger] csm[ia] == t1[a];
                let ib = choose|ib: int| 0 <= ib < csm.len() && #[trigger] csm[ib] == t1[b];
                assert(ia != ib);
                assert(csm[ia].1 != csm[ib].1);
                assert(false);
            }
        }
    }
    assert(distinct_key_names(t2)) by {
        if !distinct_key_names(t2) {
            let (a, b) = choose|a: int, b: int|
                0 <= a < b < t2.len() && (#[trigger] t2[a]).1 == (#[trigger] t2[b]).1;
            if t2[a] == t2[b] {
                lemma_dup_count(t2, a, b);
                csm.lemma_multiset_has_no_duplicates();
                assert(csm.to_multiset().count(t2[a]) >= 2);
                assert(csm.to_multiset().contains(t2[a]));
                assert(false);
            } else {
                assert(t2.contains(t2[a]) && t2.contains(t2[b]));
                assert(csm.to_multiset().count(t2[a]) > 0);
                assert(csm.to_multiset().count(t2[b]) > 0);
                assert(csm.contains(t2[a]) && csm.contains(t2[b]));
                let ia = choose|ia: int| 0 <= ia < csm.len() && #[trigger] csm[ia] == t2[a];
                let ib = choose|ib: int| 0 <= ib < csm.len() && #[trigger] csm[ib] == t2[b];
                assert(ia != ib);
                assert(csm[ia].1 != csm[ib].1);
                assert(false);
            }
        }
    }
    lemma_sorted_keys_unique(t1, t2);
    lemma_kind_code_injective();
    assert forall|m: int| 0 <= m < r1.len() implies entry_view(#[trigger] r1[m]) == entry_view(
        #[trigger] r2[m],
    ) by {
        if m >= 1 {
            assert(t1[m - 1] == entry_triple(r1[m]));
            assert(t2[m - 1] == entry_triple(r2[m]));
            assert(entry_triple(r1[m]) == entry_triple(r2[m]));
            assert(kind_code(r1[m].kind) == kind_code(r2[m].kind));
            assert(r1[m].kind == r2[m].kind);
            assert(name_of(r1[m].path@) == name_of(r2[m].path@));
            assert(entry_consistent(r1[m], dir) && entry_consistent(r2[m], dir));
            assert(r1[m].path@ == r2[m].path@);
            assert(r1[m].display_name@ == r2[m].display_name@);
        }
    }
    assert(r1.map_values(|e: Dir| entry_view(e)) =~= r2.map_values(|e: Dir| entry_view(e)));
}

/// Relies on `itertools::Itertools::sorted`, which collects the elements
/// into a vector and sorts it in ascending order with std's stable sort.
/// The derived order on `(u8, String, u8)` compares the first component,
/// then the string — std orders strings lexicographically by code point —
/// and last the trailing `u8`; so the result is ascending under `key_le`
/// over the first two components, and a permutation of the input.
#[verifier::external_body]
fn sort_keyed_names(v: Vec<(u8, String, u8)>) -> (r: Vec<(u8, String, u8)>)
    ensures
        r@.len() == v@.len(),
        forall|i: int, j: int|
            0 <= i < j < r@.len() ==> key_le(r@[i].0, r@[i].1@, r@[j].0, r@[j].1@),
        r@.map_values(|t: (u8, String, u8)| key_view(t)).to_multiset() == v@.map_values(
            |t: (u8, String, u8)| key_view(t),
        ).to_multiset(),
{
    v.into_iter().sorted().collect()
}

/// The group an entry of this kind sorts into.
fn group_code_of(kind: EntryKind) -> (r: u8)
    ensures
        r == group_code(kind),
{
    if kind == EntryKind::Directory {
        0
    } else {
        1
    }
}

/// The code riding for this kind.
fn kind_code_of(kind: EntryKind) -> (r: u8)
    ensures
        r == kind_code(kind),
{
    match kind {
        EntryKind::Directory => 0,
        EntryKind::File => 1,
        EntryKind::Symlink => 2,
        EntryKind::ParentMarker => 3,
    }
}

/// The kind a code stands for.
fn kind_from_code(code: u8) -> (r: EntryKind)
    requires
        code < 3,
    ensures
        kind_code(r) == code,
        !(r is ParentMarker),
{
    if code == 0 {
        EntryKind::Directory
    } else if code == 1 {
        EntryKind::File
    } else {
        EntryKind::Symlink
    }
}

/// The label of an entry whose name is already in hand.
fn label_for_name(kind: EntryKind, name: &String) -> (r: String)
    requires
        !(kind is ParentMarker),
    ensures
        r@ == label_of(kind, name@),
{
    match kind {
        EntryKind::Directory => {
            let r = String::from_str("D ").concat(name.as_str());
            proof {
                reveal_strlit("D ");
                assert(r@ =~= label_of(kind, name@));
            }
            r
        },
        EntryKind::Symlink => {
            let r = String::from_str("L ").concat(name.as_str());
            proof {
                reveal_strlit("L ");
                assert(r@ =~= label_of(kind, name@));
            }
            r
        },
        _ => {
            let r = String::from_str("F ").concat(name.as_str());
            proof {
                reveal_strlit("F ");
                assert(r@ =~= label_of(kind, name@));
            }
            r
        },
    }
}

impl Dir {
    /// The parent entry of a listing over `dir`.
    pub fn parent_entry(dir: &String) -> (r: Dir)
        ensures
            is_parent_entry(r, dir@),
    {
        let path = match parent_part(dir) {
            Some(p) => p,
            None => dir.clone(),
        };
        let display_name = String::from_str(" ..");
        proof {
            reveal_strlit(" ..");
            assert(display_name@ =~= label_of(
                EntryKind::ParentMarker,
                name_of(path@),
            ));
        }
        Dir { path, display_name, kind: EntryKind::ParentMarker }
    }

    /// The ordered listing of `dir`, whose children the filesystem layer
    /// reported as `children`.
    pub fn get_dir_entries_ordered(dir: &String, children: &Vec<ChildEntry>) -> (r: Vec<Dir>)
        requires
            children_ok(children@),
        ensures
            is_listing_of(r@, dir@, children@),
    {
        broadcast use vstd::seq_lib::group_to_multiset_ensures;

        let ghost cs = children@;
        // the sort keys, one per child, in the children's order
        let mut keys: Vec<(u8, String, u8)> = Vec::new();
        let mut i: usize = 0;
        while i < children.len()
            invariant
                i <= children.len(),
                cs == children@,
                children_ok(cs),
                keys@.len() == i,
                forall|m: int|
                    0 <= m < i ==> key_view(#[trigger] keys@[m]) == child_triple(cs[m]),
            decreases children.len() - i,
        {
            let c = &children[i];
            keys.push((group_code_of(c.kind), c.name.clone(), kind_code_of(c.kind)));
            i = i + 1;
        }
        proof {
            assert(keys@.map_values(|t: (u8, String, u8)| key_view(t)) =~= cs.map_values(
                |c: ChildEntry| child_triple(c),
            ));
        }
        let sorted = sort_keyed_names(keys);
        let ghost sk = sorted@.map_values(|t: (u8, String, u8)| key_view(t));
        proof {
            assert(sk.to_multiset() == cs.map_values(|c: ChildEntry| child_triple(c)).to_multiset());
        }

        let mut r: Vec<Dir> = Vec::new();
        r.push(Dir::parent_entry(dir));
        let mut j: usize = 0;
        while j < sorted.len()
            invariant
                j <= sorted.len(),
                sorted@.len() == cs.len(),
                sk == sorted@.map_values(|t: (u8, String, u8)| key_view(t)),
                sk.to_multiset() == cs.map_values(|c: ChildEntry| child_triple(c)).to_multiset(),
                children_ok(cs),
                forall|a: int, b: int|
                    0 <= a < b < sorted@.len() ==> key_le(
                        #[trigger] sorted@[a].0,
                        sorted@[a].1@,
                        #[trigger] sorted@[b].0,
                        sorted@[b].1@,
                    ),
                r@.len() == j + 1,
                is_parent_entry(r@[0], dir@),
                forall|m: int|
                    1 <= m < r@.len() ==> entry_consistent(#[trigger] r@[m], dir@),
                forall|m: int|
                    1 <= m < r@.len() ==> entry_triple(#[trigger] r@[m]) == sk[m - 1],
            decreases sorted.len() - j,
        {
            let g = sorted[j].0;
            let name = sorted[j].1.clone();
            let k = sorted[j].2;
            proof {
                // the key at j came from some child, so its parts agree
                broadcast use vstd::seq_lib::group_to_multiset_ensures;

                let csm = cs.map_values(|c: ChildEntry| child_triple(c));
                assert(sk.contains(sk[j as int]));
                assert(sk.to_multiset().contains(sk[j as int]));
                assert(csm.to_multiset().contains(sk[j as int]));
                assert(csm.contains(sk[j as int]));
                let m = choose|m: int| 0 <= m < csm.len() && #[trigger] csm[m] == sk[j as int];
                assert(child_triple(cs[m]) == sk[j as int]);
                assert(g == group_code(cs[m].kind));
                assert(k == kind_code(cs[m].kind));
                assert(name@ == cs[m].name@);
                assert(!name@.contains('/'));
                assert(k < 3);
                lemma_name_of_join(dir@, name@);
            }
            let kind = kind_from_code(k);
            proof {
                // equal kind codes mean equal kinds
                let csm = cs.map_values(|c: ChildEntry| child_triple(c));
                let m = choose|m: int| 0 <= m < csm.len() && #[trigger] csm[m] == sk[j as int];
                assert(child_triple(cs[m]) == sk[j as int]);
                assert(kind == cs[m].kind);
                assert(group_code(kind) == g);
            }
            let path = join(dir, &name);
            let display_name = label_for_name(kind, &name);
            let e = Dir { path, display_name, kind };
            proof {
                assert(entry_consistent(e, dir@));
                assert(entry_triple(e) == sk[j as int]);
            }
            r.push(e);
            j = j + 1;
        }
        proof {
            assert(r@.skip(1).map_values(|e: Dir| entry_triple(e)) =~= sk);
            assert(forall|a: int, b: int|
                1 <= a < b < r@.len() ==> listing_le(#[trigger] r@[a], #[trigger] r@[b])) by {
                assert(forall|a: int, b: int|
                    0 <= a < b < sorted@.len() ==> key_le(
                        #[trigger] sk[a].0,
                        sk[a].1,
                        #[trigger] sk[b].0,
                        sk[b].1,
                    ));
            }
        }
        r
    }
}

} // verus!
