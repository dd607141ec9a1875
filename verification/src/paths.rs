//! A path is a plain string whose components are separated by `/`.
//!
//! The model mirrors how absolute paths behave: the name of a path is what
//! follows its last separator, and its parent is what precedes it (the root
//! `/` has no parent).

use vstd::prelude::*;

verus! {

/// Index of the last `/` in `s`, or -1 if `s` holds none.
pub open spec fn last_slash_index(s: Seq<char>) -> int
    decreases s.len(),
{
    if s.len() == 0 {
        -1
    } else if s.last() == '/' {
        s.len() - 1
    } else {
        last_slash_index(s.drop_last())
    }
}

/// What `last_slash_index` returns: the greatest index holding `/`, or -1.
pub proof fn lemma_last_slash_index(s: Seq<char>)
    ensures
        -1 <= last_slash_index(s) < s.len(),
        last_slash_index(s) >= 0 ==> s[last_slash_index(s)] == '/',
        forall|k: int| last_slash_index(s) < k < s.len() ==> s[k] != '/',
    decreases s.len(),
{
    if s.len() > 0 && s.last() != '/' {
        lemma_last_slash_index(s.drop_last());
        assert(forall|k: int|
            0 <= k < s.len() - 1 ==> s.drop_last()[k] == s[k]);
    }
}

/// The file name of a path: what follows its last `/`, or the whole string
/// when it holds none.
pub open spec fn name_of(s: Seq<char>) -> Seq<char> {
    s.subrange(last_slash_index(s) + 1, s.len() as int)
}

/// The parent of a path: what precedes its last `/` (the separator itself
/// for a child of the root). The root `/` and a string without `/` have
/// none.
pub open spec fn parent_of(s: Seq<char>) -> Option<Seq<char>> {
    let i = last_slash_index(s);
    if i == -1 {
        None
    } else if i == 0 {
        if s.len() == 1 {
            None
        } else {
            Some(s.subrange(0, 1))
        }
    } else {
        Some(s.subrange(0, i))
    }
}

/// `dir` and `name` joined with a `/`, not doubling one that `dir` already
/// ends with.
pub open spec fn join_of(dir: Seq<char>, name: Seq<char>) -> Seq<char> {
    if dir.len() > 0 && dir.last() == '/' {
        dir + name
    } else {
        dir + seq!['/'] + name
    }
}

/// An index holding `/` with none after it is the last-slash index.
pub proof fn lemma_last_slash_unique(s: Seq<char>, i: int)
    requires
        0 <= i < s.len(),
        s[i] == '/',
        forall|k: int| i < k < s.len() ==> s[k] != '/',
    ensures
        last_slash_index(s) == i,
{
    lemma_last_slash_index(s);
    let ls = last_slash_index(s);
    if ls > i {
        assert(s[ls] != '/');
        assert(false);
    } else if ls < i {
        assert(s[i] != '/');
        assert(false);
    }
}

/// Joining a slash-free name onto a directory and taking the name back
/// round-trips.
pub proof fn lemma_name_of_join(dir: Seq<char>, name: Seq<char>)
    requires
        !name.contains('/'),
    ensures
        name_of(join_of(dir, name)) == name,
{
    let s = join_of(dir, name);
    if dir.len() > 0 && dir.last() == '/' {
        assert(s[dir.len() - 1] == '/');
        assert(forall|k: int| dir.len() <= k < s.len() ==> s[k] == name[k - dir.len()]);
        assert(forall|k: int| dir.len() - 1 < k < s.len() ==> s[k] != '/') by {
            assert(forall|j: int| 0 <= j < name.len() ==> name[j] != '/');
        }
        lemma_last_slash_unique(s, dir.len() - 1);
        assert(name_of(s) =~= name);
    } else {
        assert(s[dir.len() as int] == '/');
        assert(forall|k: int| dir.len() + 1 <= k < s.len() ==> s[k] == name[k - dir.len() - 1]);
        assert(forall|k: int| dir.len() < k < s.len() ==> s[k] != '/') by {
            assert(forall|j: int| 0 <= j < name.len() ==> name[j] != '/');
        }
        lemma_last_slash_unique(s, dir.len() as int);
        assert(name_of(s) =~= name);
    }
}

/// Index of the last `/` of `s`, or `None`.
pub fn find_last_slash(s: &str) -> (r: Option<usize>)
    ensures
        r matches Some(i) ==> i == last_slash_index(s@) && i < s@.len(),
        r is None ==> last_slash_index(s@) == -1,
{
    proof {
        lemma_last_slash_index(s@);
    }
    let n: usize = s.unicode_len();
    let mut i: usize = n;
    while i > 0
        invariant
            i <= n,
            n == s@.len(),
            forall|k: int| i <= k < n ==> s@[k] != '/',
        decreases i,
    {
        i = i - 1;
        if s.get_char(i) == '/' {
            proof {
                lemma_last_slash_index(s@);
                let ls = last_slash_index(s@);
                if ls > i as int {
                    assert(s@[ls] == '/');
                    assert(false);
                } else if ls < i as int {
                    assert(s@[i as int] != '/');
                    assert(false);
                }
            }
            return Some(i);
        }
    }
    proof {
        if last_slash_index(s@) >= 0 {
            assert(s@[last_slash_index(s@)] == '/');
        }
    }
    None
}

/// The file name of `s`: what follows its last `/`.
pub fn file_name_part(s: &String) -> (r: String)
    ensures
        r@ == name_of(s@),
{
    let n: usize = s.as_str().unicode_len();
    match find_last_slash(s.as_str()) {
        Some(i) => {
            let part = s.as_str().substring_char(i + 1, n);
            String::from_str(part)
        },
        None => {
            let part = s.as_str().substring_char(0, n);
            String::from_str(part)
        },
    }
}

/// The parent of `s`, or `None` for the root and for a string without `/`.
pub fn parent_part(s: &String) -> (r: Option<String>)
    ensures
        r matches Some(p) ==> parent_of(s@) matches Some(q) && p@ == q,
        r is None <==> parent_of(s@) is None,
{
    match find_last_slash(s.as_str()) {
        Some(i) => {
            if i == 0 {
                if s.as_str().unicode_len() == 1 {
                    None
                } else {
                    let part = s.as_str().substring_char(0, 1);
                    Some(String::from_str(part))
                }
            } else {
                let part = s.as_str().substring_char(0, i);
                Some(String::from_str(part))
            }
        },
        None => None,
    }
}

/// `dir` and `name` joined with a `/`.
pub fn join(dir: &String, name: &String) -> (r: String)
    ensures
        r@ == join_of(dir@, name@),
{
    let n: usize = dir.as_str().unicode_len();
    if n > 0 && dir.as_str().get_char(n - 1) == '/' {
        let mut r = dir.clone();
        r.append(name.as_str());
        assert(r@ =~= join_of(dir@, name@));
        r
    } else {
        let mut r = dir.clone();
        r.append("/");
        r.append(name.as_str());
        proof {
            reveal_strlit("/");
            assert(r@ =~= join_of(dir@, name@));
        }
        r
    }
}


/// Index of the last occurrence of `c` in `s`, or -1 if there is none.
pub open spec fn last_index_of(s: Seq<char>, c: char) -> int
    decreases s.len(),
{
    if s.len() == 0 {
        -1
    } else if s.last() == c {
        s.len() - 1
    } else {
        last_index_of(s.drop_last(), c)
    }
}

/// What `last_index_of` returns: the greatest index holding `c`, or -1.
pub proof fn lemma_last_index_of(s: Seq<char>, c: char)
    ensures
        -1 <= last_index_of(s, c) < s.len(),
        last_index_of(s, c) >= 0 ==> s[last_index_of(s, c)] == c,
        forall|k: int| last_index_of(s, c) < k < s.len() ==> s[k] != c,
    decreases s.len(),
{
    if s.len() > 0 && s.last() != c {
        lemma_last_index_of(s.drop_last(), c);
        assert(forall|k: int| 0 <= k < s.len() - 1 ==> s.drop_last()[k] == s[k]);
    }
}

/// Index of the first occurrence of `c` in `s`, or -1 if there is none.
pub open spec fn first_index_of(s: Seq<char>, c: char) -> int
    decreases s.len(),
{
    if s.len() == 0 {
        -1
    } else if s[0] == c {
        0
    } else if first_index_of(s.skip(1), c) == -1 {
        -1
    } else {
        first_index_of(s.skip(1), c) + 1
    }
}

/// What `first_index_of` returns: the least index holding `c`, or -1.
pub proof fn lemma_first_index_of(s: Seq<char>, c: char)
    ensures
        -1 <= first_index_of(s, c) < s.len(),
        first_index_of(s, c) >= 0 ==> s[first_index_of(s, c)] == c,
        forall|k: int| 0 <= k < first_index_of(s, c) ==> s[k] != c,
        first_index_of(s, c) == -1 ==> forall|k: int| 0 <= k < s.len() ==> s[k] != c,
    decreases s.len(),
{
    if s.len() > 0 && s[0] != c {
        lemma_first_index_of(s.skip(1), c);
        assert(forall|k: int| 1 <= k < s.len() ==> s.skip(1)[k - 1] == #[trigger] s[k]);
        if first_index_of(s.skip(1), c) == -1 {
            assert(forall|k: int| 1 <= k < s.len() ==> s[k] != c);
        } else {
            assert(forall|k: int| 1 <= k < first_index_of(s, c) ==> s[k] != c);
        }
    }
}

/// Index of the last occurrence of `c` in `s`, or `None`.
pub fn find_last_char(s: &str, c: char) -> (r: Option<usize>)
    ensures
        r matches Some(i) ==> i == last_index_of(s@, c) && i < s@.len(),
        r is None ==> last_index_of(s@, c) == -1,
{
    let n: usize = s.unicode_len();
    let mut i: usize = n;
    while i > 0
        invariant
            i <= n,
            n == s@.len(),
            forall|k: int| i <= k < n ==> s@[k] != c,
        decreases i,
    {
        i = i - 1;
        if s.get_char(i) == c {
            proof {
                lemma_last_index_of(s@, c);
                let ls = last_index_of(s@, c);
                if ls > i as int {
                    assert(s@[ls] == c);
                    assert(false);
                } else if ls < i as int {
                    assert(s@[i as int] != c);
                    assert(false);
                }
            }
            return Some(i);
        }
    }
    proof {
        lemma_last_index_of(s@, c);
        if last_index_of(s@, c) >= 0 {
            assert(s@[last_index_of(s@, c)] == c);
        }
    }
    None
}

/// Index of the first occurrence of `c` in `s` at or past `from`, or
/// `None`; the answer is the first occurrence within `s` shifted by
/// `from`.
pub fn find_first_char_from(s: &str, c: char, from: usize) -> (r: Option<usize>)
    requires
        from <= s@.len(),
    ensures
        r matches Some(i) ==> from <= i < s@.len() && i - from == first_index_of(
            s@.skip(from as int),
            c,
        ),
        r is None ==> first_index_of(s@.skip(from as int), c) == -1,
{
    let ghost suf = s@.skip(from as int);
    let n: usize = s.unicode_len();
    let mut i: usize = from;
    while i < n
        invariant
            from <= i <= n,
            n == s@.len(),
            suf == s@.skip(from as int),
            forall|k: int| 0 <= k < i - from ==> suf[k] != c,
        decreases n - i,
    {
        if s.get_char(i) == c {
            proof {
                lemma_first_index_of(suf, c);
                assert(suf[i - from] == s@[i as int]);
                let fs = first_index_of(suf, c);
                if fs == -1 || fs > i - from {
                    assert(false);
                } else if fs < i - from {
                    assert(suf[fs] == c);
                    assert(false);
                }
            }
            return Some(i);
        }
        proof {
            assert(suf[i - from] == s@[i as int]);
        }
        i = i + 1;
    }
    proof {
        lemma_first_index_of(suf, c);
        if first_index_of(suf, c) >= 0 {
            assert(suf[first_index_of(suf, c)] == c);
        }
    }
    None
}

} // verus!
