//! The metadata line shown under an entry's preview, in the shape of an
//! `ls -l` row: kind, permissions, hard links, owner, group, and the
//! modification date.
//!
//! The raw numbers come from the filesystem layer as plain values. The
//! owner and group names are looked up in the system's user database
//! through the `users` crate — what it answers depends on the machine —
//! and the date label is produced by `chrono`, a function of the
//! timestamp alone.

use vstd::prelude::*;

use crate::dir::Dir;

verus! {

/// The permission triple a three-bit value stands for.
pub open spec fn perm_triple_of(d: int) -> Seq<char> {
    if d == 0 {
        "---"@
    } else if d == 1 {
        "--x"@
    } else if d == 2 {
        "-w-"@
    } else if d == 3 {
        "-wx"@
    } else if d == 4 {
        "r--"@
    } else if d == 5 {
        "r-x"@
    } else if d == 6 {
        "rw-"@
    } else {
        "rwx"@
    }
}

/// The nine permission characters of a mode: owner, group, others.
pub open spec fn mode_string_of(mode: u32) -> Seq<char> {
    perm_triple_of(((mode >> 6) & 7) as int) + perm_triple_of(((mode >> 3) & 7) as int)
        + perm_triple_of((mode & 7) as int)
}

/// The character opening the row: link, directory, plain file, or
/// something else.
pub open spec fn kind_char_of(is_symlink: bool, is_dir: bool, is_file: bool) -> Seq<char> {
    if is_symlink {
        "l"@
    } else if is_dir {
        "d"@
    } else if is_file {
        "-"@
    } else {
        "?"@
    }
}

/// The decimal digits of `n`.
pub open spec fn dec_of(n: nat) -> Seq<char>
    decreases n,
{
    if n < 10 {
        seq![digit_char_of(n)]
    } else {
        dec_of(n / 10) + seq![digit_char_of(n % 10)]
    }
}

/// The character of one decimal digit.
pub open spec fn digit_char_of(d: nat) -> char {
    if d == 0 {
        '0'
    } else if d == 1 {
        '1'
    } else if d == 2 {
        '2'
    } else if d == 3 {
        '3'
    } else if d == 4 {
        '4'
    } else if d == 5 {
        '5'
    } else if d == 6 {
        '6'
    } else if d == 7 {
        '7'
    } else if d == 8 {
        '8'
    } else {
        '9'
    }
}

/// The link count, padded with a space to at least two characters.
pub open spec fn padded_nlink_of(n: nat) -> Seq<char> {
    if n < 10 {
        seq![' '] + dec_of(n)
    } else {
        dec_of(n)
    }
}

/// A name from the user database, or `invalid` when there was none.
pub open spec fn name_or_invalid(o: Option<Seq<char>>) -> Seq<char> {
    match o {
        Some(n) => n,
        None => "invalid"@,
    }
}

/// The whole metadata row.
pub open spec fn metadata_display_of(
    is_symlink: bool,
    is_dir: bool,
    is_file: bool,
    mode: u32,
    nlink: u64,
    user: Option<Seq<char>>,
    group: Option<Seq<char>>,
    date: Seq<char>,
) -> Seq<char> {
    kind_char_of(is_symlink, is_dir, is_file) + mode_string_of(mode) + seq![' ']
        + padded_nlink_of(nlink as nat) + seq![' '] + name_or_invalid(user) + seq![' ']
        + name_or_invalid(group) + seq![' '] + date
}

/// The modification date's label: what `chrono` prints for a timestamp
/// with `%d %b %Y %H:%S`, a function of the timestamp alone.
pub uninterp spec fn mtime_label_of(secs: int) -> Seq<char>;

/// Relies on `users::get_user_by_uid`, which asks the system's user
/// database; what comes back depends on the machine, so nothing more is
/// promised.
#[verifier::external_body]
fn user_name_of(uid: u32) -> (r: Option<String>) {
    users::get_user_by_uid(uid).map(|u| u.name().to_string_lossy().into_owned())
}

/// Relies on `users::get_group_by_gid`, the same way.
#[verifier::external_body]
fn group_name_of(gid: u32) -> (r: Option<String>) {
    users::get_group_by_gid(gid).map(|g| g.name().to_string_lossy().into_owned())
}

/// Relies on `chrono::DateTime::<Utc>::from_timestamp` and on formatting
/// the result with `%d %b %Y %H:%S`: in UTC, with chrono's built-in
/// English month names, the label is a function of the timestamp alone.
/// `from_timestamp` answers `None` only outside chrono's date range,
/// which reaches far beyond the years 1 to 9999 promised here.
#[verifier::external_body]
fn format_mtime(secs: i64) -> (r: Option<String>)
    ensures
        r matches Some(s) ==> s@ == mtime_label_of(secs as int),
        -62135596800 <= secs <= 253402300799 ==> r is Some,
{
    chrono::DateTime::<chrono::Utc>::from_timestamp(secs, 0).map(
        |d| d.format("%d %b %Y %H:%S").to_string(),
    )
}

/// One permission triple.
fn perm_triple(d: u32) -> (r: String)
    requires
        d < 8,
    ensures
        r@ == perm_triple_of(d as int),
{
    if d == 0 {
        String::from_str("---")
    } else if d == 1 {
        String::from_str("--x")
    } else if d == 2 {
        String::from_str("-w-")
    } else if d == 3 {
        String::from_str("-wx")
    } else if d == 4 {
        String::from_str("r--")
    } else if d == 5 {
        String::from_str("r-x")
    } else if d == 6 {
        String::from_str("rw-")
    } else {
        String::from_str("rwx")
    }
}

/// One decimal digit.
fn digit_str(d: u64) -> (r: String)
    requires
        d < 10,
    ensures
        r@ == seq![digit_char_of(d as nat)],
{
    let r = if d == 0 {
        String::from_str("0")
    } else if d == 1 {
        String::from_str("1")
    } else if d == 2 {
        String::from_str("2")
    } else if d == 3 {
        String::from_str("3")
    } else if d == 4 {
        String::from_str("4")
    } else if d == 5 {
        String::from_str("5")
    } else if d == 6 {
        String::from_str("6")
    } else if d == 7 {
        String::from_str("7")
    } else if d == 8 {
        String::from_str("8")
    } else {
        String::from_str("9")
    };
    proof {
        reveal_strlit("0");
        reveal_strlit("1");
        reveal_strlit("2");
        reveal_strlit("3");
        reveal_strlit("4");
        reveal_strlit("5");
        reveal_strlit("6");
        reveal_strlit("7");
        reveal_strlit("8");
        reveal_strlit("9");
        assert(r@ =~= seq![digit_char_of(d as nat)]);
    }
    r
}

/// The decimal digits of `n`.
fn dec_string(n: u64) -> (r: String)
    ensures
        r@ == dec_of(n as nat),
    decreases n,
{
    if n < 10 {
        digit_str(n)
    } else {
        let r = dec_string(n / 10).concat(digit_str(n % 10).as_str());
        proof {
            assert(r@ =~= dec_of(n as nat));
        }
        r
    }
}

impl Dir {
    /// The metadata row for an entry, from what the filesystem reported
    /// of it: the same shape as a long listing's. The date is the
    /// timestamp's label; only for a timestamp so far outside the years 1
    /// to 9999 that the calendar cannot place it does the date stay
    /// empty.
    #[verifier::rlimit(50)]
    pub fn get_entry_metadata_to_display(
        is_symlink: bool,
        is_dir: bool,
        is_file: bool,
        mode: u32,
        nlink: u64,
        uid: u32,
        gid: u32,
        mtime_secs: i64,
    ) -> (r: String)
        ensures
            exists|u: Option<Seq<char>>, g: Option<Seq<char>>, date: Seq<char>|
                r@ == metadata_display_of(is_symlink, is_dir, is_file, mode, nlink, u, g, date)
                    && (date == mtime_label_of(mtime_secs as int) || date
                    == Seq::<char>::empty()),
            -62135596800 <= mtime_secs <= 253402300799 ==> exists|
                u: Option<Seq<char>>,
                g: Option<Seq<char>>,
            |
                r@ == metadata_display_of(
                    is_symlink,
                    is_dir,
                    is_file,
                    mode,
                    nlink,
                    u,
                    g,
                    mtime_label_of(mtime_secs as int),
                ),
    {
        let mut r = if is_symlink {
            String::from_str("l")
        } else if is_dir {
            String::from_str("d")
        } else if is_file {
            String::from_str("-")
        } else {
            String::from_str("?")
        };
        proof {
            reveal_strlit("l");
            reveal_strlit("d");
            reveal_strlit("-");
            reveal_strlit("?");
            assert(r@ =~= kind_char_of(is_symlink, is_dir, is_file));
        }
        let m1 = (mode >> 6) & 7;
        let m2 = (mode >> 3) & 7;
        let m3 = mode & 7;
        proof {
            assert((mode >> 6) & 7 < 8 && (mode >> 3) & 7 < 8 && mode & 7 < 8) by (bit_vector);
        }
        r.append(perm_triple(m1).as_str());
        r.append(perm_triple(m2).as_str());
        r.append(perm_triple(m3).as_str());
        r.append(" ");
        if nlink < 10 {
            r.append(" ");
        }
        r.append(dec_string(nlink).as_str());
        r.append(" ");
        let user = user_name_of(uid);
        let ghost u_view: Option<Seq<char>> = match user {
            Some(ref n) => Some(n@),
            None => None,
        };
        match user {
            Some(n) => r.append(n.as_str()),
            None => r.append("invalid"),
        }
        r.append(" ");
        let group = group_name_of(gid);
        let ghost g_view: Option<Seq<char>> = match group {
            Some(ref n) => Some(n@),
            None => None,
        };
        match group {
            Some(n) => r.append(n.as_str()),
            None => r.append("invalid"),
        }
        r.append(" ");
        let formatted = format_mtime(mtime_secs);
        let ghost date_view: Seq<char> = match formatted {
            Some(ref d) => d@,
            None => Seq::<char>::empty(),
        };
        let date = match formatted {
            Some(d) => d,
            None => String::new(),
        };
        r.append(date.as_str());
        proof {
            reveal_strlit(" ");
            reveal_strlit("invalid");
            assert(r@ =~= metadata_display_of(
                is_symlink,
                is_dir,
                is_file,
                mode,
                nlink,
                u_view,
                g_view,
                date_view,
            ));
        }
        r
    }
}

} // verus!
