//! Text the confirmation dialog shows: decimal rendering of a count, the
//! joined current path, middle-ellipsis truncation, and the size-tiered
//! choice of question and name lines.

use vstd::prelude::*;
use vstd::string::*;
use crate::files::FileOrFolder;

verus! {

/// Relies on String::push: appends exactly the one character.
pub assume_specification[ String::push ](s: &mut String, ch: char)
    ensures
        final(s)@ == old(s)@.push(ch),
;

/// The decimal digit `d` as a character.
pub open spec fn digit_char(d: int) -> char {
    ((48 + d) as u8) as char
}

/// The decimal rendering of `n`, most significant digit first, no leading
/// zeroes (a single `'0'` for zero).
pub open spec fn dec_seq(n: nat) -> Seq<char>
    decreases n,
{
    if n < 10 {
        seq![digit_char(n as int)]
    } else {
        dec_seq(n / 10).push(digit_char((n % 10) as int))
    }
}

fn digit_to_char(d: u64) -> (c: char)
    requires
        d < 10,
    ensures
        c == digit_char(d as int),
{
    ((48 + d) as u8) as char
}

/// Renders `n` in decimal.
pub fn u64_to_string(n: u64) -> (s: String)
    ensures
        s@ == dec_seq(n as nat),
    decreases n,
{
    if n < 10 {
        let mut s = String::new();
        s.push(digit_to_char(n));
        s
    } else {
        let mut s = u64_to_string(n / 10);
        s.push(digit_to_char(n % 10));
        s
    }
}

/// The full path of an entry named `name` inside the directory `path`: the
/// two joined with a single separator, none doubled, none added to an empty
/// directory part.
pub open spec fn spec_join(path: Seq<char>, name: Seq<char>) -> Seq<char> {
    if path.len() == 0 {
        name
    } else if path.last() == '/' {
        path + name
    } else {
        path + seq!['/'] + name
    }
}

/// Joins the current directory and an entry name into one path.
pub fn join_path(path: &String, name: &String) -> (r: String)
    ensures
        r@ == spec_join(path@, name@),
{
    let len = path.as_str().unicode_len();
    if len == 0 {
        name.clone()
    } else {
        let last = path.as_str().get_char(len - 1);
        if last == '/' {
            path.clone().concat(name.as_str())
        } else {
            proof {
                reveal_strlit("/");
                assert("/"@ =~= seq!['/']);
            }
            let r = path.clone().concat("/").concat(name.as_str());
            proof {
                assert(r@ =~= path@ + seq!['/'] + name@);
            }
            r
        }
    }
}

/// The marker spliced into the middle of a truncated name.
pub open spec fn ellipsis() -> Seq<char> {
    seq!['[', '.', '.', ']']
}

/// `name` cut down to exactly `width` characters when it is longer than
/// `width`: a prefix and a suffix of the name around the ellipsis marker,
/// the suffix taking the extra character when the split is uneven; for a
/// width below the marker's own length, the marker itself cut to `width`.
/// A name of at most `width` characters stands unchanged.
pub open spec fn spec_truncate_middle(name: Seq<char>, width: int) -> Seq<char> {
    if name.len() <= width {
        name
    } else if width <= 4 {
        ellipsis().take(width)
    } else {
        let keep = width / 2 - 2;
        let suffix_len = width - 4 - keep;
        name.take(keep) + ellipsis() + name.skip(name.len() - suffix_len)
    }
}

/// Truncates `name` to exactly `width` characters with a middle ellipsis,
/// or returns it whole when it already fits.
pub fn truncate_middle(name: &str, width: u16) -> (r: String)
    ensures
        r@ == spec_truncate_middle(name@, width as int),
{
    let len = name.unicode_len();
    if len <= width as usize {
        String::from_str(name)
    } else if width <= 4 {
        proof {
            reveal_strlit("[..]");
            assert("[..]"@ =~= ellipsis());
        }
        let marker = "[..]";
        let cut = marker.substring_char(0, width as usize);
        proof {
            assert(cut@ =~= ellipsis().take(width as int));
        }
        String::from_str(cut)
    } else {
        let keep = (width as usize) / 2 - 2;
        let suffix_len = (width as usize) - 4 - keep;
        let prefix = name.substring_char(0, keep);
        let suffix = name.substring_char(len - suffix_len, len);
        proof {
            reveal_strlit("[..]");
            assert("[..]"@ =~= ellipsis());
            assert(prefix@ =~= name@.take(keep as int));
            assert(suffix@ =~= name@.skip(name@.len() - suffix_len as int));
        }
        let r = String::from_str(prefix).concat("[..]").concat(suffix);
        proof {
            assert(r@ =~= name@.take(keep as int) + ellipsis()
                + name@.skip(name@.len() - suffix_len as int));
        }
        r
    }
}

/// The question line the dialog shows for `e` in `usable` columns: the long
/// wording when it fits, the short one otherwise.
pub open spec fn spec_question_line(e: &FileOrFolder, usable: int) -> Seq<char> {
    match e {
        FileOrFolder::File(_) => {
            if usable >= 17 {
                "Delete this file?"@
            } else {
                "Delete?"@
            }
        },
        FileOrFolder::Folder(f) => {
            let full = "Delete folder with "@ + dec_seq(f.num_descendants as nat) + " children?"@;
            if usable >= full.len() {
                full
            } else {
                "Delete folder?"@
            }
        },
    }
}

/// Chooses the question line for `e` given `usable` columns of text.
pub fn question_line(e: &FileOrFolder, usable: u16) -> (r: String)
    requires
        e is File ==> usable >= 3,
        e is Folder ==> usable >= 14,
    ensures
        r@ == spec_question_line(e, usable as int),
{
    match e {
        FileOrFolder::File(_) => {
            if usable >= 17 {
                String::from_str("Delete this file?")
            } else {
                String::from_str("Delete?")
            }
        },
        FileOrFolder::Folder(f) => {
            let num = u64_to_string(f.num_descendants);
            let full = String::from_str("Delete folder with ")
                .concat(num.as_str())
                .concat(" children?");
            proof {
                assert(full@ =~= "Delete folder with "@ + dec_seq(f.num_descendants as nat)
                    + " children?"@);
            }
            if full.as_str().unicode_len() <= usable as usize {
                full
            } else {
                String::from_str("Delete folder?")
            }
        },
    }
}

/// The name line the dialog shows: the full joined path when `usable`
/// strictly exceeds its length, else the bare name truncated to `usable`
/// with a middle ellipsis.
pub open spec fn spec_name_line(path: Seq<char>, name: Seq<char>, usable: int) -> Seq<char> {
    let full = spec_join(path, name);
    if usable > full.len() {
        full
    } else {
        spec_truncate_middle(name, usable)
    }
}

/// The name line always fits: it is strictly shorter than `usable` when the
/// full path is shown, and at most `usable` characters otherwise.
pub proof fn lemma_name_line_fits(path: Seq<char>, name: Seq<char>, usable: int)
    requires
        0 <= usable,
    ensures
        spec_name_line(path, name, usable).len() <= usable,
{
    let full = spec_join(path, name);
    if usable > full.len() {
    } else if name.len() <= usable {
    } else if usable <= 4 {
        assert(ellipsis().take(usable).len() == usable);
    } else {
        let keep = usable / 2 - 2;
        let suffix_len = usable - 4 - keep;
        assert(2 * (usable / 2) + (usable % 2) == usable);
        assert(0 <= keep <= name.len());
        assert(0 <= suffix_len <= name.len());
        assert(name.take(keep).len() == keep);
        assert(name.skip(name.len() - suffix_len).len() == suffix_len);
    }
}

/// Chooses the name line: full path if it fits, truncated bare name if not.
pub fn name_line(path: &String, name: &String, usable: u16) -> (r: String)
    ensures
        r@ == spec_name_line(path@, name@, usable as int),
{
    let full = join_path(path, name);
    if full.as_str().unicode_len() < usable as usize {
        full
    } else {
        truncate_middle(name.as_str(), usable)
    }
}

} // verus!
