//! Derivation of the public-facing output names of a gallery.
//!
//! For one source image named `name`, the full-size output keeps `name`
//! unchanged and the thumbnail is named `{stem}.thumb.jpg`, where the stem is
//! the file name minus its final extension.  The download archive is named
//! after the gallery title, with spaces turned into underscores and every
//! character outside letters, digits, `.`, `_` and `-` dropped.

use vstd::prelude::*;
use vstd::string::StrSliceExecFns;
use vstd::string::StringExecFns;

verus! {

/// The index of the last `.` of `s` that stands strictly after the first
/// character, or `0` when there is none.  A file name whose only `.` is its
/// leading character (a hidden file) has no extension, so that dot does not
/// count.
pub open spec fn last_dot_index(s: Seq<char>) -> int
    decreases s.len(),
{
    if s.len() <= 1 {
        0
    } else if s[s.len() - 1] == '.' {
        s.len() - 1
    } else {
        last_dot_index(s.drop_last())
    }
}

/// The file name minus its final extension: everything before the last `.`,
/// or the whole name when no `.` separates an extension.
pub open spec fn stem_of(s: Seq<char>) -> Seq<char> {
    if last_dot_index(s) == 0 {
        s
    } else {
        s.subrange(0, last_dot_index(s))
    }
}

/// The suffix appended to a stem to name its thumbnail.
pub open spec fn thumb_suffix() -> Seq<char> {
    seq!['.', 't', 'h', 'u', 'm', 'b', '.', 'j', 'p', 'g']
}

/// The thumbnail output name for a source file name.
///
/// Two distinct source files whose names share a stem — differing only in
/// the case of the extension, as `a.jpg` and `a.JPG` do — collide on the
/// same thumbnail name.  This is a known limitation of the naming scheme;
/// the pipeline does not resolve it.
pub open spec fn thumbnail_name_of(s: Seq<char>) -> Seq<char> {
    stem_of(s) + thumb_suffix()
}

proof fn lemma_last_dot_index_range(s: Seq<char>)
    ensures
        0 <= last_dot_index(s),
        s.len() == 0 ==> last_dot_index(s) == 0,
        s.len() > 0 ==> last_dot_index(s) < s.len(),
    decreases s.len(),
{
    if s.len() > 1 && s[s.len() - 1] != '.' {
        lemma_last_dot_index_range(s.drop_last());
    }
}

/// Find the index of the last `.` after the first character, or 0.
fn last_dot(name: &str) -> (r: usize)
    ensures
        r as int == last_dot_index(name@),
{
    let n = name.unicode_len();
    let mut i: usize = n;
    proof {
        assert(name@.subrange(0, n as int) =~= name@);
    }
    loop
        invariant
            1 <= i <= n || (i == 0 && n == 0),
            n == name@.len(),
            last_dot_index(name@) == last_dot_index(name@.subrange(0, i as int)),
        decreases i,
    {
        if i <= 1 {
            proof {
                assert(last_dot_index(name@.subrange(0, i as int)) == 0);
            }
            return 0;
        }
        let c = name.get_char(i - 1);
        proof {
            assert(name@.subrange(0, i as int)[i - 1] == name@[i - 1]);
        }
        if c == '.' {
            return i - 1;
        }
        proof {
            assert(name@.subrange(0, i as int).drop_last() =~= name@.subrange(0, i as int - 1));
        }
        i = i - 1;
    }
}

/// The stem of a file name: the name minus its final extension.
pub fn file_stem(name: &str) -> (r: String)
    ensures
        r@ == stem_of(name@),
{
    let d = last_dot(name);
    if d == 0 {
        name.to_owned()
    } else {
        proof {
            lemma_last_dot_index_range(name@);
        }
        name.substring_char(0, d).to_owned()
    }
}

/// The thumbnail output name, `{stem}.thumb.jpg`, for a source file name.
pub fn thumbnail_name(name: &str) -> (r: String)
    ensures
        r@ == thumbnail_name_of(name@),
{
    let mut out = file_stem(name);
    out.append(".thumb.jpg");
    proof {
        reveal_strlit(".thumb.jpg");
        assert(".thumb.jpg"@ =~= thumb_suffix());
    }
    out
}

/// Law: thumbnail names round-trip.  A thumbnail name is exactly ten
/// characters longer than the stem it was derived from, and stripping the
/// `.thumb.jpg` suffix recovers that stem.
pub proof fn lemma_thumbnail_name_round_trip(name: Seq<char>)
    ensures
        thumbnail_name_of(name).len() == stem_of(name).len() + 10,
        thumbnail_name_of(name).subrange(0, thumbnail_name_of(name).len() - 10) == stem_of(name),
{
    assert(thumbnail_name_of(name).subrange(0, stem_of(name).len() as int) =~= stem_of(name));
}

/// Whether a directory entry name marks a JPEG input: it ends in `.jpg` or
/// `.JPG`.
pub open spec fn is_jpeg_name_spec(s: Seq<char>) -> bool {
    s.len() >= 4 && {
        let suffix = s.subrange(s.len() - 4, s.len() as int);
        suffix == seq!['.', 'j', 'p', 'g'] || suffix == seq!['.', 'J', 'P', 'G']
    }
}

/// Decide whether a file name is a JPEG input of the gallery.
pub fn is_jpeg_name(name: &str) -> (r: bool)
    ensures
        r == is_jpeg_name_spec(name@),
{
    let n = name.unicode_len();
    if n < 4 {
        return false;
    }
    let c0 = name.get_char(n - 4);
    let c1 = name.get_char(n - 3);
    let c2 = name.get_char(n - 2);
    let c3 = name.get_char(n - 1);
    proof {
        let suffix = name@.subrange(name@.len() - 4, name@.len() as int);
        assert(suffix =~= seq![name@[name@.len() - 4], name@[name@.len() - 3], name@[
            name@.len() - 2], name@[name@.len() - 1]]);
    }
    let lower = c0 == '.' && c1 == 'j' && c2 == 'p' && c3 == 'g';
    let upper = c0 == '.' && c1 == 'J' && c2 == 'P' && c3 == 'G';
    proof {
        let suffix = name@.subrange(name@.len() - 4, name@.len() as int);
        assert((suffix == seq!['.', 'j', 'p', 'g']) == (c0 == '.' && c1 == 'j' && c2 == 'p'
            && c3 == 'g')) by {
            if c0 == '.' && c1 == 'j' && c2 == 'p' && c3 == 'g' {
                assert(suffix =~= seq!['.', 'j', 'p', 'g']);
            }
        }
        assert((suffix == seq!['.', 'J', 'P', 'G']) == (c0 == '.' && c1 == 'J' && c2 == 'P'
            && c3 == 'G')) by {
            if c0 == '.' && c1 == 'J' && c2 == 'P' && c3 == 'G' {
                assert(suffix =~= seq!['.', 'J', 'P', 'G']);
            }
        }
    }
    lower || upper
}

/// What the archive name keeps of a title character: letters, digits and
/// `.`, `_`, `-` stay, everything else is dropped (after spaces have been
/// turned into underscores).
pub open spec fn keep_char(c: char) -> bool {
    ('A' <= c && c <= 'Z') || ('a' <= c && c <= 'z') || ('0' <= c && c <= '9') || c == '-' || c
        == '_' || c == '.'
}

/// A title character as it appears in the archive name: a space becomes an
/// underscore, every other character stays itself.
pub open spec fn sanitize_char(c: char) -> char {
    if c == ' ' {
        '_'
    } else {
        c
    }
}

/// The gallery title as it appears in the archive name: spaces as
/// underscores, characters outside letters, digits and `.`, `_`, `-`
/// dropped.
pub open spec fn sanitized_title(s: Seq<char>) -> Seq<char>
    decreases s.len(),
{
    if s.len() == 0 {
        Seq::empty()
    } else {
        let rest = sanitized_title(s.drop_last());
        let c = sanitize_char(s[s.len() - 1]);
        if keep_char(c) {
            rest.push(c)
        } else {
            rest
        }
    }
}

/// The name of the download archive for a gallery title: the sanitized
/// title followed by `.zip`.
pub open spec fn archive_name_of(title: Seq<char>) -> Seq<char> {
    sanitized_title(title) + zip_suffix()
}

/// The suffix of the download archive name.
pub open spec fn zip_suffix() -> Seq<char> {
    seq!['.', 'z', 'i', 'p']
}

/// Relies on `String::push`: appends exactly the given character.
#[verifier::external_body]
fn push_char(s: &mut String, c: char)
    ensures
        final(s)@ == old(s)@.push(c),
{
    s.push(c);
}

/// Derive the download archive name from the gallery title.
pub fn archive_filename(title: &str) -> (r: String)
    ensures
        r@ == archive_name_of(title@),
{
    let n = title.unicode_len();
    let mut out = String::new();
    let mut i: usize = 0;
    while i < n
        invariant
            0 <= i <= n,
            n == title@.len(),
            out@ == sanitized_title(title@.subrange(0, i as int)),
        decreases n - i,
    {
        let c = title.get_char(i);
        let mapped = if c == ' ' {
            '_'
        } else {
            c
        };
        let code = mapped as u32;
        let keep = (65 <= code && code <= 90) || (97 <= code && code <= 122) || (48 <= code
            && code <= 57) || mapped == '-' || mapped == '_' || mapped == '.';
        if keep {
            push_char(&mut out, mapped);
        }
        proof {
            let prefix = title@.subrange(0, i + 1);
            assert(prefix.drop_last() =~= title@.subrange(0, i as int));
            assert(prefix[prefix.len() - 1] == title@[i as int]);
            assert(keep == keep_char(mapped));
        }
        i = i + 1;
    }
    proof {
        assert(title@.subrange(0, n as int) =~= title@);
    }
    out.append(".zip");
    proof {
        reveal_strlit(".zip");
        assert(".zip"@ =~= zip_suffix());
    }
    out
}

} // verus!
