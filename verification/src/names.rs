//! Filename conventions of the gallery.
//!
//! A thumbnail is named by prefixing the original's filename with a fixed
//! marker string; the original's name is recovered by stripping that marker,
//! and the caption shown in the gallery is the original's name truncated at
//! its first `.`.

use vstd::prelude::*;

verus! {

/// The fixed string prepended to an original filename to derive its
/// thumbnail's filename.
pub open spec fn marker() -> Seq<char> {
    "thumb_"@
}

/// A thumbnail's filename is the marker followed by the original's filename.
pub open spec fn spec_thumbnail_name(orig: Seq<char>) -> Seq<char> {
    marker() + orig
}

/// Whether a filename begins with the marker.
pub open spec fn has_marker(name: Seq<char>) -> bool {
    name.len() >= marker().len() && name.subrange(0, marker().len() as int) == marker()
}

/// The original filename behind a thumbnail's: the marker is stripped when
/// present, and a name without the marker is kept as it is.
pub open spec fn spec_original_name(name: Seq<char>) -> Seq<char> {
    if has_marker(name) {
        name.subrange(marker().len() as int, name.len() as int)
    } else {
        name
    }
}

/// A thumbnail's filename determines its original's: stripping the marker
/// from the name the original was given under gives the original back.
pub proof fn lemma_thumbnail_name_round_trip(orig: Seq<char>)
    ensures
        spec_original_name(spec_thumbnail_name(orig)) == orig,
{
    reveal_strlit("thumb_");
    let t = spec_thumbnail_name(orig);
    assert(t.subrange(0, 6) =~= marker());
    assert(t.subrange(6, t.len() as int) =~= orig);
}

/// Derive the thumbnail's filename for an original image file.
pub fn thumbnail_name(orig: &str) -> (r: String)
    ensures
        r@ == spec_thumbnail_name(orig@),
{
    let mut r = String::from_str("thumb_");
    r.append(orig);
    r
}

/// Recover the original's filename from a thumbnail's filename.
pub fn original_name(name: &str) -> (r: String)
    ensures
        r@ == spec_original_name(name@),
{
    proof {
        reveal_strlit("thumb_");
    }
    let n = name.unicode_len();
    if n >= 6 {
        let marked = name.get_char(0) == 't' && name.get_char(1) == 'h' && name.get_char(2) == 'u'
            && name.get_char(3) == 'm' && name.get_char(4) == 'b' && name.get_char(5) == '_';
        if marked {
            proof {
                assert(name@.subrange(0, 6) =~= marker());
            }
            let stripped = name.substring_char(6, n);
            return stripped.to_owned();
        }
        proof {
            assert(!has_marker(name@)) by {
                if has_marker(name@) {
                    assert(name@.subrange(0, 6) == marker());
                    assert(name@[0] == marker()[0]);
                    assert(name@[1] == marker()[1]);
                    assert(name@[2] == marker()[2]);
                    assert(name@[3] == marker()[3]);
                    assert(name@[4] == marker()[4]);
                    assert(name@[5] == marker()[5]);
                }
            }
        }
    }
    name.to_owned()
}

/// Index of the first `.` in a name, or the name's length if it has none.
pub open spec fn spec_first_dot(s: Seq<char>) -> int
    decreases s.len(),
{
    if s.len() == 0 {
        0
    } else if s[0] == '.' {
        0
    } else {
        1 + spec_first_dot(s.subrange(1, s.len() as int))
    }
}

/// The caption shown for an image: its filename truncated at the first `.`.
pub open spec fn spec_display_name(orig: Seq<char>) -> Seq<char> {
    orig.subrange(0, spec_first_dot(orig))
}

proof fn lemma_first_dot_unique(s: Seq<char>, i: int)
    requires
        0 <= i <= s.len(),
        forall|j: int| 0 <= j < i ==> s[j] != '.',
        i < s.len() ==> s[i] == '.',
    ensures
        i == spec_first_dot(s),
    decreases s.len(),
{
    if s.len() == 0 {
    } else if i == 0 {
    } else {
        let t = s.subrange(1, s.len() as int);
        assert forall|j: int| 0 <= j < i - 1 implies t[j] != '.' by {
            assert(t[j] == s[j + 1]);
        }
        if i - 1 < t.len() {
            assert(t[i - 1] == s[i]);
        }
        lemma_first_dot_unique(t, i - 1);
    }
}

/// Derive the caption for an original filename: everything before the
/// first `.`, or the whole name if it has none.
pub fn display_name(orig: &str) -> (r: String)
    ensures
        r@ == spec_display_name(orig@),
{
    let n = orig.unicode_len();
    let mut i: usize = 0;
    while i < n && orig.get_char(i) != '.'
        invariant
            0 <= i <= n,
            n == orig@.len(),
            forall|j: int| 0 <= j < i ==> orig@[j] != '.',
        decreases n - i,
    {
        i = i + 1;
    }
    proof {
        lemma_first_dot_unique(orig@, i as int);
    }
    orig.substring_char(0, i).to_owned()
}

/// Start of the extension: the index just after the last `.`, or `0` if the
/// name has no `.` (so that the "extension" is then the whole name).
pub open spec fn spec_ext_start(s: Seq<char>) -> int
    decreases s.len(),
{
    if s.len() == 0 {
        0
    } else if s[s.len() - 1] == '.' {
        s.len() as int
    } else {
        spec_ext_start(s.subrange(0, s.len() - 1))
    }
}

/// The part of a filename after its last `.`, or the whole name if it has
/// no `.`.
pub open spec fn spec_extension(s: Seq<char>) -> Seq<char> {
    s.subrange(spec_ext_start(s), s.len() as int)
}

pub proof fn lemma_ext_start(s: Seq<char>)
    ensures
        0 <= spec_ext_start(s) <= s.len(),
        forall|j: int| spec_ext_start(s) <= j < s.len() ==> s[j] != '.',
        spec_ext_start(s) > 0 ==> s[spec_ext_start(s) - 1] == '.',
    decreases s.len(),
{
    if s.len() == 0 {
    } else if s[s.len() - 1] == '.' {
    } else {
        let t = s.subrange(0, s.len() - 1);
        lemma_ext_start(t);
        assert forall|j: int| spec_ext_start(s) <= j < s.len() implies s[j] != '.' by {
            if j < s.len() - 1 {
                assert(t[j] == s[j]);
            }
        }
        if spec_ext_start(s) > 0 {
            assert(t[spec_ext_start(t) - 1] == s[spec_ext_start(s) - 1]);
        }
    }
}

proof fn lemma_ext_start_unique(s: Seq<char>, i: int)
    requires
        0 <= i <= s.len(),
        forall|j: int| i <= j < s.len() ==> s[j] != '.',
        i > 0 ==> s[i - 1] == '.',
    ensures
        i == spec_ext_start(s),
    decreases s.len(),
{
    if s.len() == 0 {
    } else if i == s.len() {
    } else {
        let t = s.subrange(0, s.len() - 1);
        assert(s[s.len() - 1] != '.');
        assert forall|j: int| i <= j < t.len() implies t[j] != '.' by {
            assert(t[j] == s[j]);
        }
        if i > 0 {
            assert(t[i - 1] == s[i - 1]);
        }
        lemma_ext_start_unique(t, i);
    }
}

/// Find where the extension of `name` starts: the index just after the last
/// `.`, or `0` if the name has none.
pub fn extension_start(name: &str) -> (r: usize)
    ensures
        r == spec_ext_start(name@),
{
    let n = name.unicode_len();
    let mut i: usize = n;
    while i > 0 && name.get_char(i - 1) != '.'
        invariant
            0 <= i <= n,
            n == name@.len(),
            forall|j: int| i <= j < n ==> name@[j] != '.',
        decreases i,
    {
        i = i - 1;
    }
    proof {
        lemma_ext_start_unique(name@, i as int);
    }
    i
}

/// A requested file name that is safe to join onto a base directory: it
/// holds no path separator and is not the parent-directory component, so
/// the joined path cannot leave the base directory.
pub open spec fn spec_safe_name(s: Seq<char>) -> bool {
    !s.contains('/') && !s.contains('\\') && s != ".."@
}

/// Decide whether a requested file name is safe to join onto a base
/// directory.
pub fn is_safe_name(name: &str) -> (b: bool)
    ensures
        b == spec_safe_name(name@),
{
    proof {
        reveal_strlit("..");
    }
    let n = name.unicode_len();
    if n == 2 {
        let c0 = name.get_char(0);
        let c1 = name.get_char(1);
        if c0 == '.' && c1 == '.' {
            proof {
                assert(name@ =~= ".."@);
            }
            return false;
        }
    }
    let mut i: usize = 0;
    while i < n
        invariant
            0 <= i <= n,
            n == name@.len(),
            forall|j: int| 0 <= j < i ==> name@[j] != '/' && name@[j] != '\\',
        decreases n - i,
    {
        let c = name.get_char(i);
        if c == '/' || c == '\\' {
            proof {
                if c == '/' {
                    assert(name@.contains('/')) by {
                        assert(name@[i as int] == '/');
                    }
                } else {
                    assert(name@.contains('\\')) by {
                        assert(name@[i as int] == '\\');
                    }
                }
            }
            return false;
        }
        i = i + 1;
    }
    proof {
        assert(!name@.contains('/'));
        assert(!name@.contains('\\'));
        assert(name@ != ".."@) by {
            if name@ == ".."@ {
                assert(name@.len() == 2);
                assert(name@[0] == '.' && name@[1] == '.');
            }
        }
    }
    true
}

/// The extension of `name`: the part after its last `.`, or the whole name
/// if it has none.
pub fn extension_of(name: &str) -> (r: String)
    ensures
        r@ == spec_extension(name@),
{
    let n = name.unicode_len();
    let start = extension_start(name);
    proof {
        lemma_ext_start(name@);
    }
    name.substring_char(start, n).to_owned()
}

} // verus!
