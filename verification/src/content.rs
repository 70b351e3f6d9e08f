//! Content-type selection for served files.
//!
//! The content type answered for a file is chosen by the lowercased part of
//! its name after the last `.`: known image extensions map to their image
//! type, everything else to a generic binary type.

use vstd::prelude::*;
use crate::names::{spec_extension, extension_start, lemma_ext_start};

verus! {

/// ASCII lowercasing of one character; anything but `A`..`Z` is unchanged.
pub open spec fn spec_lower_char(c: char) -> char {
    if 65 <= c as u32 && c as u32 <= 90 {
        (c as u32 + 32) as char
    } else {
        c
    }
}

/// ASCII lowercasing of a sequence of characters.
pub open spec fn lower_seq(s: Seq<char>) -> Seq<char> {
    Seq::new(s.len(), |i: int| spec_lower_char(s[i]))
}

/// The content type answered for a filename: its lowercased extension is
/// matched against the known image extensions.
pub open spec fn spec_content_type(name: Seq<char>) -> Seq<char> {
    let e = lower_seq(spec_extension(name));
    if e == "png"@ {
        "image/png"@
    } else if e == "jpg"@ || e == "jpeg"@ {
        "image/jpeg"@
    } else if e == "gif"@ {
        "image/gif"@
    } else {
        "application/octet-stream"@
    }
}

/// Whether the lowercasing of `name`'s part from `start` on equals `lit`,
/// for a `lit` made of lowercase ASCII letters.
fn tail_lowers_to(name: &str, start: usize, lit: &str) -> (b: bool)
    requires
        start <= name@.len(),
        forall|k: int| 0 <= k < lit@.len() ==> 97 <= #[trigger] lit@[k] as u32 <= 122,
    ensures
        b == (lower_seq(name@.subrange(start as int, name@.len() as int)) == lit@),
{
    let ghost tail = name@.subrange(start as int, name@.len() as int);
    let n = name.unicode_len();
    let m = lit.unicode_len();
    if n - start != m {
        proof {
            assert(lower_seq(tail).len() != lit@.len());
        }
        return false;
    }
    let mut k: usize = 0;
    while k < m
        invariant
            0 <= k <= m,
            n == name@.len(),
            m == lit@.len(),
            start + m == n,
            tail == name@.subrange(start as int, name@.len() as int),
            forall|k2: int| 0 <= k2 < lit@.len() ==> 97 <= #[trigger] lit@[k2] as u32 <= 122,
            forall|j: int| 0 <= j < k ==> spec_lower_char(tail[j]) == lit@[j],
        decreases m - k,
    {
        let c = name.get_char(start + k);
        let t = lit.get_char(k);
        let cu = c as u32;
        let tu = t as u32;
        if !(cu == tu || (65 <= cu && cu <= 90 && cu + 32 == tu)) {
            proof {
                assert(tail[k as int] == c);
                assert(spec_lower_char(c) != t);
                assert(lower_seq(tail)[k as int] != lit@[k as int]);
            }
            return false;
        }
        proof {
            assert(tail[k as int] == c);
            assert(spec_lower_char(c) == t);
        }
        k = k + 1;
    }
    proof {
        assert(lower_seq(tail) =~= lit@);
    }
    true
}

/// Select the content type for a file's name, by its lowercased extension.
pub fn content_type_for(name: &str) -> (r: &'static str)
    ensures
        r@ == spec_content_type(name@),
{
    proof {
        reveal_strlit("png");
        reveal_strlit("jpg");
        reveal_strlit("jpeg");
        reveal_strlit("gif");
        lemma_ext_start(name@);
    }
    let start = extension_start(name);
    if tail_lowers_to(name, start, "png") {
        "image/png"
    } else if tail_lowers_to(name, start, "jpg") {
        "image/jpeg"
    } else if tail_lowers_to(name, start, "jpeg") {
        "image/jpeg"
    } else if tail_lowers_to(name, start, "gif") {
        "image/gif"
    } else {
        "application/octet-stream"
    }
}

} // verus!
