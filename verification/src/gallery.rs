//! Assembly of the gallery index page.
//!
//! Every thumbnail on disk becomes one markup fragment linking the thumbnail
//! image to its full-size original, captioned with the display name.  The
//! fragments are concatenated in the order the thumbnails were listed and
//! substituted for the single placeholder of a page template.

use vstd::prelude::*;
use crate::names::{spec_original_name, spec_display_name, original_name, display_name};

verus! {

/// The markup fragment for one thumbnail file: a link to the original image
/// wrapping the thumbnail and the caption.
pub open spec fn spec_gallery_item(file: Seq<char>) -> Seq<char> {
    let orig = spec_original_name(file);
    let caption = spec_display_name(orig);
    "<div class=\"gallery-item\"><a href=\"/images/"@ + orig
        + "\"><img src=\"/images/thumbnails/"@ + file + "\" alt=\""@ + orig + "\" /><span>"@
        + caption + "</span></a></div>\n"@
}

/// The whole gallery listing: one fragment per thumbnail file, in order.
pub open spec fn spec_gallery_links(files: Seq<Seq<char>>) -> Seq<char>
    decreases files.len(),
{
    if files.len() == 0 {
        Seq::empty()
    } else {
        spec_gallery_links(files.drop_last()) + spec_gallery_item(files.last())
    }
}

/// Build the markup fragment for one thumbnail filename.
pub fn gallery_item(file: &str) -> (r: String)
    ensures
        r@ == spec_gallery_item(file@),
{
    let orig = original_name(file);
    let caption = display_name(orig.as_str());
    let mut r = String::from_str("<div class=\"gallery-item\"><a href=\"/images/");
    r.append(orig.as_str());
    r.append("\"><img src=\"/images/thumbnails/");
    r.append(file);
    r.append("\" alt=\"");
    r.append(orig.as_str());
    r.append("\" /><span>");
    r.append(caption.as_str());
    r.append("</span></a></div>\n");
    r
}

/// Concatenate the fragments of all listed thumbnail files, in order.
pub fn gallery_links(files: &Vec<String>) -> (r: String)
    ensures
        r@ == spec_gallery_links(files.deep_view()),
{
    let ghost views = files.deep_view();
    let mut r = String::new();
    let mut i: usize = 0;
    while i < files.len()
        invariant
            0 <= i <= files.len(),
            views == files.deep_view(),
            views.len() == files.len(),
            forall|j: int| 0 <= j < files.len() ==> views[j] == #[trigger] files@[j]@,
            r@ == spec_gallery_links(views.take(i as int)),
        decreases files.len() - i,
    {
        let item = gallery_item(files[i].as_str());
        r.append(item.as_str());
        proof {
            let t = views.take(i + 1);
            assert(t.drop_last() =~= views.take(i as int));
            assert(t.last() == views[i as int]);
        }
        i = i + 1;
    }
    proof {
        assert(views.take(files.len() as int) =~= views);
    }
    r
}

/// The placeholder token that the page template carries where the gallery
/// listing is to be inserted.
pub open spec fn placeholder() -> Seq<char> {
    "{{image_links}}"@
}

/// Whether the placeholder stands in `t` at position `i`.
pub open spec fn occurs_at(t: Seq<char>, i: int) -> bool {
    0 <= i && i + placeholder().len() <= t.len() && t.subrange(
        i,
        i + placeholder().len() as int,
    ) == placeholder()
}

/// Position of the first occurrence of the placeholder in `t`, or `-1` if
/// it does not occur.
pub open spec fn spec_find_placeholder(t: Seq<char>) -> int
    decreases t.len(),
{
    if t.len() == 0 {
        -1
    } else if occurs_at(t, 0) {
        0
    } else {
        let r = spec_find_placeholder(t.subrange(1, t.len() as int));
        if r < 0 {
            -1
        } else {
            1 + r
        }
    }
}

/// The template with its first placeholder occurrence replaced by `links`;
/// a template without the placeholder is kept as it is.
pub open spec fn spec_substitute(t: Seq<char>, links: Seq<char>) -> Seq<char> {
    let i = spec_find_placeholder(t);
    if i < 0 {
        t
    } else {
        t.subrange(0, i) + links + t.subrange(i + placeholder().len() as int, t.len() as int)
    }
}

proof fn lemma_find_placeholder_none(t: Seq<char>)
    requires
        forall|j: int| !occurs_at(t, j),
    ensures
        spec_find_placeholder(t) == -1,
    decreases t.len(),
{
    reveal_strlit("{{image_links}}");
    if t.len() > 0 {
        let tail = t.subrange(1, t.len() as int);
        assert forall|j: int| !occurs_at(tail, j) by {
            if occurs_at(tail, j) {
                assert(t.subrange(j + 1, j + 1 + placeholder().len() as int) =~= tail.subrange(
                    j,
                    j + placeholder().len() as int,
                ));
                assert(occurs_at(t, j + 1));
            }
        }
        lemma_find_placeholder_none(tail);
    }
}

proof fn lemma_find_placeholder_unique(t: Seq<char>, i: int)
    requires
        occurs_at(t, i),
        forall|j: int| 0 <= j < i ==> !occurs_at(t, j),
    ensures
        spec_find_placeholder(t) == i,
    decreases t.len(),
{
    reveal_strlit("{{image_links}}");
    if i == 0 {
    } else {
        let tail = t.subrange(1, t.len() as int);
        assert(tail.subrange(i - 1, i - 1 + placeholder().len() as int) =~= t.subrange(
            i,
            i + placeholder().len() as int,
        ));
        assert(occurs_at(tail, i - 1));
        assert forall|j: int| 0 <= j < i - 1 implies !occurs_at(tail, j) by {
            if occurs_at(tail, j) {
                assert(t.subrange(j + 1, j + 1 + placeholder().len() as int) =~= tail.subrange(
                    j,
                    j + placeholder().len() as int,
                ));
                assert(occurs_at(t, j + 1));
            }
        }
        lemma_find_placeholder_unique(tail, i - 1);
    }
}

/// Whether the placeholder stands in `t` at position `i`.
fn matches_placeholder_at(t: &str, i: usize) -> (b: bool)
    requires
        i + placeholder().len() <= t@.len(),
    ensures
        b == occurs_at(t@, i as int),
{
    proof {
        reveal_strlit("{{image_links}}");
    }
    let ph = "{{image_links}}";
    let n = t.unicode_len();
    let mut k: usize = 0;
    while k < 15
        invariant
            0 <= k <= 15,
            placeholder().len() == 15,
            ph@ == placeholder(),
            n == t@.len(),
            i + 15 <= n,
            forall|j: int| 0 <= j < k ==> t@[i + j] == placeholder()[j],
        decreases 15 - k,
    {
        if t.get_char(i + k) != ph.get_char(k) {
            proof {
                assert(t@.subrange(i as int, i as int + 15)[k as int] != placeholder()[k as int]);
            }
            return false;
        }
        k = k + 1;
    }
    proof {
        assert(t@.subrange(i as int, i as int + 15) =~= placeholder());
    }
    true
}

/// Replace the first occurrence of the placeholder in `template` with
/// `links`; a template without the placeholder is returned unchanged.
pub fn substitute(template: &str, links: &str) -> (r: String)
    ensures
        r@ == spec_substitute(template@, links@),
{
    proof {
        reveal_strlit("{{image_links}}");
    }
    let n = template.unicode_len();
    if n >= 15 {
        let mut i: usize = 0;
        while i <= n - 15
            invariant
                0 <= i <= n - 14,
                15 <= n == template@.len(),
                placeholder().len() == 15,
                forall|j: int| 0 <= j < i ==> !occurs_at(template@, j),
            decreases n - i,
        {
            if matches_placeholder_at(template, i) {
                proof {
                    lemma_find_placeholder_unique(template@, i as int);
                }
                let mut r = template.substring_char(0, i).to_owned();
                r.append(links);
                r.append(template.substring_char(i + 15, n));
                return r;
            }
            i = i + 1;
        }
        proof {
            assert forall|j: int| !occurs_at(template@, j) by {
                if occurs_at(template@, j) {
                    assert(0 <= j < i);
                }
            }
            lemma_find_placeholder_none(template@);
        }
    } else {
        proof {
            assert forall|j: int| !occurs_at(template@, j) by {}
            lemma_find_placeholder_none(template@);
        }
    }
    template.to_owned()
}

/// Build the gallery index page: the fragments of all listed thumbnail
/// files, substituted for the template's placeholder.
pub fn render_index(files: &Vec<String>, template: &str) -> (r: String)
    ensures
        r@ == spec_substitute(template@, spec_gallery_links(files.deep_view())),
{
    let links = gallery_links(files);
    substitute(template, links.as_str())
}

} // verus!
