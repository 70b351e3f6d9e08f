//! Planning of thumbnail generation.
//!
//! Given the original filenames found in the image root and the thumbnail
//! filenames already cached, the plan names exactly those originals whose
//! expected thumbnail is still missing.  Creating the planned thumbnails and
//! planning again yields an empty plan: the ensure operation is idempotent.

use vstd::prelude::*;
use crate::names::{spec_thumbnail_name, thumbnail_name};

verus! {

/// The originals whose expected thumbnail filename is absent from
/// `existing`, in their listed order.
pub open spec fn spec_missing(origs: Seq<Seq<char>>, existing: Seq<Seq<char>>) -> Seq<Seq<char>>
    decreases origs.len(),
{
    if origs.len() == 0 {
        Seq::empty()
    } else if existing.contains(spec_thumbnail_name(origs.last())) {
        spec_missing(origs.drop_last(), existing)
    } else {
        spec_missing(origs.drop_last(), existing).push(origs.last())
    }
}

/// Whether `v` holds a string whose characters are `s`.
fn contains_string(v: &Vec<String>, s: &String) -> (b: bool)
    ensures
        b == v.deep_view().contains(s@),
{
    let mut i: usize = 0;
    while i < v.len()
        invariant
            0 <= i <= v.len(),
            forall|j: int| 0 <= j < i ==> v.deep_view()[j] != s@,
        decreases v.len() - i,
    {
        assert(v.deep_view()[i as int] == v@[i as int]@);
        if v[i].eq(s) {
            return true;
        }
        i = i + 1;
    }
    assert(forall|j: int| 0 <= j < v.deep_view().len() ==> v.deep_view()[j] != s@);
    false
}

/// List the originals whose thumbnail must still be created: those whose
/// expected thumbnail filename is not among the existing ones.
pub fn missing_thumbnails(originals: &Vec<String>, existing: &Vec<String>) -> (r: Vec<String>)
    ensures
        r.deep_view() == spec_missing(originals.deep_view(), existing.deep_view()),
{
    let ghost origs = originals.deep_view();
    let ghost have = existing.deep_view();
    let mut r: Vec<String> = Vec::new();
    let mut i: usize = 0;
    while i < originals.len()
        invariant
            0 <= i <= originals.len(),
            origs == originals.deep_view(),
            have == existing.deep_view(),
            origs.len() == originals.len(),
            forall|j: int| 0 <= j < originals.len() ==> origs[j] == #[trigger] originals@[j]@,
            r.deep_view() == spec_missing(origs.take(i as int), have),
        decreases originals.len() - i,
    {
        let thumb = thumbnail_name(originals[i].as_str());
        let ghost r_old = r.deep_view();
        let present = contains_string(existing, &thumb);
        if !present {
            r.push(originals[i].clone());
        }
        proof {
            let t = origs.take(i + 1);
            assert(t.drop_last() =~= origs.take(i as int));
            assert(t.last() == origs[i as int]);
            if present {
                assert(r.deep_view() == r_old);
            } else {
                assert(r.deep_view() =~= r_old.push(origs[i as int]));
            }
        }
        i = i + 1;
    }
    proof {
        assert(origs.take(originals.len() as int) =~= origs);
    }
    r
}

/// The expected thumbnail filename of each listed original.
pub open spec fn spec_thumb_names(origs: Seq<Seq<char>>) -> Seq<Seq<char>> {
    origs.map_values(|o: Seq<char>| spec_thumbnail_name(o))
}

/// After one planning pass, every original's expected thumbnail filename is
/// accounted for: it either was already among the existing thumbnails, or
/// its original stands in the plan.
pub proof fn lemma_plan_covers(origs: Seq<Seq<char>>, existing: Seq<Seq<char>>)
    ensures
        forall|i: int|
            0 <= i < origs.len() ==> existing.contains(spec_thumbnail_name(#[trigger] origs[i]))
                || spec_missing(origs, existing).contains(origs[i]),
    decreases origs.len(),
{
    if origs.len() > 0 {
        let dl = origs.drop_last();
        lemma_plan_covers(dl, existing);
        assert forall|i: int|
            0 <= i < origs.len() implies existing.contains(
            spec_thumbnail_name(#[trigger] origs[i]),
        ) || spec_missing(origs, existing).contains(origs[i]) by {
            if i < origs.len() - 1 {
                assert(dl[i] == origs[i]);
                if !existing.contains(spec_thumbnail_name(origs[i])) {
                    let k = choose|k: int|
                        0 <= k < spec_missing(dl, existing).len() && spec_missing(dl, existing)[k]
                            == origs[i];
                    assert(spec_missing(origs, existing)[k] == origs[i]);
                }
            } else {
                if !existing.contains(spec_thumbnail_name(origs.last())) {
                    let m = spec_missing(origs, existing);
                    assert(m[m.len() - 1] == origs.last());
                }
            }
        }
    }
}

/// A plan against a cache that already holds every original's expected
/// thumbnail filename is empty.
pub proof fn lemma_plan_empty_when_covered(origs: Seq<Seq<char>>, existing: Seq<Seq<char>>)
    requires
        forall|i: int|
            0 <= i < origs.len() ==> existing.contains(spec_thumbnail_name(#[trigger] origs[i])),
    ensures
        spec_missing(origs, existing) == Seq::<Seq<char>>::empty(),
    decreases origs.len(),
{
    if origs.len() > 0 {
        let dl = origs.drop_last();
        assert forall|i: int| 0 <= i < dl.len() implies existing.contains(
            spec_thumbnail_name(#[trigger] dl[i]),
        ) by {
            assert(dl[i] == origs[i]);
        }
        lemma_plan_empty_when_covered(dl, existing);
        assert(origs.last() == origs[origs.len() - 1]);
    }
}

/// Completeness of one planning pass: once the thumbnails it names have
/// been created beside the existing ones, every original's expected
/// thumbnail filename is present.
pub proof fn lemma_plan_completes(origs: Seq<Seq<char>>, existing: Seq<Seq<char>>)
    ensures
        forall|i: int|
            0 <= i < origs.len() ==> (existing + spec_thumb_names(
                spec_missing(origs, existing),
            )).contains(spec_thumbnail_name(#[trigger] origs[i])),
{
    let planned = spec_missing(origs, existing);
    let created = spec_thumb_names(planned);
    let after = existing + created;
    lemma_plan_covers(origs, existing);
    assert forall|i: int| 0 <= i < origs.len() implies after.contains(
        spec_thumbnail_name(#[trigger] origs[i]),
    ) by {
        if existing.contains(spec_thumbnail_name(origs[i])) {
            let k = choose|k: int|
                0 <= k < existing.len() && existing[k] == spec_thumbnail_name(origs[i]);
            assert(after[k] == spec_thumbnail_name(origs[i]));
        } else {
            let k = choose|k: int| 0 <= k < planned.len() && planned[k] == origs[i];
            assert(created[k] == spec_thumbnail_name(origs[i]));
            assert(after[existing.len() + k] == spec_thumbnail_name(origs[i]));
        }
    }
}

/// Idempotence of the ensure operation: once the thumbnails named by one
/// planning pass have been created, a second pass over the same originals
/// plans nothing further.
pub proof fn lemma_second_pass_empty(origs: Seq<Seq<char>>, existing: Seq<Seq<char>>)
    ensures
        spec_missing(origs, existing + spec_thumb_names(spec_missing(origs, existing)))
            == Seq::<Seq<char>>::empty(),
{
    lemma_plan_completes(origs, existing);
    lemma_plan_empty_when_covered(
        origs,
        existing + spec_thumb_names(spec_missing(origs, existing)),
    );
}

} // verus!
