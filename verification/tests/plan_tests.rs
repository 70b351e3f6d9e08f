use image_gallery::names::thumbnail_name;
use image_gallery::plan::missing_thumbnails;

fn strings(items: &[&str]) -> Vec<String> {
    items.iter().map(|s| String::from(*s)).collect()
}

#[test]
fn only_uncached_originals_are_planned() {
    let originals = strings(&["a.png", "b.png", "c.gif"]);
    let existing = strings(&["thumb_b.png"]);
    let planned = missing_thumbnails(&originals, &existing);
    assert_eq!(planned, strings(&["a.png", "c.gif"]));
}

#[test]
fn empty_cache_plans_everything_in_order() {
    let originals = strings(&["b.png", "a.png"]);
    let planned = missing_thumbnails(&originals, &Vec::new());
    assert_eq!(planned, originals);
}

#[test]
fn full_cache_plans_nothing() {
    let originals = strings(&["a.png", "b.png"]);
    let existing = strings(&["thumb_a.png", "thumb_b.png", "thumb_stale.png"]);
    assert_eq!(missing_thumbnails(&originals, &existing), Vec::<String>::new());
}

#[test]
fn second_pass_after_creating_planned_thumbnails_is_empty() {
    let originals = strings(&["a.png", "b.png", "c.gif"]);
    let mut existing = strings(&["thumb_b.png"]);
    let planned = missing_thumbnails(&originals, &existing);
    for orig in &planned {
        existing.push(thumbnail_name(orig));
    }
    assert_eq!(missing_thumbnails(&originals, &existing), Vec::<String>::new());
}

#[test]
fn duplicate_originals_are_planned_each_time() {
    let originals = strings(&["a.png", "a.png"]);
    let planned = missing_thumbnails(&originals, &Vec::new());
    assert_eq!(planned, originals);
}
