use soundboard::catalog::{find_sample, Catalog};
use soundboard::order::{bytes_le, sort_stable, Ranked};
use soundboard::sample::{Sample, SOUND_LIB_JSON_PATH, SOUND_LIB_PATH};
use soundboard::shared::{get_category_by_str, Category};

fn stems(list: &Vec<Sample>) -> Vec<&str> {
    list.iter().map(|s| s.filename.as_str()).collect()
}

#[test]
fn a_sample_is_named_after_directory_and_stem() {
    let s = Sample::from_file("doors", "slam_2", 1_250_000);
    assert_eq!(s.id, "doors_slam_2");
    assert_eq!(s.filename, "slam_2");
    assert_eq!(s.filepath, "/public/sounds/doors/slam_2.mp3");
    assert_eq!(s.category, Category::Doors);
    assert_eq!(s.duration_us, 1_250_000);
    let odd = Sample::from_file("misc", "x", 0);
    assert_eq!(odd.id, "misc_x");
    assert_eq!(odd.filepath, "/public/sounds/misc/x.mp3");
    assert_eq!(odd.category, Category::Boom);
}

#[test]
fn library_paths() {
    assert_eq!(SOUND_LIB_PATH, "/public/sounds/");
    assert_eq!(SOUND_LIB_JSON_PATH, "/public/sounds/lib.json");
}

#[test]
fn unknown_directories_count_as_boom() {
    assert_eq!(get_category_by_str("boom"), Category::Boom);
    assert_eq!(get_category_by_str("doors"), Category::Doors);
    assert_eq!(get_category_by_str("construction"), Category::Construction);
    assert_eq!(get_category_by_str("eerie"), Category::Eerie);
    assert_eq!(get_category_by_str("people"), Category::People);
    assert_eq!(get_category_by_str("Doors"), Category::Boom);
    assert_eq!(get_category_by_str(""), Category::Boom);
}

#[test]
fn samples_are_equal_by_stem() {
    let a = Sample::from_file("doors", "slam", 1);
    let b = Sample::from_file("people", "slam", 2);
    let c = Sample::from_file("doors", "creak", 1);
    assert!(a == b);
    assert!(a != c);
}

#[test]
fn samples_are_ordered_by_stem() {
    let a = Sample::from_file("doors", "creak", 1);
    let b = Sample::from_file("doors", "slam", 1);
    assert!(a.may_precede(&b));
    assert!(!b.may_precede(&a));
    assert!(a.may_precede(&a));
    let short = Sample::from_file("doors", "sla", 1);
    assert!(short.may_precede(&b));
    assert!(!b.may_precede(&short));
    let upper = Sample::from_file("doors", "Zebra", 1);
    assert!(upper.may_precede(&a));
    let accented = Sample::from_file("doors", "\u{e9}t\u{e9}", 1);
    assert!(b.may_precede(&accented));
    assert_eq!("slam" <= "\u{e9}t\u{e9}", b.may_precede(&accented));
}

#[test]
fn bytes_compare_as_texts_do() {
    let words = ["", "a", "ab", "abc", "abd", "b", "B", "a\u{e9}", "\u{1F3C0}", "zz", "z"];
    for x in words {
        for y in words {
            assert_eq!(bytes_le(x.as_bytes(), y.as_bytes()), x <= y, "{:?} {:?}", x, y);
        }
    }
}

#[test]
fn sorting_is_stable() {
    let list = vec![
        Sample::from_file("doors", "slam", 1),
        Sample::from_file("doors", "creak", 2),
        Sample::from_file("doors", "slam", 3),
        Sample::from_file("doors", "bang", 4),
        Sample::from_file("doors", "creak", 5),
    ];
    let sorted = sort_stable(list);
    assert_eq!(stems(&sorted), vec!["bang", "creak", "creak", "slam", "slam"]);
    let durations: Vec<u64> = sorted.iter().map(|s| s.duration_us).collect();
    assert_eq!(durations, vec![4, 2, 5, 1, 3]);
}

#[test]
fn the_catalog_sorts_every_list_once() {
    let mut catalog = Catalog::new();
    catalog.insert(
        Category::Doors,
        vec![Sample::from_file("doors", "slam", 1), Sample::from_file("doors", "creak", 2)],
    );
    catalog.insert(Category::Eerie, Vec::new());
    catalog.insert(
        Category::People,
        vec![
            Sample::from_file("people", "cough", 1),
            Sample::from_file("people", "applause", 2),
            Sample::from_file("people", "boo", 3),
        ],
    );
    catalog.sort();
    assert_eq!(stems(catalog.get(Category::Doors).unwrap()), vec!["creak", "slam"]);
    assert_eq!(stems(catalog.get(Category::People).unwrap()), vec!["applause", "boo", "cough"]);
    assert!(catalog.get(Category::Eerie).unwrap().is_empty());
    assert!(catalog.get(Category::Boom).is_none());
    assert!(catalog.get(Category::Construction).is_none());
}

#[test]
fn push_needs_the_category() {
    let mut catalog = Catalog::new();
    assert!(!catalog.push(Sample::from_file("doors", "slam", 1)));
    assert!(catalog.get(Category::Doors).is_none());
    catalog.insert(Category::Doors, Vec::new());
    assert!(catalog.push(Sample::from_file("doors", "slam", 1)));
    assert!(catalog.push(Sample::from_file("doors", "creak", 1)));
    assert_eq!(stems(catalog.get(Category::Doors).unwrap()), vec!["slam", "creak"]);
    catalog.insert(Category::Doors, vec![Sample::from_file("doors", "bang", 1)]);
    assert_eq!(stems(catalog.get(Category::Doors).unwrap()), vec!["bang"]);
}

#[test]
fn a_choice_in_the_library_is_found_by_category_and_identifier() {
    let mut catalog = Catalog::new();
    catalog.insert(
        Category::Doors,
        vec![
            Sample::from_file("doors", "slam", 1),
            Sample::from_file("doors", "creak", 2),
            Sample::from_file("doors", "creak", 3),
        ],
    );
    let found = catalog.find("doors", "doors_creak").unwrap();
    assert_eq!(found.filename, "creak");
    assert_eq!(found.duration_us, 2);
    assert!(catalog.find("doors", "doors_bang").is_none());
    assert!(catalog.find("people", "doors_creak").is_none());
    assert!(catalog.find("windows", "doors_creak").is_none());
    let list = catalog.get(Category::Doors).unwrap();
    assert_eq!(find_sample(list, "doors_slam").unwrap().duration_us, 1);
    assert!(find_sample(list, "slam").is_none());
}

#[test]
fn samples_compare_by_stem_with_the_operators() {
    let a = Sample::from_file("doors", "creak", 9);
    let b = Sample::from_file("boom", "slam", 1);
    assert!(a < b);
    assert!(b > a);
    assert!(a <= Sample::from_file("people", "creak", 1));
    assert!(a >= Sample::from_file("people", "creak", 1));
    assert_eq!(a.partial_cmp(&b), Some(std::cmp::Ordering::Less));
    assert_eq!(b.partial_cmp(&a), Some(std::cmp::Ordering::Greater));
    assert_eq!(a.partial_cmp(&a), Some(std::cmp::Ordering::Equal));
}
