use ftool::dirs::{format_modified, format_size, make_listing, sort_entries, DirEntryInfo};

fn entry(name: &str, is_dir: bool) -> DirEntryInfo {
    DirEntryInfo {
        name: name.to_owned(),
        path: format!("/tmp/{}", name),
        is_dir,
        size: 0,
        modified: None,
    }
}

#[test]
fn directories_come_first_then_case_insensitive_names() {
    let entries = vec![
        entry("b.txt", false),
        entry("Zeta", true),
        entry("Apple.csv", false),
        entry("alpha", true),
    ];
    let sorted = sort_entries(entries);
    let names: Vec<&str> = sorted.iter().map(|e| e.name.as_str()).collect();
    assert_eq!(names, vec!["alpha", "Zeta", "Apple.csv", "b.txt"]);
}

#[test]
fn case_folding_decides_between_upper_and_lower() {
    // byte order would put "B" before "a"; case-insensitive order must not
    let sorted = sort_entries(vec![entry("B", false), entry("a", false)]);
    let names: Vec<&str> = sorted.iter().map(|e| e.name.as_str()).collect();
    assert_eq!(names, vec!["a", "B"]);
}

#[test]
fn listing_puts_the_parent_entry_first() {
    let entries = vec![entry("x", false), entry("d", true)];
    let listing = make_listing(Some("/tmp".to_owned()), entries);
    assert_eq!(listing.len(), 3);
    assert_eq!(listing[0].name, "..");
    assert_eq!(listing[0].path, "/tmp");
    assert!(listing[0].is_dir);
    assert_eq!(listing[1].name, "d");
    assert_eq!(listing[2].name, "x");
}

#[test]
fn listing_without_parent_is_just_sorted() {
    let listing = make_listing(None, vec![entry("x", false), entry("d", true)]);
    let names: Vec<&str> = listing.iter().map(|e| e.name.as_str()).collect();
    assert_eq!(names, vec!["d", "x"]);
}

#[test]
fn sizes_print_in_binary_units_with_one_decimal() {
    assert_eq!(format_size(0), "0 B");
    assert_eq!(format_size(512), "512 B");
    assert_eq!(format_size(1023), "1023 B");
    assert_eq!(format_size(1024), "1.0 KB");
    assert_eq!(format_size(1536), "1.5 KB");
    assert_eq!(format_size(1048576), "1.0 MB");
    assert_eq!(format_size(2621440), "2.5 MB");
    assert_eq!(format_size(1073741824), "1.0 GB");
}

#[test]
fn ages_print_in_the_largest_fitting_unit() {
    assert_eq!(format_modified(None), "-");
    assert_eq!(format_modified(Some(0)), "0s ago");
    assert_eq!(format_modified(Some(59)), "59s ago");
    assert_eq!(format_modified(Some(90)), "1m ago");
    assert_eq!(format_modified(Some(7200)), "2h ago");
    assert_eq!(format_modified(Some(200000)), "2d ago");
}
