use rim::paths::file_name;
use rim::paths::is_image_path;
use rim::scan::is_sortable;
use rim::scan::scan;

fn entries(names: &[&str]) -> Vec<String> {
    names.iter().map(|n| n.to_string()).collect()
}

#[test]
fn natural_sort_orders_numbered_files_by_value() {
    let r = scan(entries(&["a2.png", "a10.png", "a1.png"]));
    assert_eq!(r, entries(&["a1.png", "a2.png", "a10.png"]));
}

#[test]
fn scan_keeps_uppercase_extension_and_drops_text_file() {
    let r = scan(entries(&["photo.PNG", "notes.txt"]));
    assert_eq!(r, entries(&["photo.PNG"]));
}

#[test]
fn scan_sorts_plain_names() {
    let r = scan(entries(&["b.png", "a.png"]));
    assert_eq!(r, entries(&["a.png", "b.png"]));
}

#[test]
fn scan_keeps_every_whitelisted_extension() {
    let names = [
        "a.bmp", "b.ico", "c.jpg", "d.jpeg", "e.gif", "f.png", "g.tiff", "h.webp", "i.avif",
        "j.pnm", "k.dds", "l.tga",
    ];
    let r = scan(entries(&names));
    assert_eq!(r.len(), names.len());
}

#[test]
fn extension_matching_ignores_ascii_case() {
    assert!(is_image_path("shot.JpEg"));
    assert!(is_image_path("dir/pic.WEBP"));
}

#[test]
fn hidden_file_has_no_extension() {
    assert!(!is_image_path(".png"));
    assert!(!is_image_path("dir/.png"));
}

#[test]
fn file_without_dot_is_not_an_image() {
    assert!(!is_image_path("README"));
    assert!(!is_image_path("a/b/c"));
}

#[test]
fn extension_is_taken_from_final_component() {
    assert!(is_image_path("dir.tar/pic.png"));
    assert!(!is_image_path("dir.png/archive.tar"));
}

#[test]
fn file_name_takes_the_final_component() {
    assert_eq!(file_name("a/b/vacation.png").as_deref(), Some("vacation.png"));
    assert_eq!(file_name("vacation.png").as_deref(), Some("vacation.png"));
}

#[test]
fn file_name_ignores_trailing_separators_and_dot_components() {
    assert_eq!(file_name("a/b/").as_deref(), Some("b"));
    assert_eq!(file_name("a/b//").as_deref(), Some("b"));
    assert_eq!(file_name("pics/.").as_deref(), Some("pics"));
    assert_eq!(file_name("a/b/./").as_deref(), Some("b"));
}

#[test]
fn file_name_is_nothing_for_empty_and_parent_paths() {
    assert_eq!(file_name(""), None);
    assert_eq!(file_name("."), None);
    assert_eq!(file_name("./"), None);
    assert_eq!(file_name("/"), None);
    assert_eq!(file_name("a/.."), None);
    assert_eq!(file_name(".."), None);
}

#[test]
fn extension_survives_a_trailing_separator() {
    assert!(is_image_path("photo.png/"));
    assert!(is_image_path("dir/photo.JPG/."));
}

#[test]
fn digit_runs_of_twenty_are_flagged() {
    assert!(is_sortable("a1234567890123456789.png"));
    assert!(!is_sortable("a12345678901234567890.png"));
    assert!(is_sortable("123456789x123456789x.png"));
}

#[test]
fn digit_runs_merge_across_skipped_characters() {
    // the comparator skips '-', '.' and ' ', so these runs read as one
    assert!(!is_sortable("9999999999-9999999999.png"));
    assert!(!is_sortable("999999999 999999999 99x.png"));
    assert!(is_sortable("999999999x9999999999.png"));
}

#[test]
fn non_ascii_names_are_not_sortable() {
    assert!(!is_sortable("\u{e4}.png"));
    assert!(is_sortable("ae.png"));
}

#[test]
fn overlong_numbered_names_keep_membership_after_the_sorted_block() {
    let big_a = "9999999999999999999999999a.png";
    let big_b = "9999999999999999999999999b.png";
    let r = scan(entries(&["b.png", big_b, big_a, "a.png", "notes.txt"]));
    assert_eq!(r, entries(&["a.png", "b.png", big_b, big_a]));
}

#[test]
fn merged_digit_runs_keep_membership_after_the_sorted_block() {
    // each name's raw digit runs are ten digits, but the comparator skips
    // the '-', so comparing the pair would read twenty digits at once
    let big_a = "9999999999-9999999999a.png";
    let big_b = "9999999999-9999999999b.png";
    let r = scan(entries(&["b.png", big_b, big_a, "a.png"]));
    assert_eq!(r, entries(&["a.png", "b.png", big_b, big_a]));
}

#[test]
fn non_ascii_names_keep_membership_after_the_sorted_block() {
    let r = scan(entries(&["\u{e4}.png", "b.png", "a.png"]));
    assert_eq!(r, entries(&["a.png", "b.png", "\u{e4}.png"]));
}
