use rim::gallery::Gallery;

fn members(names: &[&str]) -> Vec<String> {
    names.iter().map(|n| n.to_string()).collect()
}

#[test]
fn next_then_prev_returns_to_start() {
    let mut g = Gallery::new(members(&["a.png", "b.png", "c.png"]), "", false);
    let start = g.get();
    assert_eq!(start.as_deref(), Some("a.png"));
    assert_eq!(g.next().as_deref(), Some("b.png"));
    assert_eq!(g.prev().as_deref(), Some("a.png"));
    assert_eq!(g.get(), start);
}

#[test]
fn prev_then_next_returns_to_start() {
    let mut g = Gallery::new(members(&["a.png", "b.png", "c.png"]), "", false);
    let start = g.get();
    assert_eq!(g.prev().as_deref(), Some("c.png"));
    assert_eq!(g.next().as_deref(), Some("a.png"));
    assert_eq!(g.get(), start);
}

#[test]
fn next_wraps_from_last_to_first() {
    let mut g = Gallery::new(members(&["a.png", "b.png"]), "b.png", false);
    assert_eq!(g.position(), 1);
    assert_eq!(g.next().as_deref(), Some("a.png"));
    assert_eq!(g.position(), 0);
}

#[test]
fn prev_wraps_from_first_to_last() {
    let mut g = Gallery::new(members(&["a.png", "b.png"]), "a.png", false);
    assert_eq!(g.position(), 0);
    assert_eq!(g.prev().as_deref(), Some("b.png"));
    assert_eq!(g.position(), 1);
}

#[test]
fn size_many_nexts_return_to_start() {
    let mut g = Gallery::new(members(&["a.png", "b.png", "c.png", "d.png"]), "c.png", false);
    let start_pos = g.position();
    let start = g.get();
    for _ in 0..g.size() {
        g.next();
    }
    assert_eq!(g.position(), start_pos);
    assert_eq!(g.get(), start);
}

#[test]
fn empty_gallery_navigation_is_a_no_op() {
    let mut g = Gallery::new(Vec::new(), "", false);
    assert_eq!(g.size(), 0);
    assert_eq!(g.get(), None);
    assert_eq!(g.next(), None);
    assert_eq!(g.prev(), None);
    assert_eq!(g.position(), 0);
}

#[test]
fn cursor_starts_on_requested_path() {
    let g = Gallery::new(members(&["a.png", "b.png", "c.png"]), "b.png", false);
    assert_eq!(g.position(), 1);
    assert_eq!(g.get().as_deref(), Some("b.png"));
}

#[test]
fn cursor_defaults_to_first_when_requested_is_absent() {
    let g = Gallery::new(members(&["a.png", "b.png"]), "zzz.png", false);
    assert_eq!(g.position(), 0);
    assert_eq!(g.get().as_deref(), Some("a.png"));
}

#[test]
fn unrecognized_existing_file_is_appended_and_selected() {
    let g = Gallery::new(members(&["a.png", "b.png"]), "notes.txt", true);
    assert_eq!(g.size(), 3);
    assert_eq!(g.position(), 2);
    assert_eq!(g.get().as_deref(), Some("notes.txt"));
}

#[test]
fn recognized_requested_file_is_not_appended() {
    let g = Gallery::new(members(&["a.png", "b.png"]), "b.png", true);
    assert_eq!(g.size(), 2);
    assert_eq!(g.position(), 1);
}

#[test]
fn requested_directory_is_not_appended() {
    let g = Gallery::new(members(&["a.png"]), "somedir", false);
    assert_eq!(g.size(), 1);
    assert_eq!(g.position(), 0);
}
