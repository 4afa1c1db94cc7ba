use organize_by_mtime::filter::PatternFilter;

fn strings(v: &[&str]) -> Vec<String> {
    v.iter().map(|s| s.to_string()).collect()
}

#[test]
fn accepts_with_empty_lists_matches_everything() {
    let f = PatternFilter::new(strings(&[]), strings(&[])).unwrap();
    assert!(f.accepts(&"anything.txt".to_string()));
    assert!(f.accepts(&"".to_string()));
}

#[test]
fn accepts_requires_one_accept_pattern_to_match() {
    let f = PatternFilter::new(strings(&["*.jpg", "*.png"]), strings(&[])).unwrap();
    assert!(f.accepts(&"photo.jpg".to_string()));
    assert!(f.accepts(&"icon.png".to_string()));
    assert!(!f.accepts(&"notes.txt".to_string()));
}

#[test]
fn reject_pattern_wins_over_accept_pattern() {
    let f = PatternFilter::new(strings(&["*.jpg"]), strings(&["*_thumb.jpg"])).unwrap();
    assert!(f.accepts(&"photo.jpg".to_string()));
    assert!(!f.accepts(&"photo_thumb.jpg".to_string()));
}

#[test]
fn question_mark_and_ranges_match_single_characters() {
    let f = PatternFilter::new(strings(&["c?t", "[a-c].log"]), strings(&[])).unwrap();
    assert!(f.accepts(&"cat".to_string()));
    assert!(f.accepts(&"b.log".to_string()));
    assert!(!f.accepts(&"d.log".to_string()));
}

#[test]
fn invalid_accept_pattern_is_reported_with_its_place() {
    let e = PatternFilter::new(strings(&["*.jpg", "a***"]), strings(&[])).unwrap_err();
    assert!(!e.in_reject);
    assert_eq!(e.index, 1);
}

#[test]
fn invalid_reject_pattern_is_reported_with_its_place() {
    let e = PatternFilter::new(strings(&["*.jpg"]), strings(&["a***"])).unwrap_err();
    assert!(e.in_reject);
    assert_eq!(e.index, 0);
}
