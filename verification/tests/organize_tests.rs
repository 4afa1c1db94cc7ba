use organize_by_mtime::batch::FlushedBatch;
use organize_by_mtime::batch::Organizer;
use organize_by_mtime::batch::WalkEvent;
use organize_by_mtime::batch::organize_events;
use organize_by_mtime::batch::strip_components;
use organize_by_mtime::filter::PatternFilter;
use organize_by_mtime::mtime::AgePolicy;
use organize_by_mtime::mtime::Mtime;
use organize_by_mtime::plan::batch_destinations;
use organize_by_mtime::plan::destination;

const Y2020: u64 = 1577836800; // 2020-01-01 00:00:00
const Y2021_JUN: u64 = 1622505600; // 2021-06-01 00:00:00

fn strings(v: &[&str]) -> Vec<String> {
    v.iter().map(|s| s.to_string()).collect()
}

fn mt(secs: u64) -> Mtime {
    Mtime { secs, nanos: 0 }
}

fn file(path: &[&str], secs: u64) -> WalkEvent {
    WalkEvent::File {
        path: strings(path),
        name: path.last().unwrap().to_string(),
        mtime: mt(secs),
    }
}

fn dir(depth: usize) -> WalkEvent {
    WalkEvent::Dir { depth }
}

fn sources(b: &FlushedBatch) -> Vec<Vec<String>> {
    b.moves.iter().map(|m| m.src.clone()).collect()
}

#[test]
fn single_root_one_batch_oldest_year() {
    // Root `a/` holds `a/x.txt` (2020) and `a/sub/y.txt` (2021-06); the
    // walk enters `a`, then `a/sub` before meeting `x.txt`.
    let events = vec![
        dir(0),
        dir(1),
        file(&["a", "sub", "y.txt"], Y2021_JUN),
        file(&["a", "x.txt"], Y2020),
    ];
    let batches =
        organize_events(AgePolicy::Oldest, 0, strings(&[]), strings(&[]), &events).unwrap();
    assert_eq!(batches.len(), 1);
    let b = &batches[0];
    assert_eq!(b.year, 2020);
    assert_eq!(sources(b), vec![strings(&["a", "sub", "y.txt"]), strings(&["a", "x.txt"])]);

    let out = strings(&["out"]);
    let dsts = batch_destinations(&out, b);
    assert_eq!(dsts[0], strings(&["out", "2020", "a", "sub", "y.txt"]));
    assert_eq!(dsts[1], strings(&["out", "2020", "a", "x.txt"]));
}

#[test]
fn default_policy_behaves_as_oldest() {
    let events = vec![file(&["a", "old.txt"], Y2020), file(&["a", "new.txt"], Y2021_JUN)];
    let d = organize_events(AgePolicy::Default, 0, strings(&[]), strings(&[]), &events).unwrap();
    let o = organize_events(AgePolicy::Oldest, 0, strings(&[]), strings(&[]), &events).unwrap();
    assert_eq!(d.len(), 1);
    assert_eq!(o.len(), 1);
    assert_eq!(d[0].year, 2020);
    assert_eq!(o[0].year, 2020);
}

#[test]
fn newest_policy_takes_the_maximum() {
    let events = vec![file(&["a", "old.txt"], Y2020), file(&["a", "new.txt"], Y2021_JUN)];
    let batches =
        organize_events(AgePolicy::Newest, 0, strings(&[]), strings(&[]), &events).unwrap();
    assert_eq!(batches.len(), 1);
    assert_eq!(batches[0].year, 2021);
}

#[test]
fn sub_second_precision_breaks_ties() {
    // Two files within the same second: the nanosecond part decides.
    let early = WalkEvent::File {
        path: strings(&["a", "p.txt"]),
        name: "p.txt".to_string(),
        mtime: Mtime { secs: Y2021_JUN, nanos: 1 },
    };
    let late = WalkEvent::File {
        path: strings(&["a", "q.txt"]),
        name: "q.txt".to_string(),
        mtime: Mtime { secs: Y2021_JUN, nanos: 2 },
    };
    let batches = organize_events(
        AgePolicy::Oldest,
        0,
        strings(&[]),
        strings(&[]),
        &vec![early, late],
    )
    .unwrap();
    assert_eq!(batches.len(), 1);
    assert_eq!(batches[0].moves.len(), 2);
    assert_eq!(batches[0].year, 2021);
}

#[test]
fn two_shallow_directories_get_independent_years() {
    // Both `r/d1` and `r/d2` flush at depth 1; the file of the second
    // batch does not affect the first batch's year.
    let events = vec![
        dir(0),
        dir(1),
        file(&["r", "d1", "f1.txt"], Y2020),
        dir(1),
        file(&["r", "d2", "f2.txt"], Y2021_JUN),
    ];
    let batches =
        organize_events(AgePolicy::Oldest, 0, strings(&[]), strings(&[]), &events).unwrap();
    assert_eq!(batches.len(), 2);
    assert_eq!(batches[0].year, 2020);
    assert_eq!(sources(&batches[0]), vec![strings(&["r", "d1", "f1.txt"])]);
    assert_eq!(batches[1].year, 2021);
    assert_eq!(sources(&batches[1]), vec![strings(&["r", "d2", "f2.txt"])]);
}

#[test]
fn deep_directories_do_not_flush() {
    // A directory at depth 3 keeps the batch open.
    let events = vec![
        dir(0),
        file(&["r", "f1.txt"], Y2021_JUN),
        WalkEvent::Dir { depth: 3 },
        file(&["r", "a", "b", "c", "f2.txt"], Y2020),
    ];
    let batches =
        organize_events(AgePolicy::Oldest, 0, strings(&[]), strings(&[]), &events).unwrap();
    assert_eq!(batches.len(), 1);
    assert_eq!(batches[0].moves.len(), 2);
    assert_eq!(batches[0].year, 2020);
}

#[test]
fn every_matched_file_lands_in_exactly_one_batch() {
    let events = vec![
        dir(0),
        file(&["r", "a.txt"], Y2020),
        dir(1),
        file(&["r", "s", "b.txt"], Y2020),
        dir(2),
        file(&["r", "s", "t", "c.txt"], Y2021_JUN),
    ];
    let batches =
        organize_events(AgePolicy::Oldest, 0, strings(&[]), strings(&[]), &events).unwrap();
    let mut all: Vec<Vec<String>> = Vec::new();
    for b in &batches {
        all.extend(sources(b));
    }
    all.sort();
    let mut expected = vec![
        strings(&["r", "a.txt"]),
        strings(&["r", "s", "b.txt"]),
        strings(&["r", "s", "t", "c.txt"]),
    ];
    expected.sort();
    assert_eq!(all, expected);
}

#[test]
fn filter_applies_to_base_names_inside_a_run() {
    let events = vec![
        file(&["r", "photo.jpg"], Y2020),
        file(&["r", "photo_thumb.jpg"], Y2020),
        file(&["r", "notes.txt"], Y2020),
    ];
    let batches = organize_events(
        AgePolicy::Oldest,
        0,
        strings(&["*.jpg"]),
        strings(&["*_thumb.jpg"]),
        &events,
    )
    .unwrap();
    assert_eq!(batches.len(), 1);
    assert_eq!(sources(&batches[0]), vec![strings(&["r", "photo.jpg"])]);
}

#[test]
fn invalid_pattern_fails_the_whole_run() {
    let events = vec![file(&["r", "a.txt"], Y2020)];
    let e = organize_events(AgePolicy::Oldest, 0, strings(&["a***"]), strings(&[]), &events)
        .unwrap_err();
    assert!(!e.in_reject);
    assert_eq!(e.index, 0);
}

#[test]
fn strip_removes_exactly_the_first_components() {
    let path = strings(&["r", "s", "x.txt"]);
    assert_eq!(strip_components(&path, 0), strings(&["r", "s", "x.txt"]));
    assert_eq!(strip_components(&path, 1), strings(&["s", "x.txt"]));
    assert_eq!(strip_components(&path, 2), strings(&["x.txt"]));
    assert_eq!(strip_components(&path, 3), strings(&[]));
    assert_eq!(strip_components(&path, 9), strings(&[]));
}

#[test]
fn strip_shapes_the_destination_of_a_run() {
    let events = vec![file(&["r", "s", "x.txt"], Y2020)];
    let batches =
        organize_events(AgePolicy::Oldest, 1, strings(&[]), strings(&[]), &events).unwrap();
    assert_eq!(batches.len(), 1);
    let dsts = batch_destinations(&strings(&["out"]), &batches[0]);
    assert_eq!(dsts[0], strings(&["out", "2020", "s", "x.txt"]));
}

#[test]
fn destination_is_output_year_then_relative_path() {
    let dst = destination(&strings(&["out", "pics"]), 2020, &strings(&["a", "x.txt"]));
    assert_eq!(dst, strings(&["out", "pics", "2020", "a", "x.txt"]));
}

#[test]
fn incremental_accumulator_flushes_and_resets() {
    let filter = PatternFilter::new(strings(&[]), strings(&[])).unwrap();
    let mut org = Organizer::new(AgePolicy::Oldest, 0, filter);
    assert!(org.on_file(&strings(&["a", "x.txt"]), &"x.txt".to_string(), mt(Y2021_JUN)));
    assert!(org.on_file(&strings(&["a", "y.txt"]), &"y.txt".to_string(), mt(Y2020)));
    let b = org.flush().expect("a non-empty batch flushes");
    assert_eq!(b.year, 2020);
    assert_eq!(b.moves.len(), 2);
    assert!(org.flush().is_none());
}

#[test]
fn directory_boundaries_flush_only_at_shallow_depth() {
    let filter = PatternFilter::new(strings(&[]), strings(&[])).unwrap();
    let mut org = Organizer::new(AgePolicy::Oldest, 0, filter);
    assert!(org.on_file(&strings(&["a", "x.txt"]), &"x.txt".to_string(), mt(Y2020)));
    assert!(org.on_dir(3).is_none());
    let b = org.on_dir(2).expect("depth two flushes the open batch");
    assert_eq!(b.year, 2020);
    assert_eq!(b.moves.len(), 1);
    assert!(org.on_dir(0).is_none());
}

#[test]
fn rejected_files_leave_the_accumulator_unchanged() {
    let filter = PatternFilter::new(strings(&["*.jpg"]), strings(&[])).unwrap();
    let mut org = Organizer::new(AgePolicy::Oldest, 0, filter);
    assert!(!org.on_file(&strings(&["a", "x.txt"]), &"x.txt".to_string(), mt(Y2020)));
    assert!(org.flush().is_none());
}
