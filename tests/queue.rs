use pir_player::fault::Fault;
use pir_player::queue::{Entry, TrackQueue};

fn strings(names: &[&str]) -> Vec<String> {
    names.iter().map(|s| s.to_string()).collect()
}

fn entry(position: u64, path: &str) -> Entry {
    Entry { position, path: path.to_string() }
}

fn snapshot(q: &TrackQueue) -> Vec<(u64, String)> {
    q.entries().iter().map(|e| (e.position, e.path.clone())).collect()
}

#[test]
fn populate_assigns_sequential_positions() {
    let mut q = TrackQueue::new();
    let first = q.populate(strings(&["a.mp3", "b.mp3", "c.mp3", "d.mp3"])).unwrap();
    let rows = snapshot(&q);
    assert_eq!(rows.len(), 4);
    for (i, (p, _)) in rows.iter().enumerate() {
        assert_eq!(*p, i as u64);
    }
    let mut paths: Vec<String> = rows.iter().map(|r| r.1.clone()).collect();
    paths.sort();
    assert_eq!(paths, strings(&["a.mp3", "b.mp3", "c.mp3", "d.mp3"]));
    assert_eq!(first.position, 0);
    assert_eq!(first.path, rows[0].1);
}

#[test]
fn drain_dequeues_every_entry_once() {
    let mut q = TrackQueue::new();
    q.populate(strings(&["a.mp3", "b.mp3", "c.mp3", "d.mp3", "e.mp3"])).unwrap();
    let order = snapshot(&q);
    let mut seen = Vec::new();
    while let Some(e) = q.next_track() {
        seen.push((e.position, e.path.clone()));
        q.remove(e.position);
    }
    assert_eq!(seen, order);
    assert_eq!(q.len(), 0);
}

#[test]
fn shuffle_spreads_first_position() {
    let files = strings(&["a.mp3", "b.mp3", "c.mp3"]);
    let mut counts = [0usize; 3];
    for _ in 0..3000 {
        let mut q = TrackQueue::new();
        let first = q.populate(files.clone()).unwrap();
        let i = files.iter().position(|f| *f == first.path).unwrap();
        counts[i] += 1;
    }
    for c in counts.iter() {
        assert!(*c > 800 && *c < 1200, "counts {:?}", counts);
    }
}

#[test]
fn shuffle_changes_order_sometimes() {
    let files: Vec<String> = (0..20).map(|i| format!("{}.mp3", i)).collect();
    let mut moved = false;
    for _ in 0..20 {
        let mut q = TrackQueue::new();
        q.populate(files.clone()).unwrap();
        let paths: Vec<String> = q.entries().iter().map(|e| e.path.clone()).collect();
        if paths != files {
            moved = true;
        }
    }
    assert!(moved);
}

#[test]
fn empty_queue_has_no_next_track() {
    let q = TrackQueue::new();
    assert!(q.next_track().is_none());
}

#[test]
fn repopulation_gives_stable_head() {
    let mut q = TrackQueue::new();
    assert!(q.next_track().is_none());
    let first = q.populate(strings(&["a.mp3", "b.mp3"])).unwrap();
    let again = q.next_track().unwrap();
    let third = q.next_track().unwrap();
    assert_eq!(again.position, first.position);
    assert_eq!(again.path, first.path);
    assert_eq!(third.path, first.path);
    assert_eq!(q.len(), 2);
}

#[test]
fn remove_twice_is_noop() {
    let mut q = TrackQueue::from_rows(vec![entry(2, "a.mp3"), entry(5, "b.mp3"), entry(9, "c.mp3")]).unwrap();
    q.remove(5);
    let after_one = snapshot(&q);
    q.remove(5);
    assert_eq!(snapshot(&q), after_one);
    assert_eq!(after_one, vec![(2, "a.mp3".to_string()), (9, "c.mp3".to_string())]);
}

#[test]
fn remove_missing_position_keeps_queue() {
    let mut q = TrackQueue::from_rows(vec![entry(2, "a.mp3"), entry(5, "b.mp3"), entry(9, "c.mp3")]).unwrap();
    q.remove(7);
    q.remove(0);
    q.remove(100);
    assert_eq!(
        snapshot(&q),
        vec![(2, "a.mp3".to_string()), (5, "b.mp3".to_string()), (9, "c.mp3".to_string())]
    );
}

#[test]
fn remove_by_position_with_duplicate_paths() {
    let mut q = TrackQueue::from_rows(vec![entry(0, "x.mp3"), entry(1, "x.mp3")]).unwrap();
    q.remove(0);
    assert_eq!(snapshot(&q), vec![(1, "x.mp3".to_string())]);
}

#[test]
fn empty_library_is_a_fault() {
    let mut q = TrackQueue::new();
    let r = q.populate(Vec::new());
    assert!(matches!(r, Err(Fault::LibraryEmpty)));
    assert_eq!(q.len(), 0);
    assert_eq!(Fault::LibraryEmpty.exit_code(), 65);
}

#[test]
fn empty_library_keeps_old_queue() {
    let mut q = TrackQueue::from_rows(vec![entry(3, "a.mp3")]).unwrap();
    assert!(matches!(q.load_shuffled(Vec::new()), Err(Fault::LibraryEmpty)));
    assert_eq!(snapshot(&q), vec![(3, "a.mp3".to_string())]);
}

#[test]
fn load_shuffled_keeps_given_order() {
    let mut q = TrackQueue::new();
    let first = q.load_shuffled(strings(&["c.mp3", "a.mp3", "b.mp3"])).unwrap();
    assert_eq!(first.position, 0);
    assert_eq!(first.path, "c.mp3");
    assert_eq!(
        snapshot(&q),
        vec![(0, "c.mp3".to_string()), (1, "a.mp3".to_string()), (2, "b.mp3".to_string())]
    );
}

#[test]
fn from_rows_accepts_increasing_positions() {
    let q = TrackQueue::from_rows(vec![entry(1, "a.mp3"), entry(4, "b.mp3")]).unwrap();
    assert_eq!(q.next_track().unwrap().position, 1);
    assert!(TrackQueue::from_rows(Vec::new()).is_ok());
}

#[test]
fn from_rows_rejects_disorder() {
    assert!(matches!(
        TrackQueue::from_rows(vec![entry(4, "a.mp3"), entry(1, "b.mp3")]),
        Err(Fault::Storage)
    ));
    assert!(matches!(
        TrackQueue::from_rows(vec![entry(2, "a.mp3"), entry(2, "b.mp3")]),
        Err(Fault::Storage)
    ));
}
