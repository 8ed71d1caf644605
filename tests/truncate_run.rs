use std::collections::HashMap;

use fuse_gc::model::{GcError, Segment, Snapshot, TruncateCounts};
use fuse_gc::run::{Request, TruncateRun};

#[derive(Clone)]
enum Object {
    Snapshot(Snapshot),
    Segment(Segment),
    Block,
    Undecodable,
}

#[derive(Debug, Clone, PartialEq, Eq)]
enum Call {
    ReadSnapshot(String),
    ReadSegment(String),
    Remove(String),
}

struct Store {
    objects: HashMap<String, Object>,
    calls: Vec<Call>,
    failing_removal: Option<String>,
}

impl Store {
    fn new() -> Self {
        Store { objects: HashMap::new(), calls: Vec::new(), failing_removal: None }
    }

    fn snapshot(&mut self, loc: &str, segments: &[&str], prev: Option<&str>) {
        let s = Snapshot {
            snapshot_id: format!("id-{}", loc),
            segments: segments.iter().map(|s| s.to_string()).collect(),
            prev_snapshot_location: prev.map(|p| p.to_string()),
        };
        self.objects.insert(loc.to_string(), Object::Snapshot(s));
    }

    fn segment(&mut self, loc: &str, blocks: &[&str]) {
        let s = Segment { blocks: blocks.iter().map(|b| b.to_string()).collect() };
        self.objects.insert(loc.to_string(), Object::Segment(s));
        for b in blocks {
            self.objects.insert(b.to_string(), Object::Block);
        }
    }

    fn read_snapshot(&mut self, loc: &str) -> Result<Snapshot, GcError> {
        self.calls.push(Call::ReadSnapshot(loc.to_string()));
        match self.objects.get(loc) {
            Some(Object::Snapshot(s)) => Ok(s.clone()),
            Some(_) => Err(GcError::MetadataCorrupt(loc.to_string())),
            None => Err(GcError::NotFound(loc.to_string())),
        }
    }

    fn read_segment(&mut self, loc: &str) -> Result<Segment, GcError> {
        self.calls.push(Call::ReadSegment(loc.to_string()));
        match self.objects.get(loc) {
            Some(Object::Segment(s)) => Ok(s.clone()),
            Some(_) => Err(GcError::MetadataCorrupt(loc.to_string())),
            None => Err(GcError::NotFound(loc.to_string())),
        }
    }

    fn remove(&mut self, loc: &str) -> Result<(), GcError> {
        self.calls.push(Call::Remove(loc.to_string()));
        if self.failing_removal.as_deref() == Some(loc) {
            return Err(GcError::StoreError(loc.to_string()));
        }
        self.objects.remove(loc);
        Ok(())
    }

    fn removals(&self) -> Vec<String> {
        self.calls
            .iter()
            .filter_map(|c| match c {
                Call::Remove(l) => Some(l.clone()),
                _ => None,
            })
            .collect()
    }

    fn segment_reads(&self) -> usize {
        self.calls.iter().filter(|c| matches!(c, Call::ReadSegment(_))).count()
    }
}

fn run(store: &mut Store, head: Option<&str>) -> Result<Option<TruncateCounts>, GcError> {
    let mut run = TruncateRun::start(head.map(|h| h.to_string()));
    loop {
        run = match run.request() {
            Request::ReadSnapshot(loc) => {
                let r = store.read_snapshot(&loc);
                run.on_snapshot(r)
            }
            Request::ReadSegment(loc) => {
                let r = store.read_segment(&loc);
                run.on_segment(r)
            }
            Request::Remove(loc) => {
                let r = store.remove(&loc);
                run.on_removed(r)
            }
            Request::Done => return run.into_result(),
        };
    }
}

fn counts(snapshots: u64, segments: u64, blocks: u64) -> TruncateCounts {
    TruncateCounts { snapshot_removed: snapshots, segment_removed: segments, block_removed: blocks }
}

#[test]
fn single_snapshot_gives_no_rows() {
    let mut store = Store::new();
    store.snapshot("s0", &["a", "b"], None);
    store.segment("a", &["x"]);
    store.segment("b", &["y"]);
    assert_eq!(run(&mut store, Some("s0")), Ok(None));
    assert_eq!(store.calls, vec![Call::ReadSnapshot("s0".to_string())]);
    assert_eq!(store.objects.len(), 5);
}

#[test]
fn never_written_table_makes_no_store_call() {
    let mut store = Store::new();
    assert_eq!(run(&mut store, None), Ok(None));
    assert!(store.calls.is_empty());
}

#[test]
fn superseded_segment_and_its_block_are_removed() {
    let mut store = Store::new();
    store.snapshot("s0", &["b"], Some("s1"));
    store.snapshot("s1", &["a", "b"], None);
    store.segment("a", &["x"]);
    store.segment("b", &["y"]);
    assert_eq!(run(&mut store, Some("s0")), Ok(Some(counts(1, 1, 1))));
    assert_eq!(store.removals(), vec!["x".to_string(), "a".to_string(), "s1".to_string()]);
    assert!(store.objects.contains_key("s0"));
    assert!(store.objects.contains_key("b"));
    assert!(store.objects.contains_key("y"));
}

#[test]
fn shared_segment_is_kept() {
    let mut store = Store::new();
    store.snapshot("s0", &["a"], Some("s1"));
    store.snapshot("s1", &["a", "b"], None);
    store.segment("a", &["x", "w"]);
    store.segment("b", &["x", "z"]);
    assert_eq!(run(&mut store, Some("s0")), Ok(Some(counts(1, 1, 1))));
    assert_eq!(store.removals(), vec!["z".to_string(), "b".to_string(), "s1".to_string()]);
    assert!(store.objects.contains_key("a"));
    assert!(store.objects.contains_key("x"));
    assert!(store.objects.contains_key("w"));
}

#[test]
fn undecodable_history_segment_fails_before_any_removal() {
    let mut store = Store::new();
    store.snapshot("s0", &["b"], Some("s1"));
    store.snapshot("s1", &["a", "b"], None);
    store.objects.insert("a".to_string(), Object::Undecodable);
    store.segment("b", &["y"]);
    assert_eq!(run(&mut store, Some("s0")), Err(GcError::MetadataCorrupt("a".to_string())));
    assert!(store.removals().is_empty());
}

#[test]
fn removals_go_blocks_then_segments_then_snapshots_oldest_first() {
    let mut store = Store::new();
    store.snapshot("s0", &["c"], Some("s1"));
    store.snapshot("s1", &["b", "c"], Some("s2"));
    store.snapshot("s2", &["a"], Some("s3"));
    store.snapshot("s3", &["a"], None);
    store.segment("a", &["x"]);
    store.segment("b", &["y"]);
    store.segment("c", &["z"]);
    assert_eq!(run(&mut store, Some("s0")), Ok(Some(counts(3, 2, 2))));
    let removed = store.removals();
    assert_eq!(removed.len(), 7);
    let mut blocks = removed[0..2].to_vec();
    blocks.sort();
    assert_eq!(blocks, vec!["x".to_string(), "y".to_string()]);
    let mut segments = removed[2..4].to_vec();
    segments.sort();
    assert_eq!(segments, vec!["a".to_string(), "b".to_string()]);
    assert_eq!(removed[4..].to_vec(), vec!["s3".to_string(), "s2".to_string(), "s1".to_string()]);
}

#[test]
fn segment_in_many_snapshots_is_removed_once() {
    let mut store = Store::new();
    store.snapshot("s0", &["c"], Some("s1"));
    store.snapshot("s1", &["a", "c"], Some("s2"));
    store.snapshot("s2", &["a", "a"], None);
    store.segment("a", &["x", "x"]);
    store.segment("c", &["z"]);
    assert_eq!(run(&mut store, Some("s0")), Ok(Some(counts(2, 1, 1))));
    assert_eq!(
        store.removals(),
        vec!["x".to_string(), "a".to_string(), "s2".to_string(), "s1".to_string()]
    );
}

#[test]
fn history_without_unreachable_segments_removes_only_snapshots() {
    let mut store = Store::new();
    store.snapshot("s0", &["a", "b"], Some("s1"));
    store.snapshot("s1", &["a"], None);
    store.segment("a", &["x"]);
    store.segment("b", &["y"]);
    assert_eq!(run(&mut store, Some("s0")), Ok(Some(counts(1, 0, 0))));
    assert_eq!(store.removals(), vec!["s1".to_string()]);
    assert_eq!(store.segment_reads(), 2);
}

#[test]
fn rerun_on_collapsed_history_gives_no_rows() {
    let mut store = Store::new();
    store.snapshot("s0", &["b"], Some("s1"));
    store.snapshot("s1", &["a", "b"], None);
    store.segment("a", &["x"]);
    store.segment("b", &["y"]);
    assert_eq!(run(&mut store, Some("s0")), Ok(Some(counts(1, 1, 1))));
    // The current snapshot now heads a history of one.
    store.snapshot("s0", &["b"], None);
    store.calls.clear();
    assert_eq!(run(&mut store, Some("s0")), Ok(None));
    assert!(store.removals().is_empty());
}

#[test]
fn rerun_through_removed_predecessor_is_not_found() {
    let mut store = Store::new();
    store.snapshot("s0", &["b"], Some("s1"));
    store.snapshot("s1", &["a", "b"], None);
    store.segment("a", &["x"]);
    store.segment("b", &["y"]);
    assert_eq!(run(&mut store, Some("s0")), Ok(Some(counts(1, 1, 1))));
    store.calls.clear();
    assert_eq!(run(&mut store, Some("s0")), Err(GcError::NotFound("s1".to_string())));
    assert!(store.removals().is_empty());
}

#[test]
fn missing_head_snapshot_is_not_found() {
    let mut store = Store::new();
    assert_eq!(run(&mut store, Some("s0")), Err(GcError::NotFound("s0".to_string())));
}

#[test]
fn cyclic_history_is_corrupt() {
    let mut store = Store::new();
    store.snapshot("s0", &["a"], Some("s1"));
    store.snapshot("s1", &["b"], Some("s0"));
    store.segment("a", &["x"]);
    store.segment("b", &["y"]);
    assert_eq!(run(&mut store, Some("s0")), Err(GcError::MetadataCorrupt("s0".to_string())));
    assert!(store.removals().is_empty());
    assert_eq!(store.segment_reads(), 0);
}

#[test]
fn failed_removal_stops_the_run() {
    let mut store = Store::new();
    store.snapshot("s0", &["c"], Some("s1"));
    store.snapshot("s1", &["a", "b"], None);
    store.segment("a", &["x"]);
    store.segment("b", &["y"]);
    store.segment("c", &["z"]);
    store.failing_removal = Some("a".to_string());
    let r = run(&mut store, Some("s0"));
    assert_eq!(r, Err(GcError::StoreError("a".to_string())));
    let removed = store.removals();
    assert_eq!(removed.last(), Some(&"a".to_string()));
    assert!(!removed.contains(&"s1".to_string()));
    assert!(store.objects.contains_key("s1"));
}

#[test]
fn undecodable_current_segment_fails_before_any_removal() {
    let mut store = Store::new();
    store.snapshot("s0", &["b"], Some("s1"));
    store.snapshot("s1", &["a"], None);
    store.segment("a", &["x"]);
    store.objects.insert("b".to_string(), Object::Undecodable);
    assert_eq!(run(&mut store, Some("s0")), Err(GcError::MetadataCorrupt("b".to_string())));
    assert!(store.removals().is_empty());
}
