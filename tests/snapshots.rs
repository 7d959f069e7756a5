use terrabase::snapshot::{snapshot_name, utc_now, Queue, SnapStart, SnapshotEngine, Stamp};

#[test]
fn test_queue() {
    let mut q = Queue::new((4, false));
    assert!(q.add(String::from("snap1")).is_none());
    assert!(q.add(String::from("snap2")).is_none());
    assert!(q.add(String::from("snap3")).is_none());
    assert!(q.add(String::from("snap4")).is_none());
    assert_eq!(q.add(String::from("snap5")), Some(String::from("snap1")));
    assert_eq!(q.add(String::from("snap6")), Some(String::from("snap2")));
}

#[test]
fn test_queue_dontpop() {
    let mut q = Queue::new((4, true));
    assert!(q.add(String::from("snap1")).is_none());
    assert!(q.add(String::from("snap2")).is_none());
    assert!(q.add(String::from("snap3")).is_none());
    assert!(q.add(String::from("snap4")).is_none());
    assert!(q.add(String::from("snap5")).is_none());
    assert!(q.add(String::from("snap6")).is_none());
}

#[test]
fn snapshot_rotation_keeps_last_four() {
    let mut engine = SnapshotEngine::new(4);
    let mut deleted = Vec::new();
    for i in 1..=6 {
        if let Some(old) = engine.finish(format!("s{}", i), true) {
            deleted.push(old);
        }
    }
    assert_eq!(deleted, vec![String::from("s1"), String::from("s2")]);
    let kept: Vec<String> = engine.get_snapshots().to_vec();
    assert_eq!(kept, vec!["s3", "s4", "s5", "s6"]);
}

#[test]
fn unbounded_engine_keeps_all() {
    let mut engine = SnapshotEngine::new(0);
    for i in 1..=20 {
        assert!(engine.finish(format!("s{}", i), true).is_none());
    }
    assert_eq!(engine.get_snapshots().len(), 20);
}

#[test]
fn failed_write_is_not_queued() {
    let mut engine = SnapshotEngine::new(1);
    assert!(engine.finish(String::from("a"), true).is_none());
    assert!(engine.finish(String::from("b"), false).is_none());
    assert_eq!(engine.get_snapshots().to_vec(), vec!["a"]);
    assert_eq!(engine.finish(String::from("c"), true), Some(String::from("a")));
}

#[test]
fn terminating_table_takes_no_snapshot() {
    let engine = SnapshotEngine::new(4);
    assert!(matches!(engine.begin(true), SnapStart::ShuttingDown));
    let name = match engine.begin(false) {
        SnapStart::Path(name) => name,
        _ => panic!("the clock should be readable here"),
    };
    assert_eq!(name.len(), "./snapshots/20200101-000000.snapshot".len());
}

#[test]
fn queue_iter_lists_oldest_first() {
    let mut q = Queue::new((2, false));
    q.add(String::from("a"));
    q.add(String::from("b"));
    q.add(String::from("c"));
    assert_eq!(q.iter().to_vec(), vec!["b", "c"]);
}

#[test]
fn snapshot_names_follow_the_pattern() {
    let t = Stamp { year: 2020, month: 8, day: 5, hour: 7, minute: 3, second: 9 };
    assert_eq!(snapshot_name(&t), "./snapshots/20200805-070309.snapshot");
    let early = Stamp { year: 42, month: 12, day: 31, hour: 23, minute: 59, second: 59 };
    assert_eq!(snapshot_name(&early), "./snapshots/00421231-235959.snapshot");
    let late = Stamp { year: 12345, month: 1, day: 1, hour: 0, minute: 0, second: 0 };
    assert_eq!(snapshot_name(&late), "./snapshots/+123450101-000000.snapshot");
    let neg = Stamp { year: -7, month: 1, day: 1, hour: 0, minute: 0, second: 0 };
    assert_eq!(snapshot_name(&neg), "./snapshots/-00070101-000000.snapshot");
}

#[test]
fn snapshot_name_matches_chrono() {
    let t = Stamp { year: 2021, month: 11, day: 2, hour: 13, minute: 4, second: 45 };
    let d = chrono::NaiveDate::from_ymd_opt(2021, 11, 2)
        .unwrap()
        .and_hms_opt(13, 4, 45)
        .unwrap();
    let expect = d.format("./snapshots/%Y%m%d-%H%M%S.snapshot").to_string();
    assert_eq!(snapshot_name(&t), expect);
}

#[test]
fn clock_reads_a_valid_stamp() {
    let t = utc_now().unwrap();
    assert!(t.year >= 2020);
    assert!((1..=12).contains(&t.month) && (1..=31).contains(&t.day));
    assert!(t.hour < 24 && t.minute < 60 && t.second < 60);
}
