use whatcolor::{History, HISTORY_LIMIT};

#[test]
fn history_starts_empty() {
    let h: History<u32> = History::new();
    assert!(h.is_empty());
    assert_eq!(h.len(), 0);
}

#[test]
fn history_keeps_latest_captures() {
    let mut h = History::new();
    for i in 0..20u32 {
        h.capture(i);
    }
    assert_eq!(HISTORY_LIMIT, 18);
    assert_eq!(h.len(), 18);
    assert_eq!(h.items().first(), Some(&2));
    assert_eq!(h.items().last(), Some(&19));
    let expected: Vec<u32> = (2..20).collect();
    assert_eq!(h.items(), expected.as_slice());
}

#[test]
fn history_below_limit_keeps_all() {
    let mut h = History::new();
    h.capture("a");
    h.capture("b");
    assert_eq!(h.items(), &["a", "b"]);
    assert!(!h.is_empty());
}
