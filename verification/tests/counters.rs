use esprit::counters::{incr, snapshot, Counters};

#[test]
fn counters_count_each_name() {
    let mut c = Counters::new();
    incr(&mut c, "search");
    incr(&mut c, "ask");
    incr(&mut c, "search");
    let mut s = snapshot(&c);
    s.sort();
    assert_eq!(s, vec![("ask".to_string(), 1), ("search".to_string(), 2)]);
}

#[test]
fn fresh_counters_are_empty() {
    assert!(snapshot(&Counters::new()).is_empty());
}
