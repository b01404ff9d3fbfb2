use esprit::memory::{LineageWalk, StoredExchange};
use std::collections::HashMap;

fn walk(store: &HashMap<i64, (&str, &str, Option<i64>)>, tail: i64, limit: usize) -> Vec<(String, String)> {
    let mut w = LineageWalk::start(tail, limit);
    while let Some(id) = w.next_id() {
        let row = store.get(&id).map(|(q, a, p)| StoredExchange {
            question: q.to_string(),
            answer: a.to_string(),
            parent: *p,
        });
        w.on_row(row);
    }
    w.finish()
}

fn store() -> HashMap<i64, (&'static str, &'static str, Option<i64>)> {
    let mut s = HashMap::new();
    s.insert(1, ("q1", "a1", None));
    s.insert(2, ("q2", "a2", Some(1)));
    s.insert(3, ("q3", "a3", Some(2)));
    s.insert(4, ("q4", "a4", Some(99)));
    s
}

#[test]
fn lineage_is_returned_oldest_first() {
    let got = walk(&store(), 3, 10);
    assert_eq!(
        got,
        vec![("q1".to_string(), "a1".to_string()), ("q2".to_string(), "a2".to_string()), ("q3".to_string(), "a3".to_string())]
    );
}

#[test]
fn lineage_respects_the_limit() {
    let got = walk(&store(), 3, 2);
    assert_eq!(got, vec![("q2".to_string(), "a2".to_string()), ("q3".to_string(), "a3".to_string())]);
    assert!(walk(&store(), 3, 0).is_empty());
}

#[test]
fn lineage_stops_at_a_missing_parent() {
    assert_eq!(walk(&store(), 4, 10), vec![("q4".to_string(), "a4".to_string())]);
    assert!(walk(&store(), 42, 10).is_empty());
}
