use mijiabt::scan::listen_timed_out;
use mijiabt::subscription::{RuleKind, Subscriptions};

#[test]
fn subscriptions_start_empty() {
    let s = Subscriptions::new();
    assert_eq!(s.token(RuleKind::InterfacesAdded), None);
    assert_eq!(s.token(RuleKind::PropertiesChanged), None);
}

#[test]
fn replacing_twice_removes_exactly_the_previous_tokens() {
    let mut s = Subscriptions::new();
    let mut live: Vec<(usize, RuleKind)> = Vec::new();
    let mut next = 1usize;
    for _ in 0..3 {
        for kind in [RuleKind::InterfacesAdded, RuleKind::PropertiesChanged] {
            if let Some(t) = s.take(kind) {
                let before = live.len();
                live.retain(|(x, _)| *x != t);
                assert_eq!(live.len(), before - 1);
            }
            live.push((next, kind));
            assert_eq!(s.record(kind, next), None);
            next += 1;
        }
    }
    // one rule of each kind: a signal reaches one handler only
    assert_eq!(live.iter().filter(|(_, k)| *k == RuleKind::InterfacesAdded).count(), 1);
    assert_eq!(live.iter().filter(|(_, k)| *k == RuleKind::PropertiesChanged).count(), 1);
    assert_eq!(s.token(RuleKind::InterfacesAdded), Some(5));
    assert_eq!(s.token(RuleKind::PropertiesChanged), Some(6));
}

#[test]
fn record_without_take_reports_displaced_token() {
    let mut s = Subscriptions::new();
    assert_eq!(s.record(RuleKind::PropertiesChanged, 3), None);
    assert_eq!(s.record(RuleKind::PropertiesChanged, 4), Some(3));
    assert_eq!(s.token(RuleKind::InterfacesAdded), None);
}

#[test]
fn listen_timeout_decision() {
    assert!(!listen_timed_out(None, u64::MAX));
    assert!(!listen_timed_out(Some(10), 9));
    assert!(listen_timed_out(Some(10), 10));
    assert!(listen_timed_out(Some(0), 0));
}
