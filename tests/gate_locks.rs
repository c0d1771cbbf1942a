use build_hook::gate::{BuildLocks, GateResult};

fn locks() -> BuildLocks {
    BuildLocks::new(&vec!["api".to_string(), "web".to_string()])
}

#[test]
fn two_triggers_one_proceeds() {
    let mut g = locks();
    assert_eq!(g.try_acquire("api"), GateResult::Acquired);
    assert_eq!(g.try_acquire("api"), GateResult::Busy);
    assert!(g.is_held("api"));
}

#[test]
fn other_project_is_independent() {
    let mut g = locks();
    assert_eq!(g.try_acquire("api"), GateResult::Acquired);
    assert_eq!(g.try_acquire("web"), GateResult::Acquired);
}

#[test]
fn unknown_slug_touches_no_lock() {
    let mut g = locks();
    assert_eq!(g.try_acquire("nope"), GateResult::Unknown);
    assert!(!g.is_held("api"));
    assert!(!g.is_held("web"));
    assert!(!g.contains("nope"));
}

#[test]
fn release_frees_the_lock() {
    let mut g = locks();
    assert_eq!(g.try_acquire("web"), GateResult::Acquired);
    g.release("web");
    assert!(!g.is_held("web"));
    assert_eq!(g.try_acquire("web"), GateResult::Acquired);
}
