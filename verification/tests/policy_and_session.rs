use task_tracer::session::{SessionAction, SessionState};
use task_tracer::target::{
    contains_id, distinct_ids, parse_mode, ConfigError, InstrumentationPlan, Selection,
    TargetPolicy, TraceMode,
};

#[test]
fn parse_mode_accepts_the_two_names() {
    assert_eq!(parse_mode("tid"), Ok(TraceMode::Tid));
    assert_eq!(parse_mode("tgid"), Ok(TraceMode::Tgid));
}

#[test]
fn parse_mode_refuses_everything_else() {
    for name in ["", "pid", "TID", "tid ", " tid", "tgi", "tgidx", "tgId", "t", "tidd", "tg\u{131}d"] {
        assert_eq!(parse_mode(name), Err(ConfigError::InvalidMode));
    }
}

#[test]
fn mode_codes() {
    assert_eq!(TraceMode::Tid.code(), 0);
    assert_eq!(TraceMode::Tgid.code(), 1);
}

#[test]
fn no_target_resolves_to_default() {
    let p = TargetPolicy::resolve("tgid", &[]).unwrap();
    assert_eq!(p, TargetPolicy { mode: TraceMode::Tgid, selection: Selection::Default });
    let p = TargetPolicy::resolve("tid", &[]).unwrap();
    assert_eq!(p, TargetPolicy { mode: TraceMode::Tid, selection: Selection::Default });
}

#[test]
fn one_target_resolves_to_single() {
    let p = TargetPolicy::resolve("tgid", &[321]).unwrap();
    assert_eq!(p, TargetPolicy { mode: TraceMode::Tgid, selection: Selection::Single(321) });
    let p = TargetPolicy::for_mode(TraceMode::Tid, &[-5]);
    assert_eq!(p.selection, Selection::Single(-5));
}

#[test]
fn several_targets_resolve_to_their_ids() {
    let p = TargetPolicy::resolve("tid", &[7, 3, 9]).unwrap();
    assert_eq!(p.mode, TraceMode::Tid);
    assert_eq!(p.selection, Selection::Many(vec![7, 3, 9]));
}

#[test]
fn repeated_targets_collapse() {
    let p = TargetPolicy::for_mode(TraceMode::Tgid, &[4, 2, 4, 4, 2, 8]);
    assert_eq!(p.selection, Selection::Many(vec![4, 2, 8]));
    let p = TargetPolicy::for_mode(TraceMode::Tgid, &[5, 5]);
    assert_eq!(p.selection, Selection::Many(vec![5]));
}

#[test]
fn order_of_targets_does_not_change_the_ids() {
    let a = TargetPolicy::for_mode(TraceMode::Tid, &[1, 2, 3, 2]);
    let b = TargetPolicy::for_mode(TraceMode::Tid, &[3, 3, 2, 1, 1]);
    let ids = |p: &TargetPolicy| match &p.selection {
        Selection::Many(v) => {
            let mut v = v.clone();
            v.sort();
            v
        }
        _ => panic!("expected several ids"),
    };
    assert_eq!(ids(&a), vec![1, 2, 3]);
    assert_eq!(ids(&a), ids(&b));
}

#[test]
fn invalid_mode_is_refused_whatever_the_targets() {
    assert_eq!(TargetPolicy::resolve("proc", &[]), Err(ConfigError::InvalidMode));
    assert_eq!(TargetPolicy::resolve("", &[1]), Err(ConfigError::InvalidMode));
    assert_eq!(TargetPolicy::resolve("tids", &[1, 2]), Err(ConfigError::InvalidMode));
}

#[test]
fn distinct_ids_keeps_first_occurrences() {
    assert_eq!(distinct_ids(&[]), Vec::<i32>::new());
    assert_eq!(distinct_ids(&[1]), vec![1]);
    assert_eq!(distinct_ids(&[3, 1, 3, 2, 1]), vec![3, 1, 2]);
    assert!(contains_id(&vec![3, 1, 2], 2));
    assert!(!contains_id(&vec![3, 1, 2], 4));
    assert!(!contains_id(&vec![], 0));
}

#[test]
fn plan_for_default_uses_the_callers_own_id() {
    let p = TargetPolicy::for_mode(TraceMode::Tid, &[]);
    assert_eq!(
        p.plan(111, 222),
        InstrumentationPlan { mode_code: 0, single_target: Some(111), table: vec![] }
    );
    let p = TargetPolicy::for_mode(TraceMode::Tgid, &[]);
    assert_eq!(
        p.plan(111, 222),
        InstrumentationPlan { mode_code: 1, single_target: Some(222), table: vec![] }
    );
}

#[test]
fn plan_for_single_and_many() {
    let p = TargetPolicy::for_mode(TraceMode::Tgid, &[42]);
    assert_eq!(
        p.plan(1, 2),
        InstrumentationPlan { mode_code: 1, single_target: Some(42), table: vec![] }
    );
    let p = TargetPolicy::for_mode(TraceMode::Tid, &[42, 43, 42]);
    assert_eq!(
        p.plan(1, 2),
        InstrumentationPlan { mode_code: 0, single_target: None, table: vec![42, 43] }
    );
}

#[test]
fn session_starts_running() {
    assert_eq!(SessionState::start(), SessionState::Running);
    assert!(!SessionState::Running.is_terminal());
    assert!(SessionState::Completed.is_terminal());
    assert!(SessionState::Cancelled.is_terminal());
}

#[test]
fn session_completes_when_the_budget_is_spent() {
    let s = SessionState::start();
    assert_eq!(s.step(10, 9, false), SessionState::Running);
    assert_eq!(s.step(10, 10, false), SessionState::Completed);
    assert_eq!(s.step(10, 11, false), SessionState::Completed);
    assert_eq!(s.step(10, 10, true), SessionState::Completed);
    assert_eq!(s.step(1, 0, false), SessionState::Running);
}

#[test]
fn session_is_cancelled_by_the_flag() {
    let s = SessionState::start();
    assert_eq!(s.step(10, 3, true), SessionState::Cancelled);
    assert_eq!(s.step(0, 3, true), SessionState::Cancelled);
}

#[test]
fn unlimited_session_ends_only_by_cancellation() {
    let mut s = SessionState::start();
    for elapsed in [0u64, 1, 10, 1_000_000, u64::MAX] {
        s = s.step(0, elapsed, false);
        assert_eq!(s, SessionState::Running);
    }
    s = s.step(0, u64::MAX, true);
    assert_eq!(s, SessionState::Cancelled);
}

#[test]
fn ended_session_stays_ended() {
    assert_eq!(SessionState::Completed.step(0, 0, true), SessionState::Completed);
    assert_eq!(SessionState::Cancelled.step(5, 100, false), SessionState::Cancelled);
    assert_eq!(SessionState::Cancelled.step(0, 0, false), SessionState::Cancelled);
}

#[test]
fn action_by_state() {
    assert_eq!(SessionState::Running.action(), SessionAction::Poll);
    assert_eq!(SessionState::Completed.action(), SessionAction::Report);
    assert_eq!(SessionState::Cancelled.action(), SessionAction::Report);
}
