use tiles_analyzer::progress::{
    ProgressStatus, ProgressTracker, ProgressUpdateCondition, StepFraction,
};

#[test]
fn clamps_to_target_and_reports_completion() {
    let mut t = ProgressTracker::new(10, ProgressUpdateCondition::OnProgressChanged(5));
    assert_eq!(t.inc_progress(4, 0), None);
    assert!(t.inc_progress(4, 100).is_some());
    let last = t.inc_progress(4, 200);
    assert_eq!(t.current_progress(), 10);
    assert_eq!(t.target_progress(), 10);
    let s = last.unwrap();
    assert_eq!(s.progress, 10);
    assert_eq!(s.target, 10);
    assert_eq!(s.eta_millis, Some(0));
}

#[test]
fn increments_after_completion_are_ignored() {
    let mut t = ProgressTracker::new(3, ProgressUpdateCondition::OnProgressChanged(1));
    assert!(t.inc_progress(5, 0).is_some());
    assert_eq!(t.inc_progress(1, 10), None);
    assert_eq!(t.current_progress(), 3);
}

#[test]
fn eta_needs_two_samples() {
    let mut t = ProgressTracker::new(100, ProgressUpdateCondition::OnProgressChanged(10));
    let first = t.inc_progress(10, 0).unwrap();
    assert_eq!(first, ProgressStatus { progress: 10, target: 100, eta_millis: None });
    let second = t.inc_progress(10, 1000).unwrap();
    assert_eq!(second, ProgressStatus { progress: 20, target: 100, eta_millis: Some(8000) });
}

#[test]
fn eta_unknown_without_progress_between_samples() {
    let mut t = ProgressTracker::new(100, ProgressUpdateCondition::OnProgressChanged(1));
    assert!(t.inc_progress(1, 0).is_some());
    let s = t.inc_progress(0, 500);
    assert_eq!(s, None);
}

#[test]
fn percentage_condition_reports_on_new_step() {
    let tenth = StepFraction { num: 1, den: 10 };
    let mut t = ProgressTracker::new(200, ProgressUpdateCondition::OnPercentageChanged(tenth));
    assert_eq!(t.inc_progress(10, 0), None);
    let s = t.inc_progress(15, 100).unwrap();
    assert_eq!(s.progress, 25);
    assert_eq!(t.inc_progress(14, 200), None);
    assert!(t.inc_progress(1, 300).is_some());
}

#[test]
fn percentage_step_is_a_ratio_of_the_target() {
    let ten = StepFraction { num: 10, den: 1 };
    let mut t = ProgressTracker::new(100, ProgressUpdateCondition::OnPercentageChanged(ten));
    assert_eq!(t.inc_progress(15, 0), None);
    assert_eq!(t.inc_progress(80, 10), None);
    assert!(t.inc_progress(5, 20).is_some());
}

#[test]
fn progress_condition_reports_on_new_multiple() {
    let mut t = ProgressTracker::new(10_000, ProgressUpdateCondition::OnProgressChanged(1000));
    for _ in 0..999 {
        assert_eq!(t.inc_progress(1, 0), None);
    }
    assert!(t.inc_progress(1, 0).is_some());
}

#[test]
fn throughput_window_drops_oldest_samples() {
    let mut t = ProgressTracker::new(1000, ProgressUpdateCondition::OnProgressChanged(1));
    let mut last = None;
    for i in 0..33u64 {
        last = t.inc_progress(1, i * 10);
    }
    assert_eq!(last.unwrap().eta_millis, Some(9670));
}
