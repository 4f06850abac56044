use pinnacle_core::barrier::{Barrier, BarrierPhase};
use pinnacle_core::output::OutputName;

#[test]
fn no_siblings_means_no_barrier() {
    assert!(Barrier::install(5, Vec::new()).is_none());
}

#[test]
fn raise_waits_for_every_sibling_twice() {
    let mut b = Barrier::install(5, vec![1, 2]).unwrap();
    assert!(matches!(b.phase, BarrierPhase::AwaitingRelease));

    // First round: both siblings must commit before the release.
    let out = b.on_commit(1);
    assert!(!out.release && !out.raise);
    let out = b.on_commit(2);
    assert!(out.release && !out.raise);
    assert!(matches!(b.phase, BarrierPhase::AwaitingConfirm));

    // Second round: both siblings must commit again before the raise.
    let out = b.on_commit(2);
    assert!(!out.release && !out.raise);
    let out = b.on_commit(1);
    assert!(!out.release && out.raise);
    assert!(matches!(b.phase, BarrierPhase::Done));
}

#[test]
fn commits_of_strangers_change_nothing() {
    let mut b = Barrier::install(5, vec![1]).unwrap();
    let out = b.on_commit(99);
    assert!(!out.release && !out.raise);
    assert!(matches!(b.phase, BarrierPhase::AwaitingRelease));
}

#[test]
fn destroyed_gated_window_releases_without_raise() {
    let mut b = Barrier::install(5, vec![1, 2]).unwrap();
    let out = b.on_destroyed(5);
    assert!(out.release && !out.raise);
    assert!(matches!(b.phase, BarrierPhase::Done));
    assert!(b.released);
    assert!(!b.raised);
}

#[test]
fn destroyed_sibling_counts_as_satisfied() {
    let mut b = Barrier::install(5, vec![1, 2]).unwrap();
    let out = b.on_destroyed(1);
    assert!(!out.release && !out.raise);
    let out = b.on_commit(2);
    assert!(out.release && !out.raise);
    // Only the survivor is waited on after the release.
    assert_eq!(b.pending, vec![2]);
    let out = b.on_commit(2);
    assert!(out.raise);
}

#[test]
fn all_siblings_destroyed_raises_at_once() {
    let mut b = Barrier::install(5, vec![1]).unwrap();
    let out = b.on_destroyed(1);
    assert!(out.release && out.raise);
    assert!(matches!(b.phase, BarrierPhase::Done));
}

#[test]
fn events_after_done_are_ignored() {
    let mut b = Barrier::install(5, vec![1]).unwrap();
    b.on_destroyed(5);
    let out = b.on_commit(1);
    assert!(!out.release && !out.raise);
    assert!(matches!(b.phase, BarrierPhase::Done));
}

#[test]
fn output_names_compare_by_content() {
    let a = OutputName("connector-1".to_string());
    let b = OutputName("connector-1".to_string());
    let c = OutputName("connector-2".to_string());
    assert!(a == b);
    assert!(a != c);
    assert_eq!(a.clone().0, "connector-1");
}
