use video_batch::abort::Terminator;
use video_batch::error::VideoError;
use video_batch::misc::{frame_batches_simple, frame_batches_advanced, BatchResults, JOB_INCOMPLETE};
use video_batch::threading::{Threadable, PermitAction, FailureStep, CONGESTION_TEXT};
use video_batch::watchdog::{WatchdogComms, WatchdogEvent, WatchdogStep, clock_failure};

#[test]
fn first_error_wins() {
    let mut t = Terminator::create();
    assert!(t.check_signal().is_none());
    assert!(t.set_signal(VideoError::msg("first")));
    assert!(!t.set_signal(VideoError::msg("second")));
    assert!(!t.set_signal(VideoError::msg("third")));
    assert!(t.is_set());
    assert_eq!(t.get_signal().unwrap().message(), "first");
}

#[test]
fn batches_cover_frames_from_one() {
    let b = frame_batches_simple(5, 13);
    assert_eq!(*b, vec![vec![1, 2, 3, 4, 5], vec![6, 7, 8, 9, 10], vec![11, 12]]);
    let b = frame_batches_simple(3, 1);
    assert!(b.is_empty());
    let b = frame_batches_simple(3, 0);
    assert!(b.is_empty());
    let b = frame_batches_simple(4, 5);
    assert_eq!(*b, vec![vec![1, 2, 3, 4]]);
}

#[test]
fn advanced_batches_follow_the_mode() {
    assert_eq!(*frame_batches_advanced(2, 5, "batch"), vec![vec![1, 2], vec![3, 4]]);
    assert_eq!(*frame_batches_advanced(2, 4, "single"), vec![vec![1], vec![2], vec![3]]);
}

#[test]
fn results_keep_batch_order() {
    let mut r: BatchResults<u32> = BatchResults::new(3);
    r.record(2, vec![5, 6]);
    r.record(0, vec![1]);
    r.record(1, vec![2, 3, 4]);
    assert_eq!(r.finish(None).ok().unwrap(), vec![1, 2, 3, 4, 5, 6]);
}

#[test]
fn results_report_the_abort_signal() {
    let mut r: BatchResults<u32> = BatchResults::new(2);
    r.record(0, vec![1]);
    r.record(1, vec![2]);
    let e = r.finish(Some(VideoError::msg("boom"))).err().unwrap();
    assert_eq!(e.message(), "error, video processing failed: boom");
    let mut r: BatchResults<u32> = BatchResults::new(2);
    r.record(1, vec![2]);
    assert_eq!(r.finish(None).err().unwrap().message(), JOB_INCOMPLETE);
}

#[test]
fn permits_start_withheld_and_stay_in_bounds() {
    let mut t = Threadable::create(2, 4, ());
    assert_eq!(t.withheld(), 2);
    assert_eq!(t.outstanding(), 2);
    assert!(t.threading_strategizer(3) == PermitAction::Hold);
    assert!(t.threading_strategizer(5) == PermitAction::Restore);
    assert_eq!(t.outstanding(), 3);
    assert!(t.threading_strategizer(10) == PermitAction::Restore);
    assert!(t.threading_strategizer(15) == PermitAction::Hold);
    assert_eq!(t.outstanding(), 4);
    for k in 0..6u64 {
        t.slow_down();
        t.threading_strategizer(20 + 5 * k);
        assert!(t.outstanding() >= 1);
    }
    assert_eq!(t.outstanding(), 1);
    t.slow_down();
    assert!(t.threading_strategizer(100) == PermitAction::Hold);
    assert_eq!(t.outstanding(), 1);
    assert!(t.threading_strategizer(105) == PermitAction::Restore);
}

#[test]
fn congestion_flag_clears_at_rebalance() {
    let mut t = Threadable::create(3, 3, ());
    t.slow_down();
    assert!(t.threading_strategizer(5) == PermitAction::Withdraw);
    assert!(t.threading_strategizer(10) == PermitAction::Restore);
}

#[test]
fn starting_permits_are_clamped() {
    assert_eq!(Threadable::create(0, 3, ()).outstanding(), 1);
    assert_eq!(Threadable::create(9, 3, ()).outstanding(), 3);
}

#[test]
fn failures_retry_on_congestion_and_abort_otherwise() {
    let mut t = Threadable::create(1, 2, 7u8);
    assert_eq!(*t.arc_data(), 7);
    let congested = format!("algorithm x failed: \n{}", CONGESTION_TEXT);
    assert!(t.after_failure(&congested) == FailureStep::RetrySameBatch);
    assert!(t.check_term_signal().is_none());
    assert!(t.threading_strategizer(5) == PermitAction::Hold);
    let (_, go) = t.begin_attempt(6);
    assert!(go);
    assert!(t.after_failure("disk on fire") == FailureStep::Abandon);
    assert!(t.after_failure("second failure") == FailureStep::Abandon);
    let (_, go) = t.begin_attempt(7);
    assert!(!go);
    assert_eq!(
        t.extract_term_signal().unwrap().message(),
        "algorithm thread failed, ending early: \ndisk on fire"
    );
}

#[test]
fn watchdog_trips_after_warmup() {
    let mut w = WatchdogComms::create(100, 10, 60);
    assert!(w.send_success_signal() == WatchdogEvent::Success);
    let mut tripped_at = None;
    for k in 1..=50u64 {
        match w.on_event(WatchdogEvent::Success, 2 * k) {
            WatchdogStep::Continue => {}
            WatchdogStep::Abort(e) => {
                tripped_at = Some((k, e.message()));
                break;
            }
            WatchdogStep::Stop => panic!("unexpected stop"),
        }
    }
    let (k, msg) = tripped_at.unwrap();
    assert_eq!(k, 6);
    assert_eq!(
        msg,
        "watchdog thread detected.\nMax algo run time: 60s\nAnticipated runtime: 200s\nTerminated early to avoid expense"
    );
}

#[test]
fn watchdog_does_not_trip_within_budget() {
    let mut w = WatchdogComms::create(10, 60, 3000);
    for k in 1..=10u64 {
        assert!(w.record_completion(61 * k).is_none());
    }
    assert_eq!(w.finished_jobs(), 10);
    assert!(matches!(w.on_event(WatchdogEvent::Terminate, 700), WatchdogStep::Stop));
    assert_eq!(clock_failure("skew").message(), "failed to check time: skew");
}
