use manbo::sync::sync_report;
use manbo::sync::{tick_runs, SyncTimer, MAX_BACKOFF};

#[test]
fn failures_stretch_the_interval_up_to_eight_times() {
    let mut timer = SyncTimer::new(10, 1000);
    assert_eq!((timer.interval, timer.next_due, timer.backoff), (600, 1600, 1));
    assert!(!timer.is_due(1599));
    assert!(timer.is_due(1600));
    let mut factors = Vec::new();
    for _ in 0..5 {
        timer.note_report(false);
        factors.push(timer.backoff);
    }
    assert_eq!(factors, [2, 4, 8, MAX_BACKOFF, MAX_BACKOFF]);
    timer.reschedule(2000);
    assert_eq!(timer.next_due, 2000 + 600 * 8);
    timer.note_report(true);
    assert_eq!(timer.backoff, 1);
    timer.reschedule(2000);
    assert_eq!(timer.next_due, 2600);
}

#[test]
fn an_interval_is_at_least_a_minute() {
    assert_eq!(SyncTimer::new(0, 0).interval, 60);
}

#[test]
fn ticks_wait_for_the_user() {
    assert!(tick_runs(true, false, false));
    assert!(!tick_runs(false, false, false));
    assert!(!tick_runs(true, true, false));
    assert!(!tick_runs(true, false, true));
}

#[test]
fn a_sync_report_lists_counts_messages_and_directories() {
    let messages = vec!["user.tsv: conflict".to_owned()];
    assert_eq!(
        sync_report(2, 3, 1, &messages, "device-a", "cloud"),
        "同步完成：2 个文件有变化，3 个一致，1 个失败\n  - user.tsv: conflict\n设备目录：device-a\n云端目录：cloud\n"
    );
    assert_eq!(
        sync_report(0, 0, 0, &Vec::new(), "d", "c"),
        "同步完成：0 个文件有变化，0 个一致，0 个失败\n设备目录：d\n云端目录：c\n"
    );
}
