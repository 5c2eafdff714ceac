use manbo::replay::{
    has_room_for, replay_scope, source_label, CommitPlan, InputSource, LogEvent, LoggedCommit, ReplayAction,
    ReplayError, Report, Tally, TallyKind,
};

fn logged(index: Option<usize>, pages: u32, ms: u64, rescored: bool) -> LoggedCommit {
    LoggedCommit { index, pages, ms, rescored }
}

#[test]
fn tallies_put_each_commit_in_one_outcome() {
    let mut t = Tally::default();
    t.record_ranked(Some(0), false, false);
    t.record_ranked(Some(3), true, true);
    t.record_ranked(Some(7), true, false);
    t.record_ranked(None, false, false);
    t.record_unparsable();
    assert_eq!((t.total, t.top1, t.top5, t.found_later, t.missing, t.unparsable), (5, 1, 1, 1, 1, 1));
    assert_eq!(t.rank_sum, 1 + 4 + 8);
    assert_eq!((t.corrected_then, t.corrected_now), (2, 1));
    assert_eq!(t.evaluated(), 4);
    assert_eq!(t.found(), 3);
}

#[test]
fn the_log_says_what_happened_then() {
    let mut t = Tally::default();
    t.note_logged(&logged(Some(0), 0, 300, true));
    t.note_logged(&logged(Some(2), 1, 900, false));
    t.note_logged(&logged(None, 2, 100, true));
    assert_eq!((t.then_top1, t.hit_pages, t.hit_ms), (1, 0, 300));
    assert_eq!((t.miss_pages, t.miss_ms), (3, 1000));
    assert_eq!((t.rescored_then, t.rescored_then_top1), (2, 1));
}

#[test]
fn events_are_counted_and_answered() {
    let mut r = Report::default();
    assert_eq!(r.note_event(&LogEvent::Retract), ReplayAction::Nothing);
    assert_eq!(r.note_event(&LogEvent::Break), ReplayAction::BreakChain);
    assert_eq!(r.note_event(&LogEvent::Passthrough("，。".to_owned())), ReplayAction::Passthrough);
    assert_eq!(r.note_event(&LogEvent::Prediction), ReplayAction::Nothing);
    let cloud = LogEvent::Commit { keys_empty: false, text_empty: false, source: InputSource::Cloud };
    assert_eq!(r.note_event(&cloud), ReplayAction::ReplayCommit);
    let empty = LogEvent::Commit { keys_empty: true, text_empty: true, source: InputSource::Raw };
    assert_eq!(r.note_event(&empty), ReplayAction::ClearAndBreak);
    assert_eq!((r.retracts, r.breaks, r.passthrough_chars), (1, 1, 2));
    assert_eq!((r.predictions, r.predictions_accepted, r.empty), (1, 1, 1));
    assert!(!r.prediction_pending);
}

#[test]
fn commits_of_other_sources_are_only_counted() {
    let mut r = Report::default();
    let plan = r.plan_commit(InputSource::Raw, false, &logged(None, 0, 0, false));
    assert_eq!(plan, CommitPlan::Skipped { replay_raw: true });
    let plan = r.plan_commit(InputSource::Cloud, false, &logged(None, 0, 0, false));
    assert_eq!(plan, CommitPlan::Skipped { replay_raw: false });
    r.plan_commit(InputSource::Raw, true, &logged(None, 0, 0, false));
    assert_eq!(r.skipped, [(InputSource::Raw, 2), (InputSource::Cloud, 1)]);
    let plan = r.plan_commit(InputSource::Emoji, false, &logged(Some(0), 0, 10, false));
    assert_eq!(plan, CommitPlan::Evaluate(TallyKind::Other));
    assert_eq!(r.other.then_top1, 1);
}

#[test]
fn a_replayed_query_is_ranked_and_its_miss_kept() {
    let mut r = Report::default();
    let items: Vec<String> = ["你", "拟好", "你好"].iter().map(|s| s.to_string()).collect();
    let position = r.record_query(TallyKind::Word, InputSource::Word, "nihao", "你好", &items, false, false, 5);
    assert_eq!(position, Some(2));
    assert_eq!((r.word.total, r.word.top5, r.word.rank_sum), (1, 1, 3));
    assert_eq!(
        r.misses,
        [format!("[词] {:<16} 选了 {:<8} 现在前三 你 / 拟好 / 你好（第 3 位）", "nihao", "你好")]
    );
    let hit = r.record_query(TallyKind::Sentence, InputSource::Sentence, "ni", "你", &items, false, false, 5);
    assert_eq!(hit, Some(0));
    assert_eq!(r.misses.len(), 1);
}

#[test]
fn labels_scopes_and_errors() {
    assert_eq!(source_label(InputSource::Word), "词");
    assert_eq!(source_label(InputSource::Sentence), "整句");
    assert_eq!(source_label(InputSource::English), "英文");
    assert_eq!(source_label(InputSource::Emoji), "其他");
    assert_eq!(replay_scope("", "nihao"), "nihao");
    assert_eq!(replay_scope("hao", "nihao"), "hao");
    let e = ReplayError::Read { path: "log.jsonl".to_owned(), message: "denied".to_owned() };
    assert_eq!(e.message(), "cannot read input log log.jsonl: denied");
}

#[test]
fn room_is_checked_before_counting() {
    let mut r = Report::default();
    assert!(has_room_for(&r, TallyKind::Word, 10));
    r.word.rank_sum = usize::MAX - 5;
    assert!(!has_room_for(&r, TallyKind::Word, 10));
    assert!(has_room_for(&r, TallyKind::Word, 5));
    r.english.total = usize::MAX;
    assert!(!has_room_for(&r, TallyKind::English, 0));
    r.note_unparsable_line();
    r.note_unparsable_line();
    assert_eq!(r.unparsable, 2);
}

#[test]
fn a_tallys_rank_sum_bounds_its_places() {
    let mut t = Tally::default();
    for position in [Some(0), Some(1), Some(4), Some(5), Some(9), None] {
        t.record_ranked(position, false, false);
        assert!(t.found() <= t.evaluated());
        assert!(t.top1 + 2 * t.top5 + 6 * t.found_later <= t.rank_sum);
    }
    assert_eq!(t.rank_sum, 1 + 2 + 5 + 6 + 10);
}
