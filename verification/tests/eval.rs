use manbo::eval::{position_of, score_sentence, EvalError, Report, SentenceSet};
use manbo::extract::{extract, Extracted, MAX_SENTENCE_CHARS};
use manbo::pair::Pair;

#[test]
fn splits_paragraphs_into_han_clauses_with_context() {
    let text = "我今天想去上海，然后 call 一下老王。\n\n第二段太短了。\n";
    let got = extract(text);
    let texts: Vec<&str> = got.iter().map(|e| e.text.as_str()).collect();
    assert_eq!(texts, ["我今天想去上海", "一下老王", "第二段太短了"]);
    assert_eq!(got[0].context, "");
    assert_eq!(got[1].context, "我今天想去上海，然后 call ");
    assert_eq!(got[2].context, "");
}

#[test]
fn drops_clauses_out_of_range() {
    let long = "字".repeat(MAX_SENTENCE_CHARS + 1);
    let text = format!("好。可以。{long}。");
    let got = extract(&text);
    assert!(got.is_empty());
}

#[test]
fn parses_and_writes_the_same_line() {
    let pair = Pair::parse("我想学好\twoxiangxuehao\t今天，").unwrap();
    assert_eq!(pair.text, "我想学好");
    assert_eq!(pair.pinyin, "woxiangxuehao");
    assert_eq!(pair.context, "今天，");
    assert_eq!(pair.to_line(), "我想学好\twoxiangxuehao\t今天，");
    assert!(Pair::parse("只有一列").is_none());
}

#[test]
fn parse_trims_fields_and_allows_a_missing_context() {
    let pair = Pair::parse("  我想  \t woxiang \n").unwrap();
    assert_eq!(pair.text, "我想");
    assert_eq!(pair.pinyin, "woxiang");
    assert_eq!(pair.context, "");
    assert!(Pair::parse("\twoxiang\t").is_none());
    assert!(Pair::parse("我想\t  \t上文").is_none());
}

#[test]
fn a_written_line_reads_back_the_same_pair() {
    let pair = Pair {
        text: "一下老王".to_owned(),
        pinyin: "yixialaowang".to_owned(),
        context: "然后 call".to_owned(),
    };
    let back = Pair::parse(&pair.to_line()).unwrap();
    assert_eq!(back, pair);
}

fn items(texts: &[&str]) -> Vec<String> {
    texts.iter().map(|t| t.to_string()).collect()
}

#[test]
fn scores_position_sentence_candidate_and_characters() {
    let score = score_sentence(&items(&["我想", "我想写号", "我想学好"]), "我想学好");
    assert_eq!(score.position, Some(2));
    assert_eq!(score.sentence, Some(1));
    assert_eq!(score.chars_correct, 2);
    assert_eq!(score.length, 4);
    let none = score_sentence(&items(&["我", "想"]), "我想学好");
    assert_eq!(none.position, None);
    assert_eq!(none.sentence, None);
    assert_eq!(none.chars_correct, 0);
}

#[test]
fn position_is_the_first_equal_candidate() {
    assert_eq!(position_of(&items(&["a", "b", "a"]), "a"), Some(0));
    assert_eq!(position_of(&items(&["a", "b", "a"]), "b"), Some(1));
    assert_eq!(position_of(&items(&["a", "b"]), "c"), None);
}

#[test]
fn report_counts_hits_and_keeps_misses() {
    let mut report = Report::new();
    let pair = Pair {
        text: "我想学好".to_owned(),
        pinyin: "woxiangxuehao".to_owned(),
        context: String::new(),
    };
    report.record_candidates(&items(&["我想学好", "我想"]), &pair, 5);
    assert_eq!((report.total, report.top1, report.sentence_hit), (1, 1, 1));
    assert_eq!((report.chars_correct, report.chars_total), (4, 4));
    assert!(report.misses.is_empty());
    report.record_candidates(&items(&["我想写号", "我想学好", "我"]), &pair, 5);
    assert_eq!((report.total, report.top1, report.sentence_hit), (2, 1, 1));
    assert_eq!((report.chars_correct, report.chars_total), (6, 8));
    assert_eq!(
        report.misses,
        [format!(
            "{:<20} {:<28} 现在前三 我想写号 / 我想学好 / 我（第 2 位）",
            "我想学好", "woxiangxuehao"
        )]
    );
    report.record_candidates(&items(&["好"]), &pair, 1);
    assert_eq!(report.misses.len(), 1);
    report.record_unparsable();
    assert_eq!((report.total, report.unparsable, report.evaluated()), (4, 1, 3));
}

#[test]
fn a_miss_not_among_candidates_says_so() {
    let mut report = Report::new();
    let pair = Pair {
        text: "你好".to_owned(),
        pinyin: "nihao".to_owned(),
        context: String::new(),
    };
    report.record_candidates(&Vec::new(), &pair, 3);
    assert_eq!(
        report.misses,
        [format!("{:<20} {:<28} 现在前三 （不在候选里）", "你好", "nihao")]
    );
}

#[test]
fn the_sentence_set_keeps_each_sentence_once() {
    let mut set = SentenceSet::new();
    assert!(set.add_frozen_line("我想学好\twoxiangxuehao\t今天，"));
    assert!(!set.add_frozen_line("我想学好\twoxiang\t"));
    assert!(!set.add_frozen_line("只有一列"));
    assert!(set.first_time("一下老王"));
    assert!(!set.first_time("一下老王"));
    assert!(!set.first_time("我想学好"));
    let mut report = Report::new();
    set.add_extracted(
        &mut report,
        Extracted { text: "一下老王".to_owned(), context: "然后".to_owned() },
        Some("yixialaowang".to_owned()),
    );
    assert!(set.first_time("龘龘龘"));
    set.add_extracted(
        &mut report,
        Extracted { text: "龘龘龘".to_owned(), context: String::new() },
        None,
    );
    assert_eq!((report.extracted, report.untranscribable), (2, 1));
    assert_eq!(set.pairs.len(), 2);
    assert_eq!(
        set.save_text(),
        "我想学好\twoxiangxuehao\t今天，\n一下老王\tyixialaowang\t然后\n"
    );
}

#[test]
fn eval_errors_name_the_file() {
    let read = EvalError::Read { path: "a.txt".to_owned(), message: "gone".to_owned() };
    assert_eq!(read.message(), "cannot read evaluation text a.txt: gone");
    let write = EvalError::Write { path: "b.tsv".to_owned(), message: "full".to_owned() };
    assert_eq!(write.message(), "cannot write sentence set b.tsv: full");
}

#[test]
fn extracted_sentences_are_short_han_runs_with_short_context() {
    let long_context = "前文很长的一段话，".repeat(10);
    let text = format!("{long_context}这是要评的一句。abc 两个 三个字\n第二行也有一句话");
    for e in extract(&text) {
        let n = e.text.chars().count();
        assert!((3..=MAX_SENTENCE_CHARS).contains(&n), "{:?}", e.text);
        assert!(e.text.chars().all(|c| ('\u{4E00}'..='\u{9FFF}').contains(&c)));
        assert!(e.context.chars().count() <= 64);
    }
}

#[test]
fn a_saved_set_reloads_as_the_same_sentences_in_order() {
    let mut set = SentenceSet::new();
    set.add_frozen_text("我想学好\twoxiangxuehao\t今天，\r\n只有一列\n一下老王\tyixialaowang\t\n我想学好\tchongfu\t\n");
    assert_eq!(set.pairs.len(), 2);
    let saved = set.save_text();
    let mut again = SentenceSet::new();
    again.add_frozen_text(&saved);
    assert_eq!(again.pairs, set.pairs);
    assert_eq!(again.save_text(), saved);
}

#[test]
fn a_reloaded_context_is_trimmed() {
    let mut set = SentenceSet::new();
    let mut report = Report::new();
    assert!(set.first_time("一下老王"));
    set.add_extracted(
        &mut report,
        Extracted { text: "一下老王".to_owned(), context: "然后 call ".to_owned() },
        Some("yixialaowang".to_owned()),
    );
    let mut again = SentenceSet::new();
    again.add_frozen_text(&set.save_text());
    assert_eq!(again.pairs[0].text, "一下老王");
    assert_eq!(again.pairs[0].context, "然后 call");
}
