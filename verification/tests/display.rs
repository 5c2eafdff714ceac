use manbo::display::{prediction_lines, typing_prefixes, CloudWord};
use manbo::candidate::{Candidate, CandidateKind, FuriganaSegment, Sense, Translation};
use manbo::display::{candidate_lines, display_width, format_candidate};

fn word(text: &str, kind: CandidateKind) -> Candidate {
    Candidate { text: text.to_owned(), kind, syllables: Vec::new(), reading: None, translation: None }
}

#[test]
fn cjk_counts_double() {
    assert_eq!(display_width(""), 0);
    assert_eq!(display_width("abc"), 3);
    assert_eq!(display_width("你好a"), 5);
}

#[test]
fn a_candidate_line_pads_marks_and_trims() {
    assert_eq!(format_candidate(&word("你好", CandidateKind::Chinese), 6), "你好");
    assert_eq!(format_candidate(&word("hello", CandidateKind::English), 6), "hello   [en]");
    let mut glossed = word("开发", CandidateKind::Chinese);
    glossed.reading = Some("kāi fā".to_owned());
    glossed.translation = Some(Translation {
        senses: vec![
            Sense {
                part_of_speech: Some("v.".to_owned()),
                fresh: false,
                furigana: vec![
                    FuriganaSegment { text: "開発".to_owned(), reading: Some("かいはつ".to_owned()) },
                    FuriganaSegment { text: "する".to_owned(), reading: None },
                ],
            },
            Sense {
                part_of_speech: None,
                fresh: false,
                furigana: vec![FuriganaSegment { text: "develop".to_owned(), reading: None }],
            },
        ],
    });
    assert_eq!(format_candidate(&glossed, 4), "开发  kāi fā v. 開発(かいはつ)する · develop");
}

#[test]
fn the_listing_numbers_aligns_and_counts_the_rest() {
    let items = vec![
        word("你", CandidateKind::Chinese),
        word("你好", CandidateKind::Sentence),
        word("ni", CandidateKind::English),
    ];
    let (lines, width) = candidate_lines(&items, 2);
    assert_eq!(width, 4);
    assert_eq!(lines, ["   1. 你", "   2. 你好  [句]", "      … 还有 1 个"]);
    let (all, _) = candidate_lines(&items, 9);
    assert_eq!(all.len(), 3);
}

#[test]
fn typing_looks_up_every_prefix() {
    assert_eq!(typing_prefixes("kaifa"), ["k", "ka", "kai", "kaif", "kaifa"]);
    assert!(typing_prefixes("").is_empty());
}

#[test]
fn predictions_show_readings_or_syllables() {
    let words = vec![
        CloudWord { text: "你好".to_owned(), reading: None, syllables: vec!["ni".to_owned(), "hao".to_owned()] },
        CloudWord { text: "好".to_owned(), reading: Some("hǎo".to_owned()), syllables: Vec::new() },
    ];
    assert_eq!(
        prediction_lines(false, &words, Some("你好吗")),
        ["  ☁ 你好  (ni hao)", "  ☁ 好  (hǎo)", "  ☁ 整句: 你好吗"]
    );
    assert_eq!(prediction_lines(true, &Vec::new(), None), ["  ☁ （无联想）"]);
}
