use manbo::bundle::BundleInfo;
use manbo::candidate::{forget_message, Candidate, CandidateKind, FuriganaSegment, Sense, Translation};
use manbo::client::{context_ranges, marked_caret, selection_readable};
use manbo::cloud::{
    cloud_candidate, cloud_slots_untouched, cloud_test_not_started, cloud_test_outcome,
    cloud_test_started, describe_predict_error, key_present, prediction_use, PredictError,
    PredictionUse,
};
use manbo::diagnostics::{redact_secrets, Diagnostics};
use manbo::dictionaries::{
    dictionary_info, dictionary_line, toggle_membership, DictionaryMetadata, LoadedDictionary,
};
use manbo::env_file::env_file_content;
use manbo::paths::{bundled_dicts_dir, config_file, glossary_path, join_path, resource, HostError};
use manbo::row::{row_for_cell, Row, Tone};

#[test]
fn question_answers_fill_the_page_even_though_every_slot_is_cloud() {
    assert!(cloud_slots_untouched(0, 0, true, 9, 9));
    assert!(cloud_slots_untouched(0, 0, false, 9, 2));
    assert!(!cloud_slots_untouched(0, 7, false, 9, 2));
    assert!(!cloud_slots_untouched(1, 0, false, 9, 2));
}

#[test]
fn redaction_hides_key_values_only() {
    let text = "[predict]\napi_key = \"sk-secret\"\napi_key_env = \"MANBO_API_KEY\"\nmodel = \"x\"";
    let redacted = redact_secrets(text);
    assert!(!redacted.contains("sk-secret"));
    assert!(redacted.contains("api_key_env = \"MANBO_API_KEY\""));
    assert!(redacted.contains("model = \"x\""));
}

#[test]
fn redaction_keeps_every_other_line_as_it_is() {
    let text = "a = 1\n  api_key=\"k\"\nb = 2\n";
    assert_eq!(redact_secrets(text), "a = 1\napi_key = \"<已隐去>\"\nb = 2");
    assert_eq!(redact_secrets(""), "");
}

#[test]
fn describes_each_prediction_error() {
    assert_eq!(
        describe_predict_error(&PredictError::MissingApiKey("MANBO_API_KEY".to_owned())),
        "没有 API 密钥。在上面填一个，或设置环境变量 MANBO_API_KEY"
    );
    assert_eq!(
        describe_predict_error(&PredictError::Timeout(3000)),
        "3000 ms 内没有回复。检查网络或代理：输入法进程不读终端里的代理变量"
    );
    assert_eq!(
        describe_predict_error(&PredictError::EmptyReply),
        "接口通了但没有返回正文，检查模型名是否正确"
    );
    assert_eq!(
        describe_predict_error(&PredictError::Runtime("no threads".to_owned())),
        "起不了后台线程：no threads"
    );
    assert_eq!(describe_predict_error(&PredictError::Api("401".to_owned())), "请求失败：401");
}

#[test]
fn a_cloud_candidate_is_only_text() {
    let c = cloud_candidate("翻译中…".to_owned());
    assert_eq!(c.text, "翻译中…");
    assert_eq!(c.kind, CandidateKind::Cloud);
    assert!(c.syllables.is_empty() && c.reading.is_none() && c.translation.is_none());
}

#[test]
fn a_key_counts_only_when_it_is_not_blank() {
    assert!(key_present(Some("sk-1"), None));
    assert!(key_present(None, Some(" sk-2 ")));
    assert!(!key_present(Some("   "), Some("")));
    assert!(!key_present(None, None));
}

#[test]
fn forgetting_says_what_was_forgotten() {
    assert_eq!(forget_message("好", true, true), "已删除用户词「好」");
    assert_eq!(forget_message("好", false, true), "已忘掉对「好」的学习记录");
    assert_eq!(
        forget_message("好", false, false),
        "「好」是词库里的词，也没有学习记录，没什么可删"
    );
}

#[test]
fn resources_are_joined_and_checked() {
    assert_eq!(join_path("/app/Resources", "dicts"), "/app/Resources/dicts");
    assert_eq!(join_path("/app/Resources/", "dicts"), "/app/Resources/dicts");
    assert_eq!(join_path("/app", "/etc/x"), "/etc/x");
    assert_eq!(resource(None, "a.qj", true), Err(HostError::NoResources));
    assert_eq!(resource(Some("/r"), "a.qj", true), Ok("/r/a.qj".to_owned()));
    assert_eq!(
        resource(Some("/r"), "a.qj", false),
        Err(HostError::MissingResource("/r/a.qj".to_owned()))
    );
    assert_eq!(bundled_dicts_dir(Some("/r"), true).as_deref(), Some("/r/dicts"));
    assert_eq!(bundled_dicts_dir(Some("/r"), false), None);
    assert_eq!(config_file(Some("/home/Manbo")).as_deref(), Some("/home/Manbo/config.toml"));
    assert_eq!(config_file(None), None);
}

#[test]
fn the_packed_glossary_comes_first() {
    assert_eq!(glossary_path(Some("/r"), "en", true, true), Ok("/r/glossary-en.qj".to_owned()));
    assert_eq!(glossary_path(Some("/r"), "ja", false, true), Ok("/r/glossary-ja.tsv".to_owned()));
    assert_eq!(
        glossary_path(Some("/r"), "ja", false, false),
        Err(HostError::MissingResource("/r/glossary-ja.tsv".to_owned()))
    );
    assert_eq!(glossary_path(None, "en", true, true), Err(HostError::NoResources));
}

#[test]
fn bundle_values_fall_back_to_defaults() {
    let info = BundleInfo::from_values(None, None, None, None, "0.3.0");
    assert_eq!(info.identifier, "app.manbo.inputmethod");
    assert_eq!(info.connection_name, "app.manbo.inputmethod_Connection");
    assert_eq!(info.version, "0.3.0");
    assert_eq!(info.build, "本地构建");
    let given = BundleInfo::from_values(
        Some("x.y".to_owned()),
        Some("conn".to_owned()),
        Some("1.0".to_owned()),
        Some("abc 2026-09-01".to_owned()),
        "0.3.0",
    );
    assert_eq!(
        (given.identifier.as_str(), given.connection_name.as_str(), given.version.as_str(), given.build.as_str()),
        ("x.y", "conn", "1.0", "abc 2026-09-01")
    );
}

#[test]
fn context_is_read_around_the_marked_text() {
    let nf = isize::MAX as usize;
    assert_eq!(context_ranges(10, (nf, 0), (nf, 0), 3, 3), None);
    assert_eq!(context_ranges(0, (0, 0), (nf, 0), 3, 3), None);
    assert_eq!(context_ranges(10, (5, 0), (nf, 0), 3, 3), Some(((2, 3), (5, 3))));
    assert_eq!(context_ranges(10, (5, 0), (4, 2), 10, 10), Some(((0, 4), (6, 4))));
    assert!(selection_readable((3, 4), 200));
    assert!(!selection_readable((nf, 4), 200));
    assert!(!selection_readable((3, 0), 200));
    assert!(!selection_readable((3, 201), 200));
    assert_eq!(marked_caret("nihao", 3), 3);
    assert_eq!(marked_caret("nihao", 9), 5);
}

#[test]
fn the_env_file_assigns_each_variable_once() {
    assert_eq!(env_file_content("", "KEY", "v"), "KEY=v\n");
    assert_eq!(
        env_file_content("A=1\nKEY=old\nB=2\n", "KEY", "new"),
        "A=1\nB=2\nKEY=new\n"
    );
    let once = env_file_content("A=1\n", "KEY", "x");
    assert_eq!(env_file_content(&once, "KEY", "x"), once);
}

#[test]
fn dictionary_rows_and_lines() {
    let loaded = LoadedDictionary {
        entries: 1200,
        metadata: Some(DictionaryMetadata { name: "医学".to_owned(), license: "CC".to_owned() }),
    };
    let info = dictionary_info("med".to_owned(), "/d/med.qj".to_owned(), true, true, Some(loaded));
    assert_eq!((info.name.as_str(), info.entries, info.broken), ("医学", 1200, false));
    assert_eq!(dictionary_line(&info), "随包词库：医学 · 1200 条 · 启用");
    let broken = dictionary_info("bad".to_owned(), "/d/bad.qj".to_owned(), false, false, None);
    assert_eq!(dictionary_line(&broken), "导入词库：bad · 0 条 · 坏文件");
}

#[test]
fn toggling_membership_settles() {
    let list = vec!["a".to_owned(), "b".to_owned()];
    assert_eq!(toggle_membership(list.clone(), "c", true), Some(vec!["a".to_owned(), "b".to_owned(), "c".to_owned()]));
    assert_eq!(toggle_membership(list.clone(), "a", false), Some(vec!["b".to_owned()]));
    assert_eq!(toggle_membership(list.clone(), "a", true), None);
    assert_eq!(toggle_membership(list, "c", false), None);
}

fn glossed() -> Candidate {
    Candidate {
        text: "开发".to_owned(),
        kind: CandidateKind::Chinese,
        syllables: vec!["kai".to_owned(), "fa".to_owned()],
        reading: Some("kāi fā".to_owned()),
        translation: Some(Translation {
            senses: vec![Sense {
                part_of_speech: Some("v.".to_owned()),
                fresh: true,
                furigana: vec![
                    FuriganaSegment { text: "開発".to_owned(), reading: Some("かいはつ".to_owned()) },
                    FuriganaSegment { text: "する".to_owned(), reading: None },
                ],
            }],
        }),
    }
}

#[test]
fn a_row_shows_reading_then_senses() {
    let row = Row::from_candidate(0, &glossed(), None);
    assert_eq!(row.index, "1");
    assert_eq!(row.text, "开发");
    let pieces: Vec<(&str, Tone)> = row.annotation.iter().map(|(t, k)| (t.as_str(), *k)).collect();
    assert_eq!(
        pieces,
        [
            ("kāi fā", Tone::Gloss),
            (" · ", Tone::Faint),
            ("v. ", Tone::Faint),
            ("開発", Tone::Fresh),
            ("(かいはつ)", Tone::Faint),
            ("する", Tone::Fresh),
        ]
    );
    let mut custom = glossed();
    custom.kind = CandidateKind::Custom(3);
    assert_eq!(Row::from_candidate(8, &custom, Some("短…".to_owned())).text, "短…");
}

#[test]
fn diagnostics_list_every_fact_and_blank_the_key() {
    let d = Diagnostics {
        version: "0.3.0".to_owned(),
        build: "abc".to_owned(),
        os: "14.5".to_owned(),
        arch: "aarch64".to_owned(),
        main_entries: 100,
        dictionaries: vec![dictionary_info("med".to_owned(), "/d/med.qj".to_owned(), true, false, None)],
        languages: vec!["en".to_owned(), "ja".to_owned()],
        input_log_lines: Some(12),
        hanzi_total: 3000,
        days: 4,
        learning_language: "en".to_owned(),
        seen: 5,
        familiar: 6,
        committed: 7,
        prediction_enabled: false,
        config_error: None,
        log_dir: Some("/logs".to_owned()),
        config_path: Some("/c/config.toml".to_owned()),
        config_text: Some("api_key = \"s\"\nmodel = \"m\"".to_owned()),
    };
    assert_eq!(
        d.text(),
        "曼波 0.3.0 (abc)\nmacOS 14.5 · aarch64\n主词库：100 条\n随包词库：med · 0 条 · 坏文件\n\
         释义表：en ja\n输入日志：开，12 行\n输入统计：累计 3000 字 · 4 天\n\
         词汇（en）：见过 5 · 看熟 6 · 上屏过 7\n云联想：关\n日志目录：/logs\n\
         配置文件：/c/config.toml\n--- config.toml ---\napi_key = \"<已隐去>\"\nmodel = \"m\""
    );
}

#[test]
fn empty_cells_keep_their_index_and_cloud_words_are_marked() {
    let blank = row_for_cell(4, &None, None);
    assert_eq!(blank.index, "5");
    assert!(blank.text.is_empty() && blank.annotation.is_empty() && !blank.cloud);
    let cloud = row_for_cell(0, &Some(cloud_candidate("你好吗".to_owned())), None);
    assert_eq!((cloud.index.as_str(), cloud.text.as_str(), cloud.cloud), ("1", "你好吗", true));
    let local = row_for_cell(1, &Some(glossed()), None);
    assert!(!local.cloud);
}

#[test]
fn predictions_go_where_the_user_is() {
    assert_eq!(prediction_use(true, true, false, false, false), PredictionUse::ShowTranslation);
    assert_eq!(prediction_use(true, false, true, true, true), PredictionUse::EndTranslation);
    assert_eq!(prediction_use(false, true, false, true, true), PredictionUse::Ignore);
    assert_eq!(prediction_use(false, true, true, true, true), PredictionUse::FillCloud);
    assert_eq!(prediction_use(false, true, true, false, true), PredictionUse::SentenceOnly);
    assert_eq!(prediction_use(false, true, true, true, false), PredictionUse::SentenceOnly);
}

#[test]
fn connection_tests_report_in_the_status_line() {
    assert_eq!(cloud_test_started("https://api", "m1"), "正在测试云服务连接：https://api · m1 …");
    assert_eq!(cloud_test_not_started(&PredictError::EmptyReply), "云服务连接测试没能开始：接口通了但没有返回正文，检查模型名是否正确");
    assert_eq!(cloud_test_outcome(&Ok(("m1".to_owned(), 420))), "云服务连接正常：m1 在 420 ms 内回复");
    assert_eq!(cloud_test_outcome(&Err(PredictError::Api("401".to_owned()))), "云服务连接失败：请求失败：401");
}
