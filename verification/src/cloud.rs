//! Cloud prediction: when cloud words may still fill the first page, what a failed
//! connection test tells the user, and the rows that show cloud text.

use vstd::prelude::*;

use crate::candidate::{Candidate, CandidateKind};
use crate::text::{chars_of, decimal, push_decimal, push_str, trim, trim_bounds};

verus! {

/// Whether cloud words that arrive now may still be put on the first page: the user is
/// still on page one and the highlight is not on one of the cells the cloud words take.
/// Without local candidates (character lookup) the whole page is cloud and always fills.
pub fn cloud_slots_untouched(
    page: usize,
    highlighted: usize,
    local_empty: bool,
    page_size: usize,
    capacity: usize,
) -> (b: bool)
    ensures
        b == (page == 0 && (local_empty || highlighted < if page_size >= capacity {
            page_size - capacity
        } else {
            0
        })),
{
    page == 0 && (local_empty || highlighted < page_size.saturating_sub(capacity))
}

/// Why a cloud request failed.
#[derive(Debug, Clone, PartialEq, Eq)]
pub enum PredictError {
    /// No API key; the value names the environment variable that was looked at.
    MissingApiKey(String),
    /// No reply within this many milliseconds.
    Timeout(u64),
    /// The service answered without a body.
    EmptyReply,
    /// The background thread could not be started (the system's message).
    Runtime(String),
    /// The request failed (the service's message).
    Api(String),
}

/// The user-facing text of a prediction error.
pub open spec fn predict_error_text(error: PredictError) -> Seq<char> {
    match error {
        PredictError::MissingApiKey(env) => "没有 API 密钥。在上面填一个，或设置环境变量 "@ + env@,
        PredictError::Timeout(ms) => decimal(ms as nat)
            + " ms 内没有回复。检查网络或代理：输入法进程不读终端里的代理变量"@,
        PredictError::EmptyReply => "接口通了但没有返回正文，检查模型名是否正确"@,
        PredictError::Runtime(e) => "起不了后台线程："@ + e@,
        PredictError::Api(e) => "请求失败："@ + e@,
    }
}

/// Describes a connection-test error in Chinese for the user, keeping the service's own
/// words so they can be looked up in its documentation.
pub fn describe_predict_error(error: &PredictError) -> (text: String)
    ensures
        text@ == predict_error_text(*error),
{
    let mut text = String::new();
    match error {
        PredictError::MissingApiKey(env) => {
            push_str(&mut text, "没有 API 密钥。在上面填一个，或设置环境变量 ");
            push_str(&mut text, env.as_str());
        },
        PredictError::Timeout(ms) => {
            push_decimal(&mut text, *ms);
            push_str(&mut text, " ms 内没有回复。检查网络或代理：输入法进程不读终端里的代理变量");
        },
        PredictError::EmptyReply => {
            push_str(&mut text, "接口通了但没有返回正文，检查模型名是否正确");
        },
        PredictError::Runtime(e) => {
            push_str(&mut text, "起不了后台线程：");
            push_str(&mut text, e.as_str());
        },
        PredictError::Api(e) => {
            push_str(&mut text, "请求失败：");
            push_str(&mut text, e.as_str());
        },
    }
    assert(text@ =~= predict_error_text(*error));
    text
}

/// A line of text shown in the candidate window as a cloud candidate (a translation, or a
/// placeholder while it is on its way).
pub fn cloud_candidate(text: String) -> (c: Candidate)
    ensures
        c.text@ == text@,
        c.kind == CandidateKind::Cloud,
        c.syllables@.len() == 0,
        c.reading is None,
        c.translation is None,
{
    Candidate {
        text,
        kind: CandidateKind::Cloud,
        syllables: Vec::new(),
        reading: None,
        translation: None,
    }
}

/// Whether a key is given: it holds something besides white space.
pub open spec fn nonblank(key: Option<Seq<char>>) -> bool {
    key matches Some(k) && trim(k).len() > 0
}

fn is_nonblank(key: Option<&str>) -> (b: bool)
    ensures
        b == nonblank(
            match key {
                Some(k) => Some(k@),
                None => None,
            },
        ),
{
    match key {
        Some(k) => {
            let cs = chars_of(k);
            let (a, b) = trim_bounds(&cs, 0, cs.len());
            assert(cs@.subrange(0, cs@.len() as int) =~= cs@);
            a < b
        },
        None => false,
    }
}

/// Whether an API key is at hand for the settings window: in the configuration, or in
/// the environment variable it names (`env_key` is that variable's value, if it is set).
pub fn key_present(config_key: Option<&str>, env_key: Option<&str>) -> (b: bool)
    ensures
        b == (nonblank(
            match config_key {
                Some(k) => Some(k@),
                None => None,
            },
        ) || nonblank(
            match env_key {
                Some(k) => Some(k@),
                None => None,
            },
        )),
{
    is_nonblank(config_key) || is_nonblank(env_key)
}

/// What a prediction that has arrived is used for.
#[derive(Debug, Clone, Copy, PartialEq, Eq, Structural)]
pub enum PredictionUse {
    /// A selection is being translated and the translation came: show it as the only
    /// candidate.
    ShowTranslation,
    /// A selection is being translated and no translation came: close the window.
    EndTranslation,
    /// Nothing is being composed any more: drop it.
    Ignore,
    /// Put the cloud words at the end of the first page and the sentence beside the
    /// preedit.
    FillCloud,
    /// Only hang the sentence beside the preedit: the cloud cells are taken or there are no
    /// words.
    SentenceOnly,
}

/// Decides what an arrived prediction is used for: a translation in progress takes it;
/// without a composition it is stale; the cloud words fill the first page only while the
/// user has not turned the page or moved onto the cells they take.
pub fn prediction_use(
    translating: bool,
    has_sentence: bool,
    composing: bool,
    slots_untouched: bool,
    has_words: bool,
) -> (u: PredictionUse)
    ensures
        u == if translating {
            if has_sentence {
                PredictionUse::ShowTranslation
            } else {
                PredictionUse::EndTranslation
            }
        } else if !composing {
            PredictionUse::Ignore
        } else if slots_untouched && has_words {
            PredictionUse::FillCloud
        } else {
            PredictionUse::SentenceOnly
        },
{
    if translating {
        if has_sentence {
            PredictionUse::ShowTranslation
        } else {
            PredictionUse::EndTranslation
        }
    } else if !composing {
        PredictionUse::Ignore
    } else if slots_untouched && has_words {
        PredictionUse::FillCloud
    } else {
        PredictionUse::SentenceOnly
    }
}

/// The status line while a connection test runs.
pub fn cloud_test_started(base_url: &str, model: &str) -> (m: String)
    ensures
        m@ == "正在测试云服务连接："@ + base_url@ + " · "@ + model@ + " …"@,
{
    let mut m = String::new();
    push_str(&mut m, "正在测试云服务连接：");
    push_str(&mut m, base_url);
    push_str(&mut m, " · ");
    push_str(&mut m, model);
    push_str(&mut m, " …");
    assert(m@ =~= "正在测试云服务连接："@ + base_url@ + " · "@ + model@ + " …"@);
    m
}

/// The status line when a connection test could not start.
pub fn cloud_test_not_started(error: &PredictError) -> (m: String)
    ensures
        m@ == "云服务连接测试没能开始："@ + predict_error_text(*error),
{
    let mut m = String::new();
    push_str(&mut m, "云服务连接测试没能开始：");
    let text = describe_predict_error(error);
    push_str(&mut m, text.as_str());
    m
}

/// The status line of a finished connection test: the model that answered and how fast,
/// or why it failed.
pub fn cloud_test_outcome(outcome: &Result<(String, u64), PredictError>) -> (m: String)
    ensures
        m@ == match *outcome {
            Ok((model, ms)) => "云服务连接正常："@ + model@ + " 在 "@ + decimal(ms as nat)
                + " ms 内回复"@,
            Err(e) => "云服务连接失败："@ + predict_error_text(e),
        },
{
    let mut m = String::new();
    match outcome {
        Ok((model, ms)) => {
            push_str(&mut m, "云服务连接正常：");
            push_str(&mut m, model.as_str());
            push_str(&mut m, " 在 ");
            push_decimal(&mut m, *ms);
            push_str(&mut m, " ms 内回复");
        },
        Err(e) => {
            push_str(&mut m, "云服务连接失败：");
            let text = describe_predict_error(e);
            push_str(&mut m, text.as_str());
        },
    }
    m
}

/// The status line when a connection test gave no answer in time.
pub const CLOUD_TEST_TIMED_OUT: &'static str = "云服务连接测试：等了 30 秒没有结果，请检查网络或代理";

} // verus!
