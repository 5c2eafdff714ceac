//! The candidates the shells display, as plain values: what a row of the candidate window
//! and the cloud logic read of a core candidate.

use vstd::prelude::*;

use crate::text::push_str;

verus! {

/// Where a candidate comes from.
#[derive(Debug, Clone, Copy, PartialEq, Eq, Structural)]
pub enum CandidateKind {
    Chinese,
    English,
    Cloud,
    Shortcut,
    /// A custom phrase, pinned to a position on the page (1-based).
    Custom(usize),
    Sentence,
    Emoji,
}

/// One segment of a gloss annotated with readings: kanji followed by its kana reading.
#[derive(Debug, Clone, PartialEq, Eq)]
pub struct FuriganaSegment {
    pub text: String,
    pub reading: Option<String>,
}

/// One sense of a translation.
#[derive(Debug, Clone, PartialEq, Eq)]
pub struct Sense {
    /// Part of speech, shown faint before the gloss.
    pub part_of_speech: Option<String>,
    /// The user has not seen this gloss for many rounds yet.
    pub fresh: bool,
    /// The gloss, segment by segment, with readings where there are any.
    pub furigana: Vec<FuriganaSegment>,
}

/// The translation shown beside a candidate.
#[derive(Debug, Clone, PartialEq, Eq)]
pub struct Translation {
    pub senses: Vec<Sense>,
}

/// A candidate as the shells see it.
#[derive(Debug, Clone, PartialEq, Eq)]
pub struct Candidate {
    pub text: String,
    pub kind: CandidateKind,
    pub syllables: Vec<String>,
    /// A tone-marked reading (answers of the character-lookup mode).
    pub reading: Option<String>,
    pub translation: Option<Translation>,
}

/// What the user is told after asking to forget a candidate: a user word is deleted
/// whole; for a dictionary word only what was learnt of it is forgotten; a dictionary
/// word with nothing learnt has nothing to delete.
pub open spec fn forget_message_text(text: Seq<char>, user_word: bool, learning: bool) -> Seq<char> {
    if user_word {
        "已删除用户词「"@ + text + "」"@
    } else if learning {
        "已忘掉对「"@ + text + "」的学习记录"@
    } else {
        "「"@ + text + "」是词库里的词，也没有学习记录，没什么可删"@
    }
}

/// The sentence shown after forgetting a candidate, given what the engine forgot.
pub fn forget_message(text: &str, user_word: bool, learning: bool) -> (m: String)
    ensures
        m@ == forget_message_text(text@, user_word, learning),
{
    let mut m = String::new();
    if user_word {
        push_str(&mut m, "已删除用户词「");
        push_str(&mut m, text);
        push_str(&mut m, "」");
    } else if learning {
        push_str(&mut m, "已忘掉对「");
        push_str(&mut m, text);
        push_str(&mut m, "」的学习记录");
    } else {
        push_str(&mut m, "「");
        push_str(&mut m, text);
        push_str(&mut m, "」是词库里的词，也没有学习记录，没什么可删");
    }
    assert(m@ =~= forget_message_text(text@, user_word, learning));
    m
}

} // verus!
