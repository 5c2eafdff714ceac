//! Replay evaluation: the keys of every logged commit are fed to the engine again, and
//! these counters record whether today's ranking would put the word the user chose first.
//! The engine work is the shell's; what is counted, and how, is decided here.

use vstd::prelude::*;

use crate::eval::{position_in, position_of, push_rank_note, rank_note, top_three};
use crate::text::{padded, push_joined, push_padded, push_str, texts};

verus! {

/// Errors of the replay.
#[derive(Debug, Clone, PartialEq, Eq)]
pub enum ReplayError {
    /// The input log could not be read: its path and the system's message.
    Read { path: String, message: String },
}

/// The text of a replay error.
pub open spec fn replay_error_text(e: ReplayError) -> Seq<char> {
    match e {
        ReplayError::Read { path, message } => "cannot read input log "@ + path@ + ": "@
            + message@,
    }
}

impl ReplayError {
    /// The error as the user reads it.
    pub fn message(&self) -> (m: String)
        ensures
            m@ == replay_error_text(*self),
    {
        let mut m = String::new();
        match self {
            ReplayError::Read { path, message } => {
                push_str(&mut m, "cannot read input log ");
                push_str(&mut m, path.as_str());
                push_str(&mut m, ": ");
                push_str(&mut m, message.as_str());
            },
        }
        assert(m@ =~= replay_error_text(*self));
        m
    }
}

/// Where a committed text came from.
#[derive(Debug, Clone, Copy, PartialEq, Eq, Structural)]
pub enum InputSource {
    Word,
    Sentence,
    English,
    Shortcut,
    Emoji,
    Custom,
    Cloud,
    CloudSentence,
    Raw,
    Translation,
}

/// What a logged commit recorded about the moment it happened.
#[derive(Debug, Clone, Copy, PartialEq, Eq)]
pub struct LoggedCommit {
    /// The position of the chosen candidate then, if it was a candidate.
    pub index: Option<usize>,
    /// Pages turned before choosing.
    pub pages: u32,
    /// Milliseconds from the first key to the commit.
    pub ms: u64,
    /// The sentence model had reranked the candidates.
    pub rescored: bool,
}

/// The counts for one kind of source.
#[derive(Debug, Default, Clone, Copy, PartialEq, Eq)]
pub struct Tally {
    /// Commits of this kind in the log.
    pub total: usize,
    /// Today's first candidate is the one chosen then.
    pub top1: usize,
    /// At positions 2 to 5.
    pub top5: usize,
    /// After position 5.
    pub found_later: usize,
    /// Not among today's candidates at all.
    pub missing: usize,
    /// The keys no longer parse (scheme or mode keys changed).
    pub unparsable: usize,
    /// Sum of the (1-based) positions where found.
    pub rank_sum: usize,
    /// Spelling correction was in effect then.
    pub corrected_then: usize,
    /// Of those, still corrected today.
    pub corrected_now: usize,
    /// The first candidate was chosen then (`index == 0` in the log).
    pub then_top1: usize,
    /// For those: pages turned and milliseconds spent, summed.
    pub hit_pages: usize,
    pub hit_ms: u64,
    /// For the others: pages turned and milliseconds spent, summed.
    pub miss_pages: usize,
    pub miss_ms: u64,
    /// Reranked by the sentence model then, and of those chosen first.
    pub rescored_then: usize,
    pub rescored_then_top1: usize,
}

/// A tally's counts agree: every replayed commit is counted once, in exactly one outcome;
/// the rank sum is at least what the found commits' places give at the least (first place
/// counts 1, places two to five at least 2, later places at least 6).
pub open spec fn consistent(t: Tally) -> bool {
    &&& t.total == t.top1 + t.top5 + t.found_later + t.missing + t.unparsable
    &&& t.corrected_now <= t.corrected_then
    &&& t.rescored_then_top1 <= t.rescored_then
    &&& t.top1 + 2 * t.top5 + 6 * t.found_later <= t.rank_sum
}

/// The tally before any commit was counted.
pub open spec fn zero_tally() -> Tally {
    Tally {
        total: 0,
        top1: 0,
        top5: 0,
        found_later: 0,
        missing: 0,
        unparsable: 0,
        rank_sum: 0,
        corrected_then: 0,
        corrected_now: 0,
        then_top1: 0,
        hit_pages: 0,
        hit_ms: 0,
        miss_pages: 0,
        miss_ms: 0,
        rescored_then: 0,
        rescored_then_top1: 0,
    }
}

/// Room to count one more replayed commit.
pub open spec fn has_room(t: Tally) -> bool {
    &&& t.total < usize::MAX
    &&& t.top1 < usize::MAX
    &&& t.top5 < usize::MAX
    &&& t.found_later < usize::MAX
    &&& t.missing < usize::MAX
    &&& t.unparsable < usize::MAX
    &&& t.corrected_then < usize::MAX
    &&& t.corrected_now < usize::MAX
}

/// The tally after one commit was replayed and found at `position` (or not found), with
/// whether correction was in effect then and is now.
pub open spec fn ranked(t: Tally, position: Option<usize>, corrected_then: bool, corrected_now: bool) -> Tally {
    let t1 = match position {
        Some(i) if i == 0 => Tally { top1: (t.top1 + 1) as usize, ..t },
        Some(i) if i < 5 => Tally { top5: (t.top5 + 1) as usize, ..t },
        Some(_) => Tally { found_later: (t.found_later + 1) as usize, ..t },
        None => Tally { missing: (t.missing + 1) as usize, ..t },
    };
    let t2 = match position {
        Some(i) => Tally { rank_sum: (t.rank_sum + i + 1) as usize, ..t1 },
        None => t1,
    };
    let t3 = if corrected_then {
        Tally {
            corrected_then: (t.corrected_then + 1) as usize,
            corrected_now: if corrected_now {
                (t.corrected_now + 1) as usize
            } else {
                t.corrected_now
            },
            ..t2
        }
    } else {
        t2
    };
    Tally { total: (t.total + 1) as usize, ..t3 }
}

/// The tally after noting what the log says about a commit then: whether it was chosen
/// first, the pages turned and the time taken, and whether the model had reranked.
pub open spec fn noted(t: Tally, commit: LoggedCommit) -> Tally {
    let hit = commit.index == Some(0usize);
    let t1 = if hit {
        Tally {
            then_top1: (t.then_top1 + 1) as usize,
            hit_pages: (t.hit_pages + commit.pages) as usize,
            hit_ms: (t.hit_ms + commit.ms) as u64,
            ..t
        }
    } else {
        Tally {
            miss_pages: (t.miss_pages + commit.pages) as usize,
            miss_ms: (t.miss_ms + commit.ms) as u64,
            ..t
        }
    };
    if commit.rescored {
        Tally {
            rescored_then: (t.rescored_then + 1) as usize,
            rescored_then_top1: if hit {
                (t.rescored_then_top1 + 1) as usize
            } else {
                t.rescored_then_top1
            },
            ..t1
        }
    } else {
        t1
    }
}

impl Tally {
    /// Commits that can be evaluated today: found or not found, without those whose keys
    /// no longer parse.
    pub fn evaluated(&self) -> (n: usize)
        requires
            self.unparsable <= self.total,
        ensures
            n == self.total - self.unparsable,
    {
        self.total - self.unparsable
    }

    /// Commits found among today's candidates.
    pub fn found(&self) -> (n: usize)
        requires
            self.top1 + self.top5 + self.found_later <= usize::MAX,
        ensures
            n == self.top1 + self.top5 + self.found_later,
    {
        self.top1 + self.top5 + self.found_later
    }

    /// Notes what the log says about the commit then (first or not, pages, time, rerank),
    /// before it is replayed.
    pub fn note_logged(&mut self, commit: &LoggedCommit)
        requires
            old(self).then_top1 < usize::MAX,
            old(self).hit_pages + commit.pages <= usize::MAX,
            old(self).miss_pages + commit.pages <= usize::MAX,
            old(self).hit_ms + commit.ms <= u64::MAX,
            old(self).miss_ms + commit.ms <= u64::MAX,
            old(self).rescored_then < usize::MAX,
            old(self).rescored_then_top1 < usize::MAX,
        ensures
            *final(self) == noted(*old(self), *commit),
    {
        let hit = match commit.index {
            Some(i) => i == 0,
            None => false,
        };
        if hit {
            self.then_top1 = self.then_top1 + 1;
            self.hit_pages = self.hit_pages + commit.pages as usize;
            self.hit_ms = self.hit_ms + commit.ms;
        } else {
            self.miss_pages = self.miss_pages + commit.pages as usize;
            self.miss_ms = self.miss_ms + commit.ms;
        }
        if commit.rescored {
            self.rescored_then = self.rescored_then + 1;
            if hit {
                self.rescored_then_top1 = self.rescored_then_top1 + 1;
            }
        }
    }

    /// Counts a replayed commit whose keys no longer parse.
    pub fn record_unparsable(&mut self)
        requires
            old(self).total < usize::MAX,
            old(self).unparsable < usize::MAX,
        ensures
            *final(self) == (Tally {
                total: (old(self).total + 1) as usize,
                unparsable: (old(self).unparsable + 1) as usize,
                ..*old(self)
            }),
    {
        self.total = self.total + 1;
        self.unparsable = self.unparsable + 1;
    }

    /// Counts a replayed commit: where today's candidates put the chosen text (first,
    /// second to fifth, later, or nowhere), the position into the rank sum, and whether
    /// the correction that was in effect then still is.
    pub fn record_ranked(&mut self, position: Option<usize>, corrected_then: bool, corrected_now: bool)
        requires
            has_room(*old(self)),
            position matches Some(i) ==> old(self).rank_sum + i + 1 <= usize::MAX,
        ensures
            *final(self) == ranked(*old(self), position, corrected_then, corrected_now),
    {
        self.total = self.total + 1;
        match position {
            Some(i) => {
                if i == 0 {
                    self.top1 = self.top1 + 1;
                } else if i < 5 {
                    self.top5 = self.top5 + 1;
                } else {
                    self.found_later = self.found_later + 1;
                }
                self.rank_sum = self.rank_sum + i + 1;
            },
            None => {
                self.missing = self.missing + 1;
            },
        }
        if corrected_then {
            self.corrected_then = self.corrected_then + 1;
            if corrected_now {
                self.corrected_now = self.corrected_now + 1;
            }
        }
    }
}

/// The replay report: counts per kind of source, and the other events of the log.
#[derive(Debug, Default)]
pub struct Report {
    /// Dictionary words.
    pub word: Tally,
    /// Local sentences.
    pub sentence: Tally,
    /// English candidates.
    pub english: Tally,
    /// Shortcuts and emoji.
    pub other: Tally,
    /// Sources that are not evaluated (custom phrases, cloud words and sentences, raw
    /// input, translations), with their counts.
    pub skipped: Vec<(InputSource, usize)>,
    /// Retractions.
    pub retracts: usize,
    /// Retypes (backspace and type again, during or after composition).
    pub retypes: usize,
    /// Session lines, context breaks, characters passed through.
    pub sessions: usize,
    pub breaks: usize,
    pub passthrough_chars: usize,
    /// Cloud predictions shown, and of those accepted right away.
    pub predictions: usize,
    pub predictions_accepted: usize,
    /// The previous line was a prediction and its commit has not come yet.
    pub prediction_pending: bool,
    /// Empty raw commits of the old log format (not counted).
    pub empty: usize,
    /// Lines that could not be read.
    pub unparsable: usize,
    /// Examples where the chosen word was not first.
    pub misses: Vec<String>,
}

/// The tallies of a report.
#[derive(Debug, Clone, Copy, PartialEq, Eq, Structural)]
pub enum TallyKind {
    Word,
    Sentence,
    English,
    Other,
}

/// Which tally counts a source; `None` for sources that are not evaluated.
pub open spec fn tally_kind_of(source: InputSource) -> Option<TallyKind> {
    match source {
        InputSource::Word => Some(TallyKind::Word),
        InputSource::Sentence => Some(TallyKind::Sentence),
        InputSource::English => Some(TallyKind::English),
        InputSource::Shortcut | InputSource::Emoji => Some(TallyKind::Other),
        _ => None,
    }
}

/// Each source is counted in the tally of its own kind: dictionary words in `word`,
/// whole sentences in `sentence`, English words in `english`, shortcuts and emoji in
/// `other`; custom phrases, cloud words and sentences, raw text and translations are not
/// evaluated. The tally of a kind is the report's field of that name.
pub proof fn lemma_source_tallies(r: Report)
    ensures
        tally_kind_of(InputSource::Word) == Some(TallyKind::Word),
        tally_kind_of(InputSource::Sentence) == Some(TallyKind::Sentence),
        tally_kind_of(InputSource::English) == Some(TallyKind::English),
        tally_kind_of(InputSource::Shortcut) == Some(TallyKind::Other),
        tally_kind_of(InputSource::Emoji) == Some(TallyKind::Other),
        tally_kind_of(InputSource::Custom) == None::<TallyKind>,
        tally_kind_of(InputSource::Cloud) == None::<TallyKind>,
        tally_kind_of(InputSource::CloudSentence) == None::<TallyKind>,
        tally_kind_of(InputSource::Raw) == None::<TallyKind>,
        tally_kind_of(InputSource::Translation) == None::<TallyKind>,
        tally_of(r, TallyKind::Word) == r.word,
        tally_of(r, TallyKind::Sentence) == r.sentence,
        tally_of(r, TallyKind::English) == r.english,
        tally_of(r, TallyKind::Other) == r.other,
{
}

/// The tally of a kind.
pub open spec fn tally_of(r: Report, kind: TallyKind) -> Tally {
    match kind {
        TallyKind::Word => r.word,
        TallyKind::Sentence => r.sentence,
        TallyKind::English => r.english,
        TallyKind::Other => r.other,
    }
}

/// The report with the tally of `kind` replaced.
pub open spec fn with_tally(r: Report, kind: TallyKind, t: Tally) -> Report {
    match kind {
        TallyKind::Word => Report { word: t, ..r },
        TallyKind::Sentence => Report { sentence: t, ..r },
        TallyKind::English => Report { english: t, ..r },
        TallyKind::Other => Report { other: t, ..r },
    }
}

/// The first position of `source` among the skipped counts, or their number.
pub open spec fn skipped_position(s: Seq<(InputSource, usize)>, source: InputSource) -> int
    decreases s.len(),
{
    if s.len() == 0 {
        0
    } else if s[0].0 == source {
        0
    } else {
        1 + skipped_position(s.drop_first(), source)
    }
}

/// The skipped counts after one more commit of `source`: its count goes up by one, or it
/// is added at the end with a count of one.
pub open spec fn skipped_after(s: Seq<(InputSource, usize)>, source: InputSource) -> Seq<(InputSource, usize)> {
    let i = skipped_position(s, source);
    if i < s.len() {
        s.update(i, (source, (s[i].1 + 1) as usize))
    } else {
        s.push((source, 1usize))
    }
}

proof fn lemma_skipped_position(s: Seq<(InputSource, usize)>, source: InputSource)
    ensures
        0 <= skipped_position(s, source) <= s.len(),
        skipped_position(s, source) < s.len() ==> s[skipped_position(s, source)].0 == source,
        forall|j: int| 0 <= j < skipped_position(s, source) ==> s[j].0 != source,
    decreases s.len(),
{
    if s.len() > 0 && s[0].0 != source {
        lemma_skipped_position(s.drop_first(), source);
        let p = skipped_position(s.drop_first(), source);
        assert forall|j: int| 0 <= j < skipped_position(s, source) implies s[j].0 != source by {
            if j > 0 {
                assert(s[j] == s.drop_first()[j - 1]);
            }
        }
    }
}

/// What to do with one line of the input log.
#[derive(Debug, Clone, PartialEq, Eq)]
pub enum LogEvent {
    Retract,
    Retype,
    Session,
    /// The context chain was broken.
    Break,
    /// Characters typed straight through.
    Passthrough(String),
    /// A cloud prediction was shown.
    Prediction,
    /// A commit: whether its keys and text are empty, and its source.
    Commit { keys_empty: bool, text_empty: bool, source: InputSource },
}

/// What the replay does with the engine for a log line.
#[derive(Debug, Clone, Copy, PartialEq, Eq, Structural)]
pub enum ReplayAction {
    /// Nothing.
    Nothing,
    /// Break the context chain.
    BreakChain,
    /// Feed the passed-through characters to the engine.
    Passthrough,
    /// Clear the composition and break the chain (an empty old-format commit).
    ClearAndBreak,
    /// Replay the commit.
    ReplayCommit,
}

/// What happens to a commit that is replayed.
#[derive(Debug, Clone, Copy, PartialEq, Eq, Structural)]
pub enum CommitPlan {
    /// Its source is not evaluated: it was counted as skipped; a raw commit with keys is
    /// still typed and taken raw, so that what the user teaches that way is learnt.
    Skipped { replay_raw: bool },
    /// Query its keys and count the outcome in this tally.
    Evaluate(TallyKind),
}

impl Report {
    /// Counts a source that is not evaluated.
    pub fn skip(&mut self, source: InputSource)
        requires
            ({
                let i = skipped_position(old(self).skipped@, source);
                i < old(self).skipped@.len() ==> old(self).skipped@[i].1 < usize::MAX
            }),
        ensures
            final(self).skipped@ == skipped_after(old(self).skipped@, source),
            *final(self) == (Report { skipped: final(self).skipped, ..*old(self) }),
    {
        proof {
            lemma_skipped_position(self.skipped@, source);
        }
        let ghost s = self.skipped@;
        let mut i: usize = 0;
        while i < self.skipped.len()
            invariant
                s == self.skipped@,
                *self == *old(self),
                s == old(self).skipped@,
                skipped_position(s, source) < s.len() ==> s[skipped_position(s, source)].1
                    < usize::MAX,
                i <= s.len(),
                i <= skipped_position(s, source),
                0 <= skipped_position(s, source) <= s.len(),
                skipped_position(s, source) < s.len() ==> s[skipped_position(s, source)].0 == source,
                forall|j: int| 0 <= j < skipped_position(s, source) ==> s[j].0 != source,
            decreases s.len() - i,
        {
            if self.skipped[i].0 == source {
                assert(i == skipped_position(s, source));
                let count = self.skipped[i].1;
                self.skipped.set(i, (source, count + 1));
                return;
            }
            i = i + 1;
        }
        self.skipped.push((source, 1));
    }

    /// Counts one log line and says what the engine should do with it. A commit with
    /// neither keys nor text (old log format) only clears; any other commit ends a pending
    /// prediction, which counts as accepted when the commit came from the cloud.
    pub fn note_event(&mut self, event: &LogEvent) -> (action: ReplayAction)
        requires
            old(self).retracts < usize::MAX,
            old(self).retypes < usize::MAX,
            old(self).sessions < usize::MAX,
            old(self).breaks < usize::MAX,
            old(self).predictions < usize::MAX,
            old(self).predictions_accepted < usize::MAX,
            old(self).empty < usize::MAX,
            event matches LogEvent::Passthrough(t) ==> old(self).passthrough_chars + t@.len()
                <= usize::MAX,
        ensures
            ({
                let r = *old(self);
                match *event {
                    LogEvent::Retract => action == ReplayAction::Nothing && *final(self) == (
                    Report { retracts: (r.retracts + 1) as usize, ..r }),
                    LogEvent::Retype => action == ReplayAction::Nothing && *final(self) == (
                    Report { retypes: (r.retypes + 1) as usize, ..r }),
                    LogEvent::Session => action == ReplayAction::Nothing && *final(self) == (
                    Report { sessions: (r.sessions + 1) as usize, ..r }),
                    LogEvent::Break => action == ReplayAction::BreakChain && *final(self) == (
                    Report { breaks: (r.breaks + 1) as usize, ..r }),
                    LogEvent::Passthrough(t) => action == ReplayAction::Passthrough
                        && *final(self) == (Report {
                        passthrough_chars: (r.passthrough_chars + t@.len()) as usize,
                        ..r
                    }),
                    LogEvent::Prediction => action == ReplayAction::Nothing && *final(self) == (
                    Report {
                        predictions: (r.predictions + 1) as usize,
                        prediction_pending: true,
                        ..r
                    }),
                    LogEvent::Commit { keys_empty, text_empty, source } => if keys_empty
                        && text_empty {
                        action == ReplayAction::ClearAndBreak && *final(self) == (Report {
                            empty: (r.empty + 1) as usize,
                            ..r
                        })
                    } else {
                        action == ReplayAction::ReplayCommit && *final(self) == (Report {
                            prediction_pending: false,
                            predictions_accepted: if r.prediction_pending && (source
                                == InputSource::Cloud || source == InputSource::CloudSentence) {
                                (r.predictions_accepted + 1) as usize
                            } else {
                                r.predictions_accepted
                            },
                            ..r
                        })
                    },
                }
            }),
    {
        match event {
            LogEvent::Retract => {
                self.retracts = self.retracts + 1;
                ReplayAction::Nothing
            },
            LogEvent::Retype => {
                self.retypes = self.retypes + 1;
                ReplayAction::Nothing
            },
            LogEvent::Session => {
                self.sessions = self.sessions + 1;
                ReplayAction::Nothing
            },
            LogEvent::Break => {
                self.breaks = self.breaks + 1;
                ReplayAction::BreakChain
            },
            LogEvent::Passthrough(text) => {
                let n = crate::text::chars_of(text.as_str()).len();
                self.passthrough_chars = self.passthrough_chars + n;
                ReplayAction::Passthrough
            },
            LogEvent::Prediction => {
                self.predictions = self.predictions + 1;
                self.prediction_pending = true;
                ReplayAction::Nothing
            },
            LogEvent::Commit { keys_empty, text_empty, source } => {
                if *keys_empty && *text_empty {
                    self.empty = self.empty + 1;
                    return ReplayAction::ClearAndBreak;
                }
                let pending = self.prediction_pending;
                self.prediction_pending = false;
                if pending && (*source == InputSource::Cloud || *source
                    == InputSource::CloudSentence) {
                    self.predictions_accepted = self.predictions_accepted + 1;
                }
                ReplayAction::ReplayCommit
            },
        }
    }

    /// Decides what happens to a commit before it is replayed: a source that is not
    /// evaluated is counted as skipped; otherwise the tally of its kind notes what the log
    /// says about it.
    pub fn plan_commit(&mut self, source: InputSource, keys_empty: bool, logged: &LoggedCommit) -> (plan: CommitPlan)
        requires
            ({
                let i = skipped_position(old(self).skipped@, source);
                i < old(self).skipped@.len() ==> old(self).skipped@[i].1 < usize::MAX
            }),
            tally_kind_of(source) matches Some(k) ==> ({
                let t = tally_of(*old(self), k);
                &&& t.then_top1 < usize::MAX
                &&& t.hit_pages + logged.pages <= usize::MAX
                &&& t.miss_pages + logged.pages <= usize::MAX
                &&& t.hit_ms + logged.ms <= u64::MAX
                &&& t.miss_ms + logged.ms <= u64::MAX
                &&& t.rescored_then < usize::MAX
                &&& t.rescored_then_top1 < usize::MAX
            }),
        ensures
            match tally_kind_of(source) {
                None => plan == (CommitPlan::Skipped {
                    replay_raw: source == InputSource::Raw && !keys_empty,
                }) && *final(self) == (Report {
                    skipped: final(self).skipped,
                    ..*old(self)
                }) && final(self).skipped@ == skipped_after(old(self).skipped@, source),
                Some(k) => plan == CommitPlan::Evaluate(k) && *final(self) == with_tally(
                    *old(self),
                    k,
                    noted(tally_of(*old(self), k), *logged),
                ),
            },
    {
        let kind = match source {
            InputSource::Word => Some(TallyKind::Word),
            InputSource::Sentence => Some(TallyKind::Sentence),
            InputSource::English => Some(TallyKind::English),
            InputSource::Shortcut | InputSource::Emoji => Some(TallyKind::Other),
            _ => None,
        };
        match kind {
            None => {
                self.skip(source);
                proof {
                    lemma_skipped_position(old(self).skipped@, source);
                }
                CommitPlan::Skipped { replay_raw: source == InputSource::Raw && !keys_empty }
            },
            Some(k) => {
                match k {
                    TallyKind::Word => self.word.note_logged(logged),
                    TallyKind::Sentence => self.sentence.note_logged(logged),
                    TallyKind::English => self.english.note_logged(logged),
                    TallyKind::Other => self.other.note_logged(logged),
                }
                CommitPlan::Evaluate(k)
            },
        }
    }

    /// Counts a replayed commit of a kind whose keys no longer parse.
    pub fn record_unparsable(&mut self, kind: TallyKind)
        requires
            tally_of(*old(self), kind).total < usize::MAX,
            tally_of(*old(self), kind).unparsable < usize::MAX,
        ensures
            *final(self) == with_tally(
                *old(self),
                kind,
                ({
                    let t = tally_of(*old(self), kind);
                    Tally { total: (t.total + 1) as usize, unparsable: (t.unparsable + 1) as usize, ..t }
                }),
            ),
    {
        match kind {
            TallyKind::Word => self.word.record_unparsable(),
            TallyKind::Sentence => self.sentence.record_unparsable(),
            TallyKind::English => self.english.record_unparsable(),
            TallyKind::Other => self.other.record_unparsable(),
        }
    }

    /// Counts a replayed commit of a kind: see [`Tally::record_ranked`].
    pub fn record_ranked(
        &mut self,
        kind: TallyKind,
        position: Option<usize>,
        corrected_then: bool,
        corrected_now: bool,
    )
        requires
            has_room(tally_of(*old(self), kind)),
            position matches Some(i) ==> tally_of(*old(self), kind).rank_sum + i + 1 <= usize::MAX,
        ensures
            *final(self) == with_tally(
                *old(self),
                kind,
                ranked(tally_of(*old(self), kind), position, corrected_then, corrected_now),
            ),
    {
        match kind {
            TallyKind::Word => self.word.record_ranked(position, corrected_then, corrected_now),
            TallyKind::Sentence => self.sentence.record_ranked(position, corrected_then, corrected_now),
            TallyKind::English => self.english.record_ranked(position, corrected_then, corrected_now),
            TallyKind::Other => self.other.record_ranked(position, corrected_then, corrected_now),
        }
    }
}

/// Whether a commit of `kind` with `count` candidates can still be counted without a
/// counter overflowing: the test for [`Report::record_query`].
pub fn has_room_for(r: &Report, kind: TallyKind, count: usize) -> (b: bool)
    ensures
        b == (has_room(tally_of(*r, kind)) && tally_of(*r, kind).rank_sum + count <= usize::MAX),
{
    let t = match kind {
        TallyKind::Word => &r.word,
        TallyKind::Sentence => &r.sentence,
        TallyKind::English => &r.english,
        TallyKind::Other => &r.other,
    };
    t.total < usize::MAX && t.top1 < usize::MAX && t.top5 < usize::MAX && t.found_later
        < usize::MAX && t.missing < usize::MAX && t.unparsable < usize::MAX && t.corrected_then
        < usize::MAX && t.corrected_now < usize::MAX && count <= usize::MAX - t.rank_sum
}

/// The short name of a source in the examples that missed, the same as its tally's.
pub open spec fn source_label_spec(source: InputSource) -> Seq<char> {
    match source {
        InputSource::Word => "词"@,
        InputSource::Sentence => "整句"@,
        InputSource::English => "英文"@,
        _ => "其他"@,
    }
}

/// The short name of a source in the examples that missed.
pub fn source_label(source: InputSource) -> (label: &'static str)
    ensures
        label@ == source_label_spec(source),
{
    match source {
        InputSource::Word => "词",
        InputSource::Sentence => "整句",
        InputSource::English => "英文",
        _ => "其他",
    }
}

/// The keys a commit is replayed with: its scope, or all its keys when the log has none.
pub fn replay_scope<'a>(scope: &'a str, keys: &'a str) -> (r: &'a str)
    ensures
        r@ == if scope@.len() == 0 {
            keys@
        } else {
            scope@
        },
{
    if scope.is_empty() {
        keys
    } else {
        scope
    }
}

/// A line of the examples that missed: source, keys, the word chosen then, today's top
/// three, and where the word stands today.
pub open spec fn replay_miss_line(
    source: InputSource,
    scope: Seq<char>,
    text: Seq<char>,
    items: Seq<Seq<char>>,
) -> Seq<char> {
    "["@ + source_label_spec(source) + "] "@ + padded(scope, 16) + " 选了 "@ + padded(text, 8)
        + " 现在前三 "@ + top_three(items) + rank_note(position_in(items, text))
}

impl Report {
    /// Counts a line of the log that could not be read.
    pub fn note_unparsable_line(&mut self)
        requires
            old(self).unparsable < usize::MAX,
        ensures
            *final(self) == (Report { unparsable: (old(self).unparsable + 1) as usize, ..*old(self) }),
    {
        self.unparsable = self.unparsable + 1;
    }

    /// Counts a replayed commit against the candidates its keys give today, and keeps the
    /// miss as an example while there are fewer than `show_misses`. Returns where the word
    /// chosen then stands today, so that it can be committed again.
    pub fn record_query(
        &mut self,
        kind: TallyKind,
        source: InputSource,
        scope: &str,
        text: &str,
        items: &Vec<String>,
        corrected_then: bool,
        corrected_now: bool,
        show_misses: usize,
    ) -> (position: Option<usize>)
        requires
            has_room(tally_of(*old(self), kind)),
            position_in(texts(items@), text@) matches Some(i) ==> tally_of(*old(self), kind).rank_sum
                + i + 1 <= usize::MAX,
        ensures
            position matches Some(i) ==> position_in(texts(items@), text@) == Some(i as int),
            position is None ==> position_in(texts(items@), text@) is None,
            ({
                let missed = position != Some(0usize);
                let r = with_tally(
                    *old(self),
                    kind,
                    ranked(tally_of(*old(self), kind), position, corrected_then, corrected_now),
                );
                &&& *final(self) == (Report { misses: final(self).misses, ..r })
                &&& final(self).misses@.map_values(|m: String| m@) == if missed && old(
                    self,
                ).misses@.len() < show_misses {
                    old(self).misses@.map_values(|m: String| m@).push(
                        replay_miss_line(source, scope@, text@, texts(items@)),
                    )
                } else {
                    old(self).misses@.map_values(|m: String| m@)
                }
            }),
    {
        let position = position_of(items, text);
        proof {
            if let Some(i) = position {
                assert(i < items@.len()) by {
                    let k = choose|k: int| crate::eval::first_equal(texts(items@), text@, k);
                }
            }
        }
        self.record_ranked(kind, position, corrected_then, corrected_now);
        let missed = match position {
            Some(0) => false,
            _ => true,
        };
        if missed && self.misses.len() < show_misses {
            let mut line = String::new();
            push_str(&mut line, "[");
            push_str(&mut line, source_label(source));
            push_str(&mut line, "] ");
            push_padded(&mut line, scope, 16);
            push_str(&mut line, " 选了 ");
            push_padded(&mut line, text, 8);
            push_str(&mut line, " 现在前三 ");
            let count = if items.len() < 3 {
                items.len()
            } else {
                3
            };
            push_joined(&mut line, items, count, " / ");
            push_rank_note(&mut line, position);
            assert(line@ =~= replay_miss_line(source, scope@, text@, texts(items@)));
            let ghost before = self.misses@;
            self.misses.push(line);
            assert(self.misses@.map_values(|m: String| m@) =~= before.map_values(|m: String| m@).push(
                replay_miss_line(source, scope@, text@, texts(items@)),
            ));
        }
        position
    }
}

/// Counting keeps a tally consistent: each replayed commit lands in exactly one outcome,
/// and "still corrected" never exceeds "corrected then".
pub proof fn lemma_recording_keeps_consistency(
    t: Tally,
    position: Option<usize>,
    corrected_then: bool,
    corrected_now: bool,
)
    requires
        consistent(t),
        has_room(t),
        position matches Some(i) ==> t.rank_sum + i + 1 <= usize::MAX,
    ensures
        consistent(ranked(t, position, corrected_then, corrected_now)),
        consistent(
            Tally { total: (t.total + 1) as usize, unparsable: (t.unparsable + 1) as usize, ..t },
        ),
{
}

/// A tally starts consistent, and noting what the log says of a commit keeps it so.
pub proof fn lemma_noting_keeps_consistency(t: Tally, commit: LoggedCommit)
    requires
        consistent(t),
        t.then_top1 < usize::MAX,
        t.hit_pages + commit.pages <= usize::MAX,
        t.miss_pages + commit.pages <= usize::MAX,
        t.hit_ms + commit.ms <= u64::MAX,
        t.miss_ms + commit.ms <= u64::MAX,
        t.rescored_then < usize::MAX,
        t.rescored_then_top1 < usize::MAX,
    ensures
        consistent(zero_tally()),
        consistent(noted(t, commit)),
{
}

/// In a consistent tally the commits found are no more than those that can be evaluated,
/// and their rank sum is at least first places plus twice places two to five plus six
/// times later places.
pub proof fn lemma_found_bounds(t: Tally)
    requires
        consistent(t),
    ensures
        t.top1 + t.top5 + t.found_later <= t.total - t.unparsable,
        t.top1 + 2 * t.top5 + 6 * t.found_later <= t.rank_sum,
{
}

/// In a consistent tally, the evaluable commits are exactly those found plus those missing.
pub proof fn lemma_evaluated_is_found_or_missing(t: Tally)
    requires
        consistent(t),
    ensures
        t.total - t.unparsable == t.top1 + t.top5 + t.found_later + t.missing,
{
}

} // verus!
