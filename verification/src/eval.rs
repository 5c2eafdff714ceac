//! Sentence-level evaluation: the user's own Chinese text, turned into the full pinyin he
//! would type, is fed to a cold engine, and the report counts whether the sentence
//! conversion gives the very sentence back.
//!
//! The engine and the reading lookup run in the shell; this module keeps the set of
//! sentences (each one once), scores the candidates a query gave, and writes the report.

use vstd::prelude::*;

use crate::extract::Extracted;
use crate::pair::{
    is_context_field, is_line_field, lemma_line_is_one_line, lemma_pair_line_reads_back, line_of,
    parse_line, Pair,
};
use crate::text::{
    chars_of, decimal, joined, lemma_find_from_is, lines, trim, padded, push_char, push_decimal,
    next_line, push_joined, push_padded, push_str, same_text, string_of_range, strip_cr, texts,
};

verus! {

/// Errors of the evaluation.
#[derive(Debug, Clone, PartialEq, Eq)]
pub enum EvalError {
    /// An evaluation text could not be read: its path and the system's message.
    Read { path: String, message: String },
    /// The sentence set could not be written: its path and the system's message.
    Write { path: String, message: String },
}

/// The text of an evaluation error.
pub open spec fn eval_error_text(e: EvalError) -> Seq<char> {
    match e {
        EvalError::Read { path, message } => "cannot read evaluation text "@ + path@ + ": "@
            + message@,
        EvalError::Write { path, message } => "cannot write sentence set "@ + path@ + ": "@
            + message@,
    }
}

impl EvalError {
    /// The error as the user reads it.
    pub fn message(&self) -> (m: String)
        ensures
            m@ == eval_error_text(*self),
    {
        let mut m = String::new();
        match self {
            EvalError::Read { path, message } => {
                push_str(&mut m, "cannot read evaluation text ");
                push_str(&mut m, path.as_str());
                push_str(&mut m, ": ");
                push_str(&mut m, message.as_str());
            },
            EvalError::Write { path, message } => {
                push_str(&mut m, "cannot write sentence set ");
                push_str(&mut m, path.as_str());
                push_str(&mut m, ": ");
                push_str(&mut m, message.as_str());
            },
        }
        assert(m@ =~= eval_error_text(*self));
        m
    }
}

/// `i` is the first item equal to `t`.
pub open spec fn first_equal(items: Seq<Seq<char>>, t: Seq<char>, i: int) -> bool {
    &&& 0 <= i < items.len()
    &&& items[i] == t
    &&& forall|j: int| 0 <= j < i ==> items[j] != t
}

/// The position of the first item equal to `t`.
pub open spec fn position_in(items: Seq<Seq<char>>, t: Seq<char>) -> Option<int> {
    if exists|i: int| first_equal(items, t, i) {
        Some(choose|i: int| first_equal(items, t, i))
    } else {
        None
    }
}

/// `i` is the first item of `n` characters: the sentence candidate, the first one that
/// covers all the pinyin.
pub open spec fn first_of_length(items: Seq<Seq<char>>, n: nat, i: int) -> bool {
    &&& 0 <= i < items.len()
    &&& items[i].len() == n
    &&& forall|j: int| 0 <= j < i ==> items[j].len() != n
}

/// The position of the first item of `n` characters.
pub open spec fn sentence_in(items: Seq<Seq<char>>, n: nat) -> Option<int> {
    if exists|i: int| first_of_length(items, n, i) {
        Some(choose|i: int| first_of_length(items, n, i))
    } else {
        None
    }
}

/// How many of the first `n` characters of `a` and `b` agree, place by place.
pub open spec fn matching_chars(a: Seq<char>, b: Seq<char>, n: int) -> nat
    decreases n,
{
    if n <= 0 {
        0
    } else {
        matching_chars(a, b, n - 1) + if a[n - 1] == b[n - 1] {
            1nat
        } else {
            0nat
        }
    }
}

/// The places among the first `n` at which `a` and `b` hold the same character.
pub open spec fn agreeing_places(a: Seq<char>, b: Seq<char>, n: int) -> Set<int> {
    Set::new(|i: int| 0 <= i < n && a[i] == b[i])
}

/// The characters that agree are counted place by place, each place on its own: the
/// count is the number of places among the first `n` where the two texts agree.
pub proof fn lemma_matching_counts_places(a: Seq<char>, b: Seq<char>, n: int)
    ensures
        agreeing_places(a, b, n).finite(),
        matching_chars(a, b, n) == agreeing_places(a, b, n).len(),
    decreases n,
{
    if n <= 0 {
        assert(agreeing_places(a, b, n) =~= Set::empty());
    } else {
        lemma_matching_counts_places(a, b, n - 1);
        let s = agreeing_places(a, b, n - 1);
        assert(!s.contains(n - 1));
        if a[n - 1] == b[n - 1] {
            assert(agreeing_places(a, b, n) =~= s.insert(n - 1));
        } else {
            assert(agreeing_places(a, b, n) =~= s);
        }
    }
}

/// Where the first `n` places of two texts all agree, all `n` are counted.
pub proof fn lemma_matching_all(a: Seq<char>, b: Seq<char>, n: int)
    requires
        0 <= n,
        forall|i: int| 0 <= i < n ==> a[i] == b[i],
    ensures
        matching_chars(a, b, n) == n,
    decreases n,
{
    if n > 0 {
        lemma_matching_all(a, b, n - 1);
    }
}

/// Changing one place of an exact match, wherever it stands, lowers the count by exactly
/// one.
pub proof fn lemma_matching_one_change(a: Seq<char>, k: int, x: char, n: int)
    requires
        0 <= k < n <= a.len(),
        x != a[k],
    ensures
        matching_chars(a.update(k, x), a, n) == n - 1,
    decreases n,
{
    let u = a.update(k, x);
    if n - 1 == k {
        lemma_matching_all(u, a, k);
    } else {
        lemma_matching_one_change(a, k, x, n - 1);
    }
}

/// Where the wanted text stood among the candidates, as a miss line says it.
pub open spec fn rank_note(position: Option<int>) -> Seq<char> {
    match position {
        Some(i) => "（第 "@ + decimal((i + 1) as nat) + " 位）"@,
        None => "（不在候选里）"@,
    }
}

/// The first three items, joined by `" / "`.
pub open spec fn top_three(items: Seq<Seq<char>>) -> Seq<char> {
    joined(items.take(if items.len() < 3 { items.len() as int } else { 3 }), " / "@)
}

/// A line of the examples that missed: sentence, pinyin, the top three, and the rank.
pub open spec fn eval_miss_line(
    text: Seq<char>,
    pinyin: Seq<char>,
    items: Seq<Seq<char>>,
) -> Seq<char> {
    padded(text, 20) + " "@ + padded(pinyin, 28) + " 现在前三 "@ + top_three(items) + rank_note(
        position_in(items, text),
    )
}

proof fn lemma_first_equal_unique(items: Seq<Seq<char>>, t: Seq<char>, i: int, k: int)
    requires
        first_equal(items, t, i),
        first_equal(items, t, k),
    ensures
        i == k,
{
    if i < k {
        assert(items[i] != t);
    }
    if k < i {
        assert(items[k] != t);
    }
}

proof fn lemma_first_of_length_unique(items: Seq<Seq<char>>, n: nat, i: int, k: int)
    requires
        first_of_length(items, n, i),
        first_of_length(items, n, k),
    ensures
        i == k,
{
    if i < k {
        assert(items[i].len() != n);
    }
    if k < i {
        assert(items[k].len() != n);
    }
}

/// The score of one sentence against the candidates of its query.
pub struct SentenceScore {
    /// Where the sentence stands among the candidates.
    pub position: Option<usize>,
    /// The sentence candidate: the first candidate as long as the sentence.
    pub sentence: Option<usize>,
    /// How many characters of the sentence candidate are right.
    pub chars_correct: usize,
    /// The length of the sentence in characters.
    pub length: usize,
}

/// The first position of `text` among `items`, and of a candidate as long as it.
fn positions(items: &Vec<String>, text: &str, length: usize) -> (r: (Option<usize>, Option<usize>))
    requires
        length == text@.len(),
    ensures
        r.0 matches Some(i) ==> first_equal(texts(items@), text@, i as int),
        r.0 is None ==> forall|j: int| 0 <= j < items@.len() ==> items@[j]@ != text@,
        r.1 matches Some(i) ==> first_of_length(texts(items@), length as nat, i as int),
        r.1 is None ==> forall|j: int| 0 <= j < items@.len() ==> items@[j]@.len() != length,
{
    let ghost ts = texts(items@);
    let mut position: Option<usize> = None;
    let mut sentence: Option<usize> = None;
    let mut i: usize = 0;
    while i < items.len()
        invariant
            i <= items@.len(),
            ts == texts(items@),
            length == text@.len(),
            position matches Some(p) ==> first_equal(ts, text@, p as int),
            position is None ==> forall|j: int| 0 <= j < i ==> items@[j]@ != text@,
            sentence matches Some(p) ==> first_of_length(ts, length as nat, p as int),
            sentence is None ==> forall|j: int| 0 <= j < i ==> items@[j]@.len() != length,
        decreases items.len() - i,
    {
        if position.is_none() && same_text(items[i].as_str(), text) {
            position = Some(i);
        }
        if sentence.is_none() && chars_of(items[i].as_str()).len() == length {
            sentence = Some(i);
        }
        i = i + 1;
    }
    (position, sentence)
}

/// The position of the first candidate whose text is `text`.
pub fn position_of(items: &Vec<String>, text: &str) -> (r: Option<usize>)
    ensures
        r matches Some(i) ==> position_in(texts(items@), text@) == Some(i as int),
        r is None ==> position_in(texts(items@), text@) is None,
{
    let length = chars_of(text).len();
    let (position, _) = positions(items, text, length);
    let ghost ts = texts(items@);
    proof {
        match position {
            Some(i) => {
                assert forall|k: int| first_equal(ts, text@, k) implies k == i by {
                    lemma_first_equal_unique(ts, text@, i as int, k);
                }
            },
            None => {
                assert forall|k: int| !first_equal(ts, text@, k) by {
                    if first_equal(ts, text@, k) {
                        assert(items@[k]@ == text@);
                    }
                }
            },
        }
    }
    position
}

/// How many characters of `a` and `b` agree, place by place, over the first `n`.
fn count_matching(a: &Vec<char>, b: &Vec<char>, n: usize) -> (c: usize)
    requires
        n <= a@.len(),
        n <= b@.len(),
    ensures
        c == matching_chars(a@, b@, n as int),
        c <= n,
{
    let mut c: usize = 0;
    let mut i: usize = 0;
    while i < n
        invariant
            i <= n <= a@.len(),
            n <= b@.len(),
            c == matching_chars(a@, b@, i as int),
            c <= i,
        decreases n - i,
    {
        if a[i] == b[i] {
            c = c + 1;
        }
        i = i + 1;
    }
    c
}

/// Scores a sentence against the candidates its query gave.
pub fn score_sentence(items: &Vec<String>, text: &str) -> (s: SentenceScore)
    ensures
        s.length == text@.len(),
        s.position matches Some(i) ==> position_in(texts(items@), text@) == Some(i as int),
        s.position is None ==> position_in(texts(items@), text@) is None,
        s.sentence matches Some(i) ==> sentence_in(texts(items@), text@.len()) == Some(i as int),
        s.sentence is None ==> sentence_in(texts(items@), text@.len()) is None,
        s.chars_correct == match s.sentence {
            Some(i) => matching_chars(items@[i as int]@, text@, text@.len() as int),
            None => 0,
        },
        s.chars_correct <= s.length,
{
    let expected = chars_of(text);
    let length = expected.len();
    let (position, sentence) = positions(items, text, length);
    let ghost ts = texts(items@);
    proof {
        match position {
            Some(i) => {
                assert forall|k: int| first_equal(ts, text@, k) implies k == i by {
                    lemma_first_equal_unique(ts, text@, i as int, k);
                }
            },
            None => {
                assert forall|k: int| !first_equal(ts, text@, k) by {
                    if first_equal(ts, text@, k) {
                        assert(items@[k]@ == text@);
                    }
                }
            },
        }
        match sentence {
            Some(i) => {
                assert forall|k: int| first_of_length(ts, length as nat, k) implies k == i by {
                    lemma_first_of_length_unique(ts, length as nat, i as int, k);
                }
            },
            None => {
                assert forall|k: int| !first_of_length(ts, length as nat, k) by {
                    if first_of_length(ts, length as nat, k) {
                        assert(items@[k]@.len() == length);
                    }
                }
            },
        }
    }
    let chars_correct = match sentence {
        Some(i) => {
            let candidate = chars_of(items[i].as_str());
            count_matching(&candidate, &expected, length)
        },
        None => 0,
    };
    SentenceScore { position, sentence, chars_correct, length }
}

/// The evaluation report, its counts.
pub struct Report {
    /// Sentences extracted from raw text (each once).
    pub extracted: usize,
    /// Sentences with a character whose reading is unknown, so that no pinyin could be made.
    pub untranscribable: usize,
    /// Sentences evaluated.
    pub total: usize,
    /// Sentences whose pinyin no longer parses.
    pub unparsable: usize,
    /// The first candidate is the sentence.
    pub top1: usize,
    /// The sentence candidate is the sentence.
    pub sentence_hit: usize,
    /// Characters of the sentence candidates that agree with the sentence, and all
    /// characters of the evaluated sentences.
    pub chars_correct: usize,
    pub chars_total: usize,
    /// Examples that missed the first place.
    pub misses: Vec<String>,
}

impl Report {
    /// An empty report.
    pub fn new() -> (r: Self)
        ensures
            r.extracted == 0 && r.untranscribable == 0 && r.total == 0 && r.unparsable == 0,
            r.top1 == 0 && r.sentence_hit == 0 && r.chars_correct == 0 && r.chars_total == 0,
            r.misses@.len() == 0,
            r.wf(),
    {
        Report {
            extracted: 0,
            untranscribable: 0,
            total: 0,
            unparsable: 0,
            top1: 0,
            sentence_hit: 0,
            chars_correct: 0,
            chars_total: 0,
            misses: Vec::new(),
        }
    }

    /// The counts agree with each other: no more unparsable sentences or hits than
    /// sentences, no more right characters than characters.
    pub open spec fn wf(&self) -> bool {
        &&& self.unparsable <= self.total
        &&& self.top1 + self.unparsable <= self.total
        &&& self.sentence_hit + self.unparsable <= self.total
        &&& self.chars_correct <= self.chars_total
        &&& self.untranscribable <= self.extracted
    }

    /// The sentences that were scored: all but those whose pinyin did not parse.
    pub fn evaluated(&self) -> (n: usize)
        requires
            self.wf(),
        ensures
            n == self.total - self.unparsable,
    {
        self.total - self.unparsable
    }

    /// Counts a sentence whose pinyin the engine could not parse.
    pub fn record_unparsable(&mut self)
        requires
            old(self).wf(),
            old(self).total < usize::MAX,
        ensures
            final(self).wf(),
            *final(self) == (Report {
                total: (old(self).total + 1) as usize,
                unparsable: (old(self).unparsable + 1) as usize,
                ..*old(self)
            }),
    {
        self.total = self.total + 1;
        self.unparsable = self.unparsable + 1;
    }

    /// Counts a sentence against the candidates its query gave: first place, sentence
    /// candidate, right characters; and keeps the miss as an example while there are
    /// fewer than `show_misses`.
    pub fn record_candidates(&mut self, items: &Vec<String>, pair: &Pair, show_misses: usize)
        requires
            old(self).wf(),
            old(self).total < usize::MAX,
            old(self).chars_total + pair.text@.len() <= usize::MAX,
        ensures
            final(self).wf(),
            ({
                let ts = texts(items@);
                let t = pair.text@;
                let position = position_in(ts, t);
                let sentence = sentence_in(ts, t.len());
                let right = match sentence {
                    Some(k) => matching_chars(ts[k], t, t.len() as int),
                    None => 0,
                };
                let missed = position != Some(0int);
                &&& final(self).total == old(self).total + 1
                &&& final(self).top1 == old(self).top1 + if missed { 0int } else { 1int }
                &&& final(self).sentence_hit == old(self).sentence_hit + if sentence matches Some(
                    k,
                ) && ts[k] == t {
                    1int
                } else {
                    0int
                }
                &&& final(self).chars_total == old(self).chars_total + t.len()
                &&& final(self).chars_correct == old(self).chars_correct + right
                &&& final(self).misses@.len() <= old(self).misses@.len() + 1
                &&& final(self).misses@.map_values(|m: String| m@) == if missed
                    && old(self).misses@.len() < show_misses {
                    old(self).misses@.map_values(|m: String| m@).push(
                        eval_miss_line(t, pair.pinyin@, ts),
                    )
                } else {
                    old(self).misses@.map_values(|m: String| m@)
                }
                &&& final(self).extracted == old(self).extracted
                &&& final(self).untranscribable == old(self).untranscribable
                &&& final(self).unparsable == old(self).unparsable
            }),
    {
        let score = score_sentence(items, pair.text.as_str());
        let ghost ts = texts(items@);
        self.total = self.total + 1;
        let missed = match score.position {
            Some(0) => false,
            _ => true,
        };
        if !missed {
            self.top1 = self.top1 + 1;
        }
        self.chars_total = self.chars_total + score.length;
        if let Some(k) = score.sentence {
            if same_text(items[k].as_str(), pair.text.as_str()) {
                self.sentence_hit = self.sentence_hit + 1;
            }
            self.chars_correct = self.chars_correct + score.chars_correct;
        }
        if missed && self.misses.len() < show_misses {
            let line = eval_miss(items, pair, score.position);
            let ghost before = self.misses@;
            self.misses.push(line);
            assert(self.misses@.map_values(|m: String| m@) =~= before.map_values(|m: String| m@).push(
                eval_miss_line(pair.text@, pair.pinyin@, ts),
            ));
        }
    }
}

/// The miss line of a sentence.
fn eval_miss(items: &Vec<String>, pair: &Pair, position: Option<usize>) -> (line: String)
    requires
        position matches Some(i) ==> position_in(texts(items@), pair.text@) == Some(i as int),
        position is None ==> position_in(texts(items@), pair.text@) is None,
    ensures
        line@ == eval_miss_line(pair.text@, pair.pinyin@, texts(items@)),
{
    let mut line = String::new();
    push_padded(&mut line, pair.text.as_str(), 20);
    push_str(&mut line, " ");
    push_padded(&mut line, pair.pinyin.as_str(), 28);
    push_str(&mut line, " 现在前三 ");
    let count = if items.len() < 3 {
        items.len()
    } else {
        3
    };
    push_joined(&mut line, items, count, " / ");
    push_rank_note(&mut line, position);
    assert(line@ =~= eval_miss_line(pair.text@, pair.pinyin@, texts(items@)));
    line
}

/// Appends where the wanted text stood among the candidates.
pub fn push_rank_note(out: &mut String, position: Option<usize>)
    requires
        position matches Some(i) ==> i < u64::MAX,
    ensures
        final(out)@ == old(out)@ + rank_note(
            match position {
                Some(i) => Some(i as int),
                None => None,
            },
        ),
{
    match position {
        Some(i) => {
            push_str(out, "（第 ");
            push_decimal(out, i as u64 + 1);
            push_str(out, " 位）");
        },
        None => push_str(out, "（不在候选里）"),
    }
}

/// The lines of a sentence set, each ended by `'\n'`.
pub open spec fn set_text(pairs: Seq<Pair>) -> Seq<char>
    decreases pairs.len(),
{
    if pairs.len() == 0 {
        Seq::empty()
    } else {
        set_text(pairs.drop_last()) + line_of(
            pairs.last().text@,
            pairs.last().pinyin@,
            pairs.last().context@,
        ) + seq!['\n']
    }
}

/// The sentences of an evaluation, each once, in the order they were first met.
pub struct SentenceSet {
    /// Every sentence met so far, also those that could not be transcribed.
    pub seen: Vec<String>,
    /// The sentences to evaluate.
    pub pairs: Vec<Pair>,
}

/// The sentences of a run of pairs.
pub open spec fn pair_texts(pairs: Seq<Pair>) -> Seq<Seq<char>> {
    pairs.map_values(|p: Pair| p.text@)
}

impl SentenceSet {
    /// Each sentence is met once and evaluated at most once.
    pub open spec fn wf(&self) -> bool {
        &&& texts(self.seen@).no_duplicates()
        &&& pair_texts(self.pairs@).no_duplicates()
        &&& forall|i: int|
            0 <= i < self.pairs@.len() ==> texts(self.seen@).contains(#[trigger] self.pairs@[i].text@)
    }

    /// An empty set.
    pub fn new() -> (s: Self)
        ensures
            s.seen@.len() == 0,
            s.pairs@.len() == 0,
            s.wf(),
    {
        SentenceSet { seen: Vec::new(), pairs: Vec::new() }
    }

    /// Whether `text` was met before.
    pub fn contains(&self, text: &str) -> (b: bool)
        ensures
            b == texts(self.seen@).contains(text@),
    {
        let mut i: usize = 0;
        while i < self.seen.len()
            invariant
                i <= self.seen@.len(),
                forall|j: int| 0 <= j < i ==> self.seen@[j]@ != text@,
            decreases self.seen.len() - i,
        {
            if same_text(self.seen[i].as_str(), text) {
                assert(texts(self.seen@)[i as int] == text@);
                return true;
            }
            i = i + 1;
        }
        proof {
            if texts(self.seen@).contains(text@) {
                let k = choose|k: int|
                    0 <= k < texts(self.seen@).len() && texts(self.seen@)[k] == text@;
                assert(self.seen@[k]@ == text@);
            }
        }
        false
    }

    /// Notes a sentence; whether it is met for the first time.
    pub fn first_time(&mut self, text: &str) -> (new: bool)
        requires
            old(self).wf(),
        ensures
            final(self).wf(),
            new ==> !pair_texts(final(self).pairs@).contains(text@),
            texts(final(self).seen@).contains(text@),
            new == !texts(old(self).seen@).contains(text@),
            texts(final(self).seen@) == if new {
                texts(old(self).seen@).push(text@)
            } else {
                texts(old(self).seen@)
            },
            final(self).pairs@ == old(self).pairs@,
    {
        if self.contains(text) {
            false
        } else {
            let owned = String::from_str(text);
            let ghost before = self.seen@;
            self.seen.push(owned);
            assert(texts(self.seen@) =~= texts(before).push(text@));
            proof {
                assert(texts(self.seen@).last() == text@);
                assert forall|i: int| 0 <= i < self.pairs@.len() implies texts(
                    self.seen@,
                ).contains(#[trigger] self.pairs@[i].text@) by {
                    let k = choose|k: int|
                        0 <= k < texts(before).len() && texts(before)[k] == self.pairs@[i].text@;
                    assert(texts(self.seen@)[k] == self.pairs@[i].text@);
                }
                if pair_texts(self.pairs@).contains(text@) {
                    let k = choose|k: int|
                        0 <= k < pair_texts(self.pairs@).len() && pair_texts(self.pairs@)[k]
                            == text@;
                    assert(self.pairs@[k].text@ == text@);
                }
            }
            true
        }
    }

    /// A line of a frozen set (`sentence\tpinyin\tcontext`): kept when it parses and its
    /// sentence is new. Returns whether it was kept.
    pub fn add_frozen_line(&mut self, line: &str) -> (kept: bool)
        requires
            old(self).wf(),
        ensures
            final(self).wf(),
            match parse_line(line@) {
                None => !kept && *final(self) == *old(self),
                Some((t, p, c)) => {
                    &&& kept == !texts(old(self).seen@).contains(t)
                    &&& texts(final(self).seen@) == if kept {
                        texts(old(self).seen@).push(t)
                    } else {
                        texts(old(self).seen@)
                    }
                    &&& final(self).pairs@.len() == old(self).pairs@.len() + if kept {
                        1int
                    } else {
                        0int
                    }
                    &&& final(self).pairs@.take(old(self).pairs@.len() as int)
                        == old(self).pairs@
                    &&& kept ==> final(self).pairs@.last()@ == (t, p, c)
                },
            },
    {
        match Pair::parse(line) {
            None => false,
            Some(pair) => {
                if self.first_time(pair.text.as_str()) {
                    let ghost before = self.pairs@;
                    let ghost t = pair.text@;
                    self.pairs.push(pair);
                    assert(self.pairs@.take(before.len() as int) =~= before);
                    proof {
                        assert(pair_texts(self.pairs@) =~= pair_texts(before).push(t));
                        assert(texts(self.seen@).last() == t);
                    }
                    true
                } else {
                    false
                }
            },
        }
    }

    /// A sentence extracted from raw text and met for the first time, with its pinyin, or
    /// `None` when a character's reading is unknown: counted in the report, and kept when
    /// it has pinyin.
    pub fn add_extracted(&mut self, report: &mut Report, extracted: Extracted, pinyin: Option<String>)
        requires
            old(self).wf(),
            texts(old(self).seen@).contains(extracted.text@),
            !pair_texts(old(self).pairs@).contains(extracted.text@),
            old(report).wf(),
            old(report).extracted < usize::MAX,
        ensures
            final(self).wf(),
            final(report).wf(),
            *final(report) == (Report {
                extracted: (old(report).extracted + 1) as usize,
                untranscribable: if pinyin is Some {
                    old(report).untranscribable
                } else {
                    (old(report).untranscribable + 1) as usize
                },
                ..*old(report)
            }),
            final(self).seen@ == old(self).seen@,
            match pinyin {
                Some(p) => final(self).pairs@ == old(self).pairs@.push(
                    Pair { text: extracted.text, pinyin: p, context: extracted.context },
                ),
                None => final(self).pairs@ == old(self).pairs@,
            },
    {
        report.extracted = report.extracted + 1;
        match pinyin {
            Some(p) => {
                let ghost before = self.pairs@;
                let ghost t = extracted.text@;
                self.pairs.push(Pair { text: extracted.text, pinyin: p, context: extracted.context });
                assert(pair_texts(self.pairs@) =~= pair_texts(before).push(t));
            },
            None => {
                report.untranscribable = report.untranscribable + 1;
            },
        }
    }

    /// The sentence set as a frozen file: one line per sentence.
    pub fn save_text(&self) -> (text: String)
        ensures
            text@ == set_text(self.pairs@),
    {
        let mut text = String::new();
        let mut i: usize = 0;
        while i < self.pairs.len()
            invariant
                i <= self.pairs@.len(),
                text@ == set_text(self.pairs@.take(i as int)),
            decreases self.pairs.len() - i,
        {
            let line = self.pairs[i].to_line();
            push_str(&mut text, line.as_str());
            push_char(&mut text, '\n');
            proof {
                assert(self.pairs@.take(i + 1).drop_last() =~= self.pairs@.take(i as int));
            }
            i = i + 1;
        }
        assert(self.pairs@.take(self.pairs@.len() as int) =~= self.pairs@);
        text
    }
}

/// A pair a sentence set can carry: a sentence and pinyin that are not empty and that a
/// line carries unchanged, and a context on one line without tabs.
pub open spec fn saveable(p: Pair) -> bool {
    &&& p.text@.len() > 0
    &&& p.pinyin@.len() > 0
    &&& is_line_field(p.text@)
    &&& is_line_field(p.pinyin@)
    &&& is_context_field(p.context@)
}

/// A pair as a saved set reads it back: the context is trimmed.
pub open spec fn reloaded(p: Pair) -> (Seq<char>, Seq<char>, Seq<char>) {
    (p.text@, p.pinyin@, trim(p.context@))
}

/// The line of a pair in a sentence set.
pub open spec fn pair_line(p: Pair) -> Seq<char> {
    line_of(p.text@, p.pinyin@, p.context@)
}

proof fn lemma_lines_front(l: Seq<char>, r: Seq<char>)
    requires
        forall|i: int| 0 <= i < l.len() ==> l[i] != '\n',
    ensures
        lines(l + seq!['\n'] + r) == seq![strip_cr(l)] + lines(r),
{
    let s = l + seq!['\n'] + r;
    assert(s[l.len() as int] == '\n');
    assert forall|j: int| 0 <= j < l.len() implies s[j] != '\n' by {
        assert(s[j] == l[j]);
    }
    lemma_find_from_is(s, '\n', 0, l.len() as int);
    assert(s.take(l.len() as int) =~= l);
    assert(s.skip(l.len() as int + 1) =~= r);
}

proof fn lemma_set_text_front(pairs: Seq<Pair>)
    requires
        pairs.len() > 0,
    ensures
        set_text(pairs) == pair_line(pairs[0]) + seq!['\n'] + set_text(pairs.drop_first()),
    decreases pairs.len(),
{
    if pairs.len() == 1 {
        assert(pairs.drop_last() =~= Seq::<Pair>::empty());
        assert(pairs.drop_first() =~= Seq::<Pair>::empty());
        assert(set_text(pairs) =~= pair_line(pairs[0]) + seq!['\n']);
    } else {
        lemma_set_text_front(pairs.drop_last());
        assert(pairs.drop_last().drop_first() =~= pairs.drop_first().drop_last());
        assert(pairs.drop_first().last() == pairs.last());
        assert(pairs.drop_last()[0] == pairs[0]);
        assert(set_text(pairs) =~= pair_line(pairs[0]) + seq!['\n'] + set_text(
            pairs.drop_first(),
        ));
    }
}

/// The lines of a saved set are the lines of its pairs, in order.
proof fn lemma_set_text_lines(pairs: Seq<Pair>)
    requires
        forall|i: int| 0 <= i < pairs.len() ==> saveable(#[trigger] pairs[i]),
    ensures
        lines(set_text(pairs)) == pairs.map_values(|p: Pair| pair_line(p)),
    decreases pairs.len(),
{
    if pairs.len() == 0 {
        assert(lines(set_text(pairs)) =~= pairs.map_values(|p: Pair| pair_line(p)));
    } else {
        let p = pairs[0];
        assert(saveable(p));
        lemma_line_is_one_line(p.text@, p.pinyin@, p.context@);
        lemma_set_text_front(pairs);
        lemma_lines_front(pair_line(p), set_text(pairs.drop_first()));
        assert forall|i: int| 0 <= i < pairs.drop_first().len() implies saveable(
            #[trigger] pairs.drop_first()[i],
        ) by {
            assert(pairs.drop_first()[i] == pairs[i + 1]);
        }
        lemma_set_text_lines(pairs.drop_first());
        assert(pairs.map_values(|p: Pair| pair_line(p)) =~= seq![pair_line(p)]
            + pairs.drop_first().map_values(|p: Pair| pair_line(p)));
    }
}

/// A saved sentence set reads back as the same sentences, in the same order: line `i` of
/// the file parses to the sentence and pinyin of pair `i` and its context trimmed (the
/// context itself when it was read from a set).
pub proof fn lemma_saved_set_reads_back(pairs: Seq<Pair>)
    requires
        forall|i: int| 0 <= i < pairs.len() ==> saveable(#[trigger] pairs[i]),
    ensures
        lines(set_text(pairs)).len() == pairs.len(),
        forall|i: int|
            0 <= i < pairs.len() ==> parse_line(#[trigger] lines(set_text(pairs))[i]) == Some(
                reloaded(pairs[i]),
            ),
        forall|i: int|
            0 <= i < pairs.len() && is_line_field(pairs[i].context@) ==> reloaded(
                #[trigger] pairs[i],
            ) == pairs[i]@,
{
    lemma_set_text_lines(pairs);
    assert forall|i: int| 0 <= i < pairs.len() implies parse_line(
        #[trigger] lines(set_text(pairs))[i],
    ) == Some(reloaded(pairs[i])) by {
        let p = pairs[i];
        assert(saveable(p));
        assert(lines(set_text(pairs))[i] == pair_line(p));
        lemma_pair_line_reads_back(p.text@, p.pinyin@, p.context@);
    }
}

/// What reading the lines of a frozen file adds to a set that has met the sentences
/// `seen`: each line that parses to a sentence met neither before nor earlier in the file,
/// in order.
pub open spec fn frozen_read(
    seen: Seq<Seq<char>>,
    ls: Seq<Seq<char>>,
) -> Seq<(Seq<char>, Seq<char>, Seq<char>)>
    decreases ls.len(),
{
    if ls.len() == 0 {
        Seq::empty()
    } else {
        match parse_line(ls[0]) {
            Some(t) => if !seen.contains(t.0) {
                seq![t] + frozen_read(seen.push(t.0), ls.drop_first())
            } else {
                frozen_read(seen, ls.drop_first())
            },
            None => frozen_read(seen, ls.drop_first()),
        }
    }
}

/// The fields of a run of pairs.
pub open spec fn pair_views(pairs: Seq<Pair>) -> Seq<(Seq<char>, Seq<char>, Seq<char>)> {
    pairs.map_values(|p: Pair| p@)
}

impl SentenceSet {
    /// Reads a frozen sentence set file: every line that parses is kept when its sentence
    /// is new, in the order of the file.
    pub fn add_frozen_text(&mut self, text: &str)
        requires
            old(self).wf(),
        ensures
            final(self).wf(),
            pair_views(final(self).pairs@) == pair_views(old(self).pairs@) + frozen_read(
                texts(old(self).seen@),
                lines(text@),
            ),
    {
        let cs = chars_of(text);
        let n = cs.len();
        let mut pos: usize = 0;
        assert(cs@.skip(0) =~= cs@);
        while pos < n
            invariant
                pos <= n == cs.len(),
                cs@ == text@,
                self.wf(),
                pair_views(self.pairs@) + frozen_read(texts(self.seen@), lines(cs@.skip(pos as int)))
                    == pair_views(old(self).pairs@) + frozen_read(
                    texts(old(self).seen@),
                    lines(text@),
                ),
            decreases n - pos,
        {
            let (end, next) = next_line(&cs, pos);
            let line = string_of_range(&cs, pos, end);
            let ghost before = self.pairs@;
            let ghost seen = texts(self.seen@);
            let ghost later = lines(cs@.skip(next as int));
            let kept = self.add_frozen_line(line.as_str());
            proof {
                let l = cs@.subrange(pos as int, end as int);
                assert(lines(cs@.skip(pos as int)).drop_first() =~= later);
                match parse_line(l) {
                    Some(t) => {
                        if kept {
                            assert(self.pairs@ =~= before.push(self.pairs@.last()));
                            assert(pair_views(self.pairs@) =~= pair_views(before).push(t));
                            assert(pair_views(before) + (seq![t] + frozen_read(seen.push(t.0), later))
                                =~= pair_views(before).push(t) + frozen_read(seen.push(t.0), later));
                        } else {
                            assert(self.pairs@ =~= before);
                        }
                    },
                    None => {},
                }
            }
            pos = next;
        }
        proof {
            assert(cs@.skip(n as int) =~= Seq::<char>::empty());
            assert(lines(Seq::<char>::empty()) == Seq::<Seq<char>>::empty());
            assert(pair_views(self.pairs@) + Seq::<(Seq<char>, Seq<char>, Seq<char>)>::empty()
                =~= pair_views(self.pairs@));
        }
    }
}

proof fn lemma_frozen_read_lines(seen: Seq<Seq<char>>, pairs: Seq<Pair>)
    requires
        forall|i: int| 0 <= i < pairs.len() ==> saveable(#[trigger] pairs[i]),
        pair_texts(pairs).no_duplicates(),
        forall|i: int| 0 <= i < pairs.len() ==> !seen.contains(#[trigger] pairs[i].text@),
    ensures
        frozen_read(seen, pairs.map_values(|p: Pair| pair_line(p))) == pairs.map_values(
            |p: Pair| reloaded(p),
        ),
    decreases pairs.len(),
{
    let ls = pairs.map_values(|p: Pair| pair_line(p));
    if pairs.len() == 0 {
        assert(pairs.map_values(|p: Pair| reloaded(p)) =~= Seq::<
            (Seq<char>, Seq<char>, Seq<char>),
        >::empty());
    } else {
        let p = pairs[0];
        assert(saveable(p));
        lemma_pair_line_reads_back(p.text@, p.pinyin@, p.context@);
        assert(ls[0] == pair_line(p));
        let rest = pairs.drop_first();
        assert(ls.drop_first() =~= rest.map_values(|p: Pair| pair_line(p)));
        assert forall|i: int| 0 <= i < rest.len() implies saveable(#[trigger] rest[i]) by {
            assert(rest[i] == pairs[i + 1]);
        }
        assert(pair_texts(rest).no_duplicates()) by {
            assert forall|i: int, j: int|
                0 <= i < pair_texts(rest).len() && 0 <= j < pair_texts(rest).len() && i != j
                implies pair_texts(rest)[i] != pair_texts(rest)[j] by {
                assert(pair_texts(rest)[i] == pair_texts(pairs)[i + 1]);
                assert(pair_texts(rest)[j] == pair_texts(pairs)[j + 1]);
            }
        }
        assert forall|i: int| 0 <= i < rest.len() implies !seen.push(p.text@).contains(
            #[trigger] rest[i].text@,
        ) by {
            assert(rest[i] == pairs[i + 1]);
            assert(!seen.contains(pairs[i + 1].text@));
            assert(pair_texts(pairs)[0] != pair_texts(pairs)[i + 1]);
            if seen.push(p.text@).contains(rest[i].text@) {
                let k = choose|k: int|
                    0 <= k < seen.push(p.text@).len() && seen.push(p.text@)[k] == rest[i].text@;
                if k < seen.len() {
                    assert(seen[k] == rest[i].text@);
                }
            }
        }
        lemma_frozen_read_lines(seen.push(p.text@), rest);
        assert(!seen.contains(p.text@));
        assert(pairs.map_values(|p: Pair| reloaded(p)) =~= seq![reloaded(p)] + rest.map_values(
            |p: Pair| reloaded(p),
        ));
    }
}

/// A sentence set saved to a file and read back into an empty set gives the same
/// sentences and pinyin in the same order, each context trimmed: a later run evaluates what
/// the saving run evaluated.
pub proof fn lemma_saved_set_reloads(pairs: Seq<Pair>)
    requires
        forall|i: int| 0 <= i < pairs.len() ==> saveable(#[trigger] pairs[i]),
        pair_texts(pairs).no_duplicates(),
    ensures
        frozen_read(Seq::empty(), lines(set_text(pairs))) == pairs.map_values(
            |p: Pair| reloaded(p),
        ),
{
    lemma_set_text_lines(pairs);
    lemma_frozen_read_lines(Seq::empty(), pairs);
}

} // verus!
