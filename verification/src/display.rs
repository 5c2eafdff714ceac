//! Terminal layout of candidates for the command-line tool: each candidate left-aligned,
//! its reading and translation on the right.

use vstd::prelude::*;

use crate::candidate::{Candidate, CandidateKind, FuriganaSegment, Sense};
use crate::text::{
    chars_of, decimal, joined, push_char, push_decimal, push_joined, push_str, spaces,
    string_of_range, texts, trim_end, trim_end_bound,
};

verus! {

/// The terminal width of a character: two columns from the CJK radicals (U+2E80) on.
pub open spec fn char_width(c: char) -> nat {
    if (c as u32) >= 0x2E80 {
        2
    } else {
        1
    }
}

/// The terminal width of a text: CJK counts double. Close enough for aligning the columns
/// of a command-line tool.
pub open spec fn width_of(s: Seq<char>) -> nat
    decreases s.len(),
{
    if s.len() == 0 {
        0
    } else {
        width_of(s.drop_last()) + char_width(s.last())
    }
}

proof fn lemma_width_bound(s: Seq<char>)
    ensures
        width_of(s) <= 2 * s.len(),
    decreases s.len(),
{
    if s.len() > 0 {
        lemma_width_bound(s.drop_last());
    }
}

/// The terminal width of a text.
pub fn display_width(text: &str) -> (w: usize)
    requires
        2 * text@.len() <= usize::MAX,
    ensures
        w == width_of(text@),
{
    let cs = chars_of(text);
    let mut w: usize = 0;
    let mut i: usize = 0;
    while i < cs.len()
        invariant
            i <= cs@.len(),
            cs@ == text@,
            2 * cs@.len() <= usize::MAX,
            w == width_of(cs@.take(i as int)),
        decreases cs.len() - i,
    {
        proof {
            assert(cs@.take(i + 1).drop_last() =~= cs@.take(i as int));
            lemma_width_bound(cs@.take(i + 1));
        }
        if cs[i] as u32 >= 0x2E80 {
            w = w + 2;
        } else {
            w = w + 1;
        }
        i = i + 1;
    }
    assert(cs@.take(cs@.len() as int) =~= cs@);
    w
}

/// The marker before a candidate's annotation that tells where it comes from.
pub open spec fn marker(kind: CandidateKind) -> Seq<char> {
    match kind {
        CandidateKind::Chinese => ""@,
        CandidateKind::English => "[en] "@,
        CandidateKind::Cloud => "☁ "@,
        CandidateKind::Shortcut => "[v] "@,
        CandidateKind::Custom(_) => "[custom] "@,
        CandidateKind::Sentence => "[句] "@,
        CandidateKind::Emoji => ""@,
    }
}

/// Each source of a candidate has its own marker: `[en]` for English, a cloud for the
/// cloud, `[v]` for a shortcut, `[custom]` for a custom phrase wherever it is pinned,
/// `[句]` for a whole sentence, each followed by a space; dictionary words and emoji carry
/// none.
pub proof fn lemma_markers(position: usize)
    ensures
        marker(CandidateKind::Chinese) == Seq::<char>::empty(),
        marker(CandidateKind::English) == seq!['[', 'e', 'n', ']', ' '],
        marker(CandidateKind::Cloud) == seq!['☁', ' '],
        marker(CandidateKind::Shortcut) == seq!['[', 'v', ']', ' '],
        marker(CandidateKind::Custom(position)) == seq!['[', 'c', 'u', 's', 't', 'o', 'm', ']', ' '],
        marker(CandidateKind::Sentence) == seq!['[', '句', ']', ' '],
        marker(CandidateKind::Emoji) == Seq::<char>::empty(),
{
    reveal_strlit("");
    reveal_strlit("[en] ");
    reveal_strlit("☁ ");
    reveal_strlit("[v] ");
    reveal_strlit("[custom] ");
    reveal_strlit("[句] ");
    assert(marker(CandidateKind::Chinese) =~= Seq::<char>::empty());
    assert(marker(CandidateKind::English) =~= seq!['[', 'e', 'n', ']', ' ']);
    assert(marker(CandidateKind::Cloud) =~= seq!['☁', ' ']);
    assert(marker(CandidateKind::Shortcut) =~= seq!['[', 'v', ']', ' ']);
    assert(marker(CandidateKind::Custom(position)) =~= seq!['[', 'c', 'u', 's', 't', 'o', 'm', ']', ' ']);
    assert(marker(CandidateKind::Sentence) =~= seq!['[', '句', ']', ' ']);
}

/// A gloss with the readings of its segments in brackets: `開発(かいはつ)する`.
pub open spec fn furigana_text(segments: Seq<FuriganaSegment>) -> Seq<char>
    decreases segments.len(),
{
    if segments.len() == 0 {
        Seq::empty()
    } else {
        let s = segments.last();
        furigana_text(segments.drop_last()) + s.text@ + match s.reading {
            Some(r) => "("@ + r@ + ")"@,
            None => Seq::empty(),
        }
    }
}

/// One sense: part of speech, a space, the gloss.
pub open spec fn sense_text(sense: Sense) -> Seq<char> {
    match sense.part_of_speech {
        Some(p) => p@ + " "@ + furigana_text(sense.furigana@),
        None => furigana_text(sense.furigana@),
    }
}

/// The senses of a translation.
pub open spec fn senses_texts(senses: Seq<Sense>) -> Seq<Seq<char>> {
    senses.map_values(|s: Sense| sense_text(s))
}

/// The translation of a candidate, its senses joined by `" · "`.
pub open spec fn annotation_text(c: Candidate) -> Seq<char> {
    match c.translation {
        Some(t) => joined(senses_texts(t.senses@), " · "@),
        None => Seq::empty(),
    }
}

/// The reading of a candidate and a space, when it has one.
pub open spec fn reading_text(c: Candidate) -> Seq<char> {
    match c.reading {
        Some(r) => r@ + " "@,
        None => Seq::empty(),
    }
}

/// The spaces after a candidate: enough to reach `width`, and two more.
pub open spec fn padding_of(c: Candidate, width: nat) -> nat {
    let w = width_of(c.text@);
    (if width >= w {
        (width - w) as nat
    } else {
        0nat
    }) + 2
}

/// A candidate line: the candidate, padding to `width` and two spaces, the source marker,
/// the reading, the translation; trailing white space removed.
pub open spec fn candidate_text(c: Candidate, width: nat) -> Seq<char> {
    trim_end(
        c.text@ + spaces(padding_of(c, width)) + marker(c.kind) + reading_text(c)
            + annotation_text(c),
    )
}

fn push_furigana(out: &mut String, segments: &Vec<FuriganaSegment>)
    ensures
        final(out)@ == old(out)@ + furigana_text(segments@),
{
    let mut j: usize = 0;
    while j < segments.len()
        invariant
            j <= segments@.len(),
            out@ == old(out)@ + furigana_text(segments@.take(j as int)),
        decreases segments.len() - j,
    {
        let segment = &segments[j];
        push_str(out, segment.text.as_str());
        match &segment.reading {
            Some(r) => {
                push_str(out, "(");
                push_str(out, r.as_str());
                push_str(out, ")");
            },
            None => {},
        }
        proof {
            let s = segments@.take(j + 1);
            assert(s.drop_last() =~= segments@.take(j as int));
            assert(s.last() == segments@[j as int]);
            assert(out@ =~= old(out)@ + furigana_text(s));
        }
        j = j + 1;
    }
    assert(segments@.take(segments@.len() as int) =~= segments@);
}

fn push_sense(out: &mut String, sense: &Sense)
    ensures
        final(out)@ == old(out)@ + sense_text(*sense),
{
    match &sense.part_of_speech {
        Some(p) => {
            push_str(out, p.as_str());
            push_str(out, " ");
        },
        None => {},
    }
    push_furigana(out, &sense.furigana);
    assert(out@ =~= old(out)@ + sense_text(*sense));
}

fn push_senses(out: &mut String, senses: &Vec<Sense>)
    ensures
        final(out)@ == old(out)@ + joined(senses_texts(senses@), " · "@),
{
    let mut i: usize = 0;
    while i < senses.len()
        invariant
            i <= senses@.len(),
            out@ == old(out)@ + joined(senses_texts(senses@).take(i as int), " · "@),
        decreases senses.len() - i,
    {
        if i > 0 {
            push_str(out, " · ");
        }
        push_sense(out, &senses[i]);
        proof {
            let ts = senses_texts(senses@);
            assert(ts.take(i + 1).drop_last() =~= ts.take(i as int));
            assert(ts.take(i + 1).last() == sense_text(senses@[i as int]));
            if i == 0 {
                assert(joined(ts.take(0), " · "@) =~= Seq::<char>::empty());
            }
        }
        i = i + 1;
    }
    assert(senses_texts(senses@).take(senses@.len() as int) =~= senses_texts(senses@));
}

/// The line of a candidate, its text padded to `width` columns.
pub fn format_candidate(candidate: &Candidate, width: usize) -> (line: String)
    requires
        2 * candidate.text@.len() <= usize::MAX,
        width < usize::MAX - 2,
    ensures
        line@ == candidate_text(*candidate, width as nat),
{
    let w = display_width(candidate.text.as_str());
    let pad = if width >= w {
        width - w
    } else {
        0
    } + 2;
    let mut raw = String::new();
    push_str(&mut raw, candidate.text.as_str());
    let mut k: usize = 0;
    while k < pad
        invariant
            k <= pad,
            raw@ == candidate.text@ + spaces(k as nat),
        decreases pad - k,
    {
        push_char(&mut raw, ' ');
        assert(spaces(k as nat).push(' ') =~= spaces((k + 1) as nat));
        k = k + 1;
    }
    match candidate.kind {
        CandidateKind::Chinese => push_str(&mut raw, ""),
        CandidateKind::English => push_str(&mut raw, "[en] "),
        CandidateKind::Cloud => push_str(&mut raw, "☁ "),
        CandidateKind::Shortcut => push_str(&mut raw, "[v] "),
        CandidateKind::Custom(_) => push_str(&mut raw, "[custom] "),
        CandidateKind::Sentence => push_str(&mut raw, "[句] "),
        CandidateKind::Emoji => push_str(&mut raw, ""),
    }
    match &candidate.reading {
        Some(r) => {
            push_str(&mut raw, r.as_str());
            push_str(&mut raw, " ");
        },
        None => {},
    }
    match &candidate.translation {
        Some(t) => push_senses(&mut raw, &t.senses),
        None => {},
    }
    let ghost untrimmed = candidate.text@ + spaces(padding_of(*candidate, width as nat)) + marker(
        candidate.kind,
    ) + reading_text(*candidate) + annotation_text(*candidate);
    assert(raw@ =~= untrimmed);
    let cs = chars_of(raw.as_str());
    let end = trim_end_bound(&cs, 0, cs.len());
    assert(cs@.subrange(0, cs@.len() as int) =~= cs@);
    let line = string_of_range(&cs, 0, end);
    line
}

/// The width of the widest of the first `count` candidates.
fn widest(items: &Vec<Candidate>, count: usize) -> (w: usize)
    requires
        count <= items@.len(),
        forall|i: int| 0 <= i < items@.len() ==> 2 * #[trigger] items@[i].text@.len() <= usize::MAX,
    ensures
        forall|i: int| 0 <= i < count ==> width_of(#[trigger] items@[i].text@) <= w,
        count == 0 ==> w == 0,
        count > 0 ==> exists|i: int| 0 <= i < count && width_of(#[trigger] items@[i].text@) == w,
{
    let mut w: usize = 0;
    let mut i: usize = 0;
    while i < count
        invariant
            i <= count <= items@.len(),
            forall|j: int| 0 <= j < items@.len() ==> 2 * #[trigger] items@[j].text@.len() <= usize::MAX,
            forall|j: int| 0 <= j < i ==> width_of(#[trigger] items@[j].text@) <= w,
            i == 0 ==> w == 0,
            i > 0 ==> exists|j: int| 0 <= j < i && width_of(#[trigger] items@[j].text@) == w,
        decreases count - i,
    {
        let d = display_width(items[i].text.as_str());
        if d > w {
            w = d;
        }
        i = i + 1;
    }
    w
}

/// `s` right-aligned in `width` columns (`{:>width}`), counting characters.
pub open spec fn right_aligned(s: Seq<char>, width: nat) -> Seq<char> {
    if s.len() >= width {
        s
    } else {
        spaces((width - s.len()) as nat) + s
    }
}

/// The listing of a query's candidates: the first `limit`, numbered from 1 and aligned on
/// the widest, then how many more there are.
pub open spec fn candidate_listing(items: Seq<Candidate>, limit: nat, width: nat) -> Seq<Seq<char>> {
    let shown = if items.len() < limit {
        items.len()
    } else {
        limit
    };
    let lines = Seq::new(
        shown,
        |i: int| "  "@ + right_aligned(decimal((i + 1) as nat), 2) + ". "@ + candidate_text(
            items[i],
            width,
        ),
    );
    if items.len() > limit {
        lines.push("      … 还有 "@ + decimal((items.len() - limit) as nat) + " 个"@)
    } else {
        lines
    }
}

/// The lines that list a query's candidates: the first `limit`, numbered from 1 and padded
/// to the widest of them, then a line that tells how many are not shown. The width the
/// lines were padded to is returned with them.
pub fn candidate_lines(items: &Vec<Candidate>, limit: usize) -> (r: (Vec<String>, usize))
    requires
        forall|i: int| 0 <= i < items@.len() ==> 2 * #[trigger] items@[i].text@.len() <= usize::MAX,
        forall|i: int| 0 <= i < items@.len() ==> width_of(#[trigger] items@[i].text@) < usize::MAX - 2,
    ensures
        r.0@.map_values(|l: String| l@) == candidate_listing(items@, limit as nat, r.1 as nat),
        ({
            let shown = if items@.len() < limit { items@.len() as int } else { limit as int };
            &&& forall|i: int| 0 <= i < shown ==> width_of(#[trigger] items@[i].text@) <= r.1
            &&& shown == 0 ==> r.1 == 0
            &&& shown > 0 ==> exists|i: int| 0 <= i < shown && width_of(#[trigger] items@[i].text@) == r.1
        }),
{
    let shown = if items.len() < limit {
        items.len()
    } else {
        limit
    };
    let width = widest(items, shown);
    proof {
        if shown > 0 {
            let j = choose|j: int| 0 <= j < shown && width_of(#[trigger] items@[j].text@) == width;
            assert(width_of(items@[j].text@) < usize::MAX - 2);
        }
    }
    let mut lines: Vec<String> = Vec::new();
    let mut i: usize = 0;
    while i < shown
        invariant
            i <= shown <= items@.len(),
            shown == if items@.len() < limit { items@.len() } else { limit as nat },
            width < usize::MAX - 2,
            forall|j: int| 0 <= j < items@.len() ==> 2 * #[trigger] items@[j].text@.len() <= usize::MAX,
            lines@.len() == i,
            forall|j: int| 0 <= j < i ==> (#[trigger] lines@[j])@ == "  "@ + right_aligned(
                decimal((j + 1) as nat),
                2,
            ) + ". "@ + candidate_text(items@[j], width as nat),
        decreases shown - i,
    {
        let mut line = String::new();
        push_str(&mut line, "  ");
        if i < 9 {
            push_char(&mut line, ' ');
        }
        push_decimal(&mut line, i as u64 + 1);
        push_str(&mut line, ". ");
        let text = format_candidate(&items[i], width);
        push_str(&mut line, text.as_str());
        proof {
            let n = (i + 1) as nat;
            if n < 10 {
                assert(decimal(n) == seq![crate::text::digit(n)]);
                assert(spaces(1) =~= seq![' ']);
            } else {
                crate::text::lemma_decimal_len(n);
            }
            assert(line@ =~= "  "@ + right_aligned(decimal(n), 2) + ". "@ + candidate_text(
                items@[i as int],
                width as nat,
            ));
        }
        lines.push(line);
        i = i + 1;
    }
    if items.len() > limit {
        let mut more = String::new();
        push_str(&mut more, "      … 还有 ");
        push_decimal(&mut more, (items.len() - limit) as u64);
        push_str(&mut more, " 个");
        lines.push(more);
    }
    assert(lines@.map_values(|l: String| l@) =~= candidate_listing(items@, limit as nat, width as nat));
    (lines, width)
}

/// The prefixes a key-by-key run looks up: the first character, the first two, and so on
/// up to the whole input.
pub fn typing_prefixes(input: &str) -> (r: Vec<String>)
    ensures
        r@.len() == input@.len(),
        forall|k: int| 0 <= k < r@.len() ==> (#[trigger] r@[k])@ == input@.take(k + 1),
{
    let cs = chars_of(input);
    let mut r: Vec<String> = Vec::new();
    let mut k: usize = 0;
    while k < cs.len()
        invariant
            k <= cs@.len(),
            cs@ == input@,
            r@.len() == k,
            forall|j: int| 0 <= j < k ==> (#[trigger] r@[j])@ == input@.take(j + 1),
        decreases cs.len() - k,
    {
        let prefix = string_of_range(&cs, 0, k + 1);
        assert(cs@.subrange(0, k + 1) =~= input@.take(k + 1));
        r.push(prefix);
        k = k + 1;
    }
    r
}

/// A word that cloud prediction gave: its text, its reading if it came with one, and its
/// syllables.
pub struct CloudWord {
    pub text: String,
    pub reading: Option<String>,
    pub syllables: Vec<String>,
}

/// The line of a predicted word: its text, then its reading in brackets, or its syllables
/// joined by spaces when it has no reading.
pub open spec fn prediction_line_text(w: CloudWord) -> Seq<char> {
    "  ☁ "@ + w.text@ + "  ("@ + match w.reading {
        Some(r) => r@,
        None => joined(texts(w.syllables@), " "@),
    } + ")"@
}

/// The lines that show a prediction: a note when it is empty, a line per word, then the
/// sentence.
pub open spec fn prediction_lines_text(
    empty: bool,
    words: Seq<CloudWord>,
    sentence: Option<Seq<char>>,
) -> Seq<Seq<char>> {
    (if empty {
        seq!["  ☁ （无联想）"@]
    } else {
        Seq::empty()
    }) + words.map_values(|w: CloudWord| prediction_line_text(w)) + match sentence {
        Some(s) => seq!["  ☁ 整句: "@ + s],
        None => Seq::empty(),
    }
}

/// The lines that show the result of a cloud prediction; `empty` is whether the
/// prediction holds nothing.
pub fn prediction_lines(empty: bool, words: &Vec<CloudWord>, sentence: Option<&str>) -> (r: Vec<String>)
    ensures
        r@.map_values(|l: String| l@) == prediction_lines_text(
            empty,
            words@,
            match sentence {
                Some(s) => Some(s@),
                None => None,
            },
        ),
{
    let mut r: Vec<String> = Vec::new();
    if empty {
        let mut line = String::new();
        push_str(&mut line, "  ☁ （无联想）");
        r.push(line);
    }
    let ghost head = r@.map_values(|l: String| l@);
    let mut i: usize = 0;
    while i < words.len()
        invariant
            i <= words@.len(),
            head == (if empty {
                seq!["  ☁ （无联想）"@]
            } else {
                Seq::<Seq<char>>::empty()
            }),
            r@.map_values(|l: String| l@) == head + words@.take(i as int).map_values(
                |w: CloudWord| prediction_line_text(w),
            ),
        decreases words.len() - i,
    {
        let w = &words[i];
        let mut line = String::new();
        push_str(&mut line, "  ☁ ");
        push_str(&mut line, w.text.as_str());
        push_str(&mut line, "  (");
        match &w.reading {
            Some(reading) => push_str(&mut line, reading.as_str()),
            None => {
                push_joined(&mut line, &w.syllables, w.syllables.len(), " ");
                assert(texts(w.syllables@).take(w.syllables@.len() as int) =~= texts(w.syllables@));
            },
        }
        push_str(&mut line, ")");
        assert(line@ =~= prediction_line_text(*w));
        let ghost before = r@;
        r.push(line);
        proof {
            assert(words@.take(i + 1) =~= words@.take(i as int).push(words@[i as int]));
            assert(r@.map_values(|l: String| l@) =~= before.map_values(|l: String| l@).push(
                prediction_line_text(words@[i as int]),
            ));
        }
        i = i + 1;
    }
    assert(words@.take(words@.len() as int) =~= words@);
    match sentence {
        Some(s) => {
            let mut line = String::new();
            push_str(&mut line, "  ☁ 整句: ");
            push_str(&mut line, s);
            let ghost before = r@;
            r.push(line);
            assert(r@.map_values(|l: String| l@) =~= before.map_values(|l: String| l@).push(
                "  ☁ 整句: "@ + s@,
            ));
        },
        None => {},
    }
    r
}

} // verus!
