//! Extracting evaluation sentences from a user's own Chinese text: one line is one
//! paragraph, a paragraph is cut into clauses at every non-Han character, and each clause
//! of a usable length is kept together with the real text that precedes it.

use vstd::prelude::*;

use crate::pair::MAX_CONTEXT_CHARS;
use crate::text::{
    chars_of, find_char, find_from, lemma_find_from_bounds, lemma_find_from_skip, lines, string_of_range,
    strip_cr, trim, trim_bounds,
};

verus! {

/// A clause needs at least this many characters: two characters are mostly one word.
pub const MIN_SENTENCE_CHARS: usize = 3;

/// A clause may have at most this many characters: users commit longer ones midway.
pub const MAX_SENTENCE_CHARS: usize = 20;

/// One extracted clause: its Han characters and the text before it in the paragraph.
#[derive(Debug, Clone, PartialEq, Eq)]
pub struct Extracted {
    pub text: String,
    pub context: String,
}

impl View for Extracted {
    type V = (Seq<char>, Seq<char>);

    open spec fn view(&self) -> (Seq<char>, Seq<char>) {
        (self.text@, self.context@)
    }
}

/// The Han ranges of `char::is_han` in the sentence segmenter.
pub open spec fn is_han_spec(c: char) -> bool {
    let u = c as u32;
    ||| 0x3400 <= u <= 0x4DBF
    ||| 0x4E00 <= u <= 0x9FFF
    ||| 0xF900 <= u <= 0xFAFF
    ||| 0x20000 <= u <= 0x323AF
}

/// The last `count` characters of `s` (all of it when it is shorter).
pub open spec fn last_chars_spec(s: Seq<char>, count: nat) -> Seq<char> {
    if s.len() <= count {
        s
    } else {
        s.skip(s.len() - count)
    }
}

/// The last `count` characters are a suffix of the text: as many characters as the text
/// has, up to `count`, which put after the rest of the text give it back whole.
pub proof fn lemma_last_chars_is_suffix(s: Seq<char>, count: nat)
    ensures
        last_chars_spec(s, count).len() == if s.len() <= count {
            s.len()
        } else {
            count
        },
        s.take(s.len() - last_chars_spec(s, count).len()) + last_chars_spec(s, count) == s,
{
    let r = last_chars_spec(s, count);
    assert(s.take(s.len() - r.len()) + r =~= s);
}

/// The end of the run of Han characters that starts at `i`.
pub open spec fn run_end(p: Seq<char>, i: int) -> int
    decreases p.len() - i,
{
    if 0 <= i < p.len() && is_han_spec(p[i]) {
        run_end(p, i + 1)
    } else {
        i
    }
}

/// The clauses of paragraph `p` from position `i` on: every maximal run of Han characters
/// whose length is within the limits, paired with the last [`MAX_CONTEXT_CHARS`]
/// characters of the paragraph before it.
pub open spec fn clauses_from(p: Seq<char>, i: int) -> Seq<(Seq<char>, Seq<char>)>
    decreases p.len() - i,
{
    if i < 0 || i >= p.len() {
        Seq::empty()
    } else if !is_han_spec(p[i]) {
        clauses_from(p, i + 1)
    } else {
        let j = run_end(p, i);
        if i < j <= p.len() {
            let rest = clauses_from(p, j);
            if MIN_SENTENCE_CHARS <= j - i <= MAX_SENTENCE_CHARS {
                seq![(p.subrange(i, j), last_chars_spec(p.take(i), MAX_CONTEXT_CHARS as nat))]
                    + rest
            } else {
                rest
            }
        } else {
            Seq::empty()
        }
    }
}

/// The clauses of each trimmed paragraph, paragraph after paragraph.
pub open spec fn clauses_of_lines(ls: Seq<Seq<char>>) -> Seq<(Seq<char>, Seq<char>)>
    decreases ls.len(),
{
    if ls.len() == 0 {
        Seq::empty()
    } else {
        clauses_from(trim(ls[0]), 0) + clauses_of_lines(ls.drop_first())
    }
}

/// Everything [`extract`] returns for `text`.
pub open spec fn extracted(text: Seq<char>) -> Seq<(Seq<char>, Seq<char>)> {
    clauses_of_lines(lines(text))
}

/// Whether `c` is a Han character (the same ranges as the core's sentence segmenter).
pub fn is_han(c: char) -> (b: bool)
    ensures
        b == is_han_spec(c),
{
    let u = c as u32;
    (0x3400 <= u && u <= 0x4DBF) || (0x4E00 <= u && u <= 0x9FFF) || (0xF900 <= u && u
        <= 0xFAFF) || (0x20000 <= u && u <= 0x323AF)
}

/// The last `count` characters of `text`.
pub fn last_chars(text: &str, count: usize) -> (out: String)
    ensures
        out@ == last_chars_spec(text@, count as nat),
{
    let cs = chars_of(text);
    let out = last_chars_of_range(&cs, 0, cs.len(), count);
    assert(cs@.subrange(0, cs@.len() as int) =~= text@);
    out
}

fn last_chars_of_range(cs: &Vec<char>, from: usize, to: usize, count: usize) -> (out: String)
    requires
        from <= to <= cs.len(),
    ensures
        out@ == last_chars_spec(cs@.subrange(from as int, to as int), count as nat),
{
    let start = if to - from > count {
        to - count
    } else {
        from
    };
    let out = string_of_range(cs, start, to);
    proof {
        let s = cs@.subrange(from as int, to as int);
        if s.len() > count {
            assert(s.skip(s.len() - count) =~= cs@.subrange(start as int, to as int));
        }
    }
    out
}

proof fn lemma_run_end_is(p: Seq<char>, i: int, j: int)
    requires
        0 <= i <= j <= p.len(),
        forall|t: int| i <= t < j ==> is_han_spec(#[trigger] p[t]),
        j < p.len() ==> !is_han_spec(p[j]),
    ensures
        run_end(p, i) == j,
    decreases j - i,
{
    if i < j {
        lemma_run_end_is(p, i + 1, j);
    }
}

/// Appends the clauses of paragraph `cs[a..b]` to `out`.
fn extract_paragraph(cs: &Vec<char>, a: usize, b: usize, out: &mut Vec<Extracted>)
    requires
        a <= b <= cs.len(),
    ensures
        final(out)@.map_values(|e: Extracted| e@) == old(out)@.map_values(|e: Extracted| e@)
            + clauses_from(cs@.subrange(a as int, b as int), 0),
{
    let ghost p = cs@.subrange(a as int, b as int);
    let ghost start = old(out)@.map_values(|e: Extracted| e@);
    let mut i = a;
    while i < b
        invariant
            a <= i <= b <= cs.len(),
            p == cs@.subrange(a as int, b as int),
            start + clauses_from(p, 0) == out@.map_values(|e: Extracted| e@) + clauses_from(
                p,
                i - a,
            ),
        decreases b - i,
    {
        if !is_han(cs[i]) {
            assert(p[i - a] == cs@[i as int]);
            i = i + 1;
        } else {
            let mut j = i + 1;
            while j < b && is_han(cs[j])
                invariant
                    a <= i < j <= b <= cs.len(),
                    forall|t: int| i <= t < j ==> is_han_spec(#[trigger] cs@[t]),
                decreases b - j,
            {
                j = j + 1;
            }
            proof {
                assert forall|t: int| i - a <= t < j - a implies is_han_spec(#[trigger] p[t]) by {
                    assert(p[t] == cs@[t + a]);
                }
                if j < b {
                    assert(p[j - a] == cs@[j as int]);
                }
                lemma_run_end_is(p, i - a, j - a);
                assert(p[i - a] == cs@[i as int]);
            }
            let ghost before = out@.map_values(|e: Extracted| e@);
            if MIN_SENTENCE_CHARS <= j - i && j - i <= MAX_SENTENCE_CHARS {
                let text = string_of_range(cs, i, j);
                let context = last_chars_of_range(cs, a, i, MAX_CONTEXT_CHARS);
                out.push(Extracted { text, context });
                proof {
                    assert(p.subrange(i - a, j - a) =~= cs@.subrange(i as int, j as int));
                    assert(p.take(i - a) =~= cs@.subrange(a as int, i as int));
                    let item = (
                        p.subrange(i - a, j - a),
                        last_chars_spec(p.take(i - a), MAX_CONTEXT_CHARS as nat),
                    );
                    assert(out@.map_values(|e: Extracted| e@) =~= before.push(item));
                    assert(seq![item] + clauses_from(p, j - a) =~= clauses_from(p, i - a));
                    assert(before + clauses_from(p, i - a) =~= before.push(item) + clauses_from(
                        p,
                        j - a,
                    ));
                }
            }
            i = j;
        }
    }
}

proof fn lemma_lines_step(s: Seq<char>, pos: int)
    requires
        0 <= pos < s.len(),
    ensures
        ({
            let k = find_from(s, '\n', pos);
            lines(s.skip(pos)) == if k < s.len() {
                seq![strip_cr(s.subrange(pos, k))] + lines(s.skip(k + 1))
            } else {
                seq![s.skip(pos)]
            }
        }),
{
    let t = s.skip(pos);
    lemma_find_from_skip(s, '\n', pos);
    lemma_find_from_bounds(s, '\n', pos);
    let k = find_from(s, '\n', pos);
    if k < s.len() {
        assert(t.take(k - pos) =~= s.subrange(pos, k));
        assert(t.skip(k - pos + 1) =~= s.skip(k + 1));
    }
}

/// Splits `text` into paragraphs (lines, trimmed, empty ones skipped) and cuts each into
/// Han clauses; a clause is kept when it has between [`MIN_SENTENCE_CHARS`] and
/// [`MAX_SENTENCE_CHARS`] characters, with the last [`MAX_CONTEXT_CHARS`] characters of
/// its paragraph before it (punctuation included) as its context.
pub fn extract(text: &str) -> (out: Vec<Extracted>)
    ensures
        out@.map_values(|e: Extracted| e@) == extracted(text@),
{
    let cs = chars_of(text);
    let n = cs.len();
    let mut out: Vec<Extracted> = Vec::new();
    let mut pos: usize = 0;
    assert(cs@.skip(0) =~= cs@);
    while pos < n
        invariant
            pos <= n == cs.len(),
            cs@ == text@,
            extracted(text@) == out@.map_values(|e: Extracted| e@) + clauses_of_lines(
                lines(cs@.skip(pos as int)),
            ),
        decreases n - pos,
    {
        let k = find_char(&cs, '\n', pos, n);
        proof {
            assert(cs@.take(n as int) =~= cs@);
            lemma_lines_step(cs@, pos as int);
        }
        let end = if k < n && k > pos && cs[k - 1] == '\r' {
            k - 1
        } else {
            k
        };
        proof {
            let line = cs@.subrange(pos as int, k as int);
            if k < n {
                if k > pos && cs@[k - 1] == '\r' {
                    assert(strip_cr(line) =~= cs@.subrange(pos as int, end as int));
                } else {
                    assert(strip_cr(line) =~= cs@.subrange(pos as int, end as int));
                }
            } else {
                assert(cs@.skip(pos as int) =~= cs@.subrange(pos as int, end as int));
            }
        }
        let (a, b) = trim_bounds(&cs, pos, end);
        let ghost before = out@.map_values(|e: Extracted| e@);
        extract_paragraph(&cs, a, b, &mut out);
        let ghost rest = lines(cs@.skip(pos as int));
        let next = if k < n {
            k + 1
        } else {
            n
        };
        proof {
            assert(rest[0] == cs@.subrange(pos as int, end as int));
            if k >= n {
                assert(cs@.skip(n as int) =~= Seq::<char>::empty());
                assert(rest.drop_first() =~= Seq::<Seq<char>>::empty());
                assert(lines(Seq::<char>::empty()) == Seq::<Seq<char>>::empty());
            } else {
                assert(rest.drop_first() =~= lines(cs@.skip(k + 1)));
            }
            assert(rest.drop_first() == lines(cs@.skip(next as int)));
            assert(clauses_of_lines(rest) == clauses_from(trim(rest[0]), 0) + clauses_of_lines(
                rest.drop_first(),
            ));
            assert(before + clauses_of_lines(rest) =~= before + clauses_from(trim(rest[0]), 0)
                + clauses_of_lines(rest.drop_first()));
        }
        pos = next;
    }
    proof {
        assert(cs@.skip(n as int) =~= Seq::<char>::empty());
        assert(out@.map_values(|e: Extracted| e@) + Seq::<(Seq<char>, Seq<char>)>::empty()
            =~= out@.map_values(|e: Extracted| e@));
    }
    out
}

/// An extracted clause as the evaluation wants it: only Han characters, between
/// [`MIN_SENTENCE_CHARS`] and [`MAX_SENTENCE_CHARS`] of them, and at most
/// [`MAX_CONTEXT_CHARS`] characters of context.
pub open spec fn evaluable(c: (Seq<char>, Seq<char>)) -> bool {
    &&& MIN_SENTENCE_CHARS <= c.0.len() <= MAX_SENTENCE_CHARS
    &&& forall|k: int| 0 <= k < c.0.len() ==> is_han_spec(#[trigger] c.0[k])
    &&& c.1.len() <= MAX_CONTEXT_CHARS
}

proof fn lemma_run_is_han(p: Seq<char>, i: int)
    requires
        0 <= i <= p.len(),
    ensures
        i <= run_end(p, i) <= p.len(),
        forall|k: int| i <= k < run_end(p, i) ==> is_han_spec(#[trigger] p[k]),
    decreases p.len() - i,
{
    if i < p.len() && is_han_spec(p[i]) {
        lemma_run_is_han(p, i + 1);
    }
}

proof fn lemma_clauses_from_evaluable(p: Seq<char>, i: int)
    ensures
        forall|k: int|
            0 <= k < clauses_from(p, i).len() ==> evaluable(#[trigger] clauses_from(p, i)[k]),
    decreases p.len() - i,
{
    if 0 <= i < p.len() {
        if !is_han_spec(p[i]) {
            lemma_clauses_from_evaluable(p, i + 1);
            assert(clauses_from(p, i) == clauses_from(p, i + 1));
        } else {
            lemma_run_is_han(p, i);
            let j = run_end(p, i);
            if i < j <= p.len() {
                lemma_clauses_from_evaluable(p, j);
                let rest = clauses_from(p, j);
                if MIN_SENTENCE_CHARS <= j - i <= MAX_SENTENCE_CHARS {
                    let first = (p.subrange(i, j), last_chars_spec(p.take(i), MAX_CONTEXT_CHARS as nat));
                    assert(evaluable(first)) by {
                        assert forall|k: int| 0 <= k < first.0.len() implies is_han_spec(#[trigger] first.0[k]) by {
                            assert(first.0[k] == p[i + k]);
                        }
                    }
                    assert forall|k: int| 0 <= k < clauses_from(p, i).len() implies evaluable(
                        #[trigger] clauses_from(p, i)[k],
                    ) by {
                        if k > 0 {
                            assert(clauses_from(p, i)[k] == rest[k - 1]);
                        }
                    }
                } else {
                    assert(clauses_from(p, i) == rest);
                }
            }
        }
    }
}

proof fn lemma_clauses_of_lines_evaluable(ls: Seq<Seq<char>>)
    ensures
        forall|k: int|
            0 <= k < clauses_of_lines(ls).len() ==> evaluable(#[trigger] clauses_of_lines(ls)[k]),
    decreases ls.len(),
{
    if ls.len() > 0 {
        lemma_clauses_from_evaluable(trim(ls[0]), 0);
        lemma_clauses_of_lines_evaluable(ls.drop_first());
        let a = clauses_from(trim(ls[0]), 0);
        let b = clauses_of_lines(ls.drop_first());
        assert forall|k: int| 0 <= k < clauses_of_lines(ls).len() implies evaluable(
            #[trigger] clauses_of_lines(ls)[k],
        ) by {
            if k < a.len() {
                assert(clauses_of_lines(ls)[k] == a[k]);
            } else {
                assert(clauses_of_lines(ls)[k] == b[k - a.len()]);
            }
        }
    }
}

/// Every sentence extracted from a text can be evaluated: it is made of Han characters
/// only, three to twenty of them, and carries at most sixty-four characters of context.
pub proof fn lemma_extracted_are_evaluable(text: Seq<char>)
    ensures
        forall|k: int| 0 <= k < extracted(text).len() ==> evaluable(#[trigger] extracted(text)[k]),
{
    lemma_clauses_of_lines_evaluable(lines(text));
}

/// Whether `c` is a clause of paragraph `p` taken at position `i` with the text right
/// before it as its context: its text stands in `p` from `i` on, and its context is what
/// `p` holds before `i`, all of it up to [`MAX_CONTEXT_CHARS`] characters and otherwise
/// the last [`MAX_CONTEXT_CHARS`] of them.
pub open spec fn taken_at(p: Seq<char>, c: (Seq<char>, Seq<char>), i: int) -> bool {
    &&& 0 <= i
    &&& i + c.0.len() <= p.len()
    &&& p.subrange(i, i + c.0.len()) == c.0
    &&& c.1.len() == if i <= MAX_CONTEXT_CHARS {
        i
    } else {
        MAX_CONTEXT_CHARS as int
    }
    &&& p.take(i - c.1.len()) + c.1 == p.take(i)
}

/// Whether `c` is a clause of paragraph `p` taken somewhere in it, with the text right
/// before it as its context (see [`taken_at`]).
pub open spec fn taken_from(p: Seq<char>, c: (Seq<char>, Seq<char>)) -> bool {
    exists|t: int| taken_at(p, c, t)
}

proof fn lemma_clauses_from_taken(p: Seq<char>, i: int)
    ensures
        forall|k: int| 0 <= k < clauses_from(p, i).len() ==> taken_from(p, #[trigger] clauses_from(p, i)[k]),
    decreases p.len() - i,
{
    if 0 <= i < p.len() {
        if !is_han_spec(p[i]) {
            lemma_clauses_from_taken(p, i + 1);
            assert(clauses_from(p, i) == clauses_from(p, i + 1));
        } else {
            lemma_run_is_han(p, i);
            let j = run_end(p, i);
            if i < j <= p.len() {
                lemma_clauses_from_taken(p, j);
                let rest = clauses_from(p, j);
                if MIN_SENTENCE_CHARS <= j - i <= MAX_SENTENCE_CHARS {
                    let first = (p.subrange(i, j), last_chars_spec(p.take(i), MAX_CONTEXT_CHARS as nat));
                    lemma_last_chars_is_suffix(p.take(i), MAX_CONTEXT_CHARS as nat);
                    assert(p.take(i).take(i - first.1.len()) =~= p.take(i - first.1.len()));
                    assert(taken_at(p, first, i));
                    assert forall|k: int| 0 <= k < clauses_from(p, i).len() implies taken_from(
                        p,
                        #[trigger] clauses_from(p, i)[k],
                    ) by {
                        if k > 0 {
                            assert(clauses_from(p, i)[k] == rest[k - 1]);
                        } else {
                            assert(clauses_from(p, i)[k] == first);
                        }
                    }
                } else {
                    assert(clauses_from(p, i) == rest);
                }
            }
        }
    }
}

/// Whether `c` is a clause of one of the trimmed paragraphs `ls`, with the text right
/// before it in that paragraph as its context.
pub open spec fn taken_from_lines(ls: Seq<Seq<char>>, c: (Seq<char>, Seq<char>)) -> bool {
    exists|l: int| 0 <= l < ls.len() && #[trigger] taken_from(trim(ls[l]), c)
}

proof fn lemma_clauses_of_lines_taken(ls: Seq<Seq<char>>)
    ensures
        forall|k: int|
            0 <= k < clauses_of_lines(ls).len() ==> taken_from_lines(ls, #[trigger] clauses_of_lines(ls)[k]),
    decreases ls.len(),
{
    if ls.len() > 0 {
        lemma_clauses_from_taken(trim(ls[0]), 0);
        lemma_clauses_of_lines_taken(ls.drop_first());
        let a = clauses_from(trim(ls[0]), 0);
        let b = clauses_of_lines(ls.drop_first());
        assert forall|k: int| 0 <= k < clauses_of_lines(ls).len() implies taken_from_lines(
            ls,
            #[trigger] clauses_of_lines(ls)[k],
        ) by {
            let c = clauses_of_lines(ls)[k];
            if k < a.len() {
                assert(c == a[k]);
                assert(taken_from(trim(ls[0]), c));
            } else {
                assert(c == b[k - a.len()]);
                assert(taken_from_lines(ls.drop_first(), b[k - a.len()]));
                let l = choose|l: int|
                    0 <= l < ls.drop_first().len() && #[trigger] taken_from(trim(ls.drop_first()[l]), c);
                assert(ls.drop_first()[l] == ls[l + 1]);
                assert(taken_from(trim(ls[l + 1]), c));
            }
        }
    }
}

/// Every extracted sentence is a clause of one of the text's (trimmed) paragraphs, and
/// its context is the text right before it in that paragraph: all of it when there are
/// at most [`MAX_CONTEXT_CHARS`] characters, otherwise the last [`MAX_CONTEXT_CHARS`].
pub proof fn lemma_extracted_context_precedes(text: Seq<char>)
    ensures
        forall|k: int|
            0 <= k < extracted(text).len() ==> taken_from_lines(lines(text), #[trigger] extracted(text)[k]),
{
    lemma_clauses_of_lines_taken(lines(text));
}

} // verus!
