//! One line of a frozen evaluation set: `sentence\tpinyin\tcontext`.

use vstd::prelude::*;

use crate::text::{
    find_char, find_from, is_space, lemma_find_from_bounds, lemma_find_from_is,
    lemma_find_from_skip, split_on, string_of_range, trim, trim_bounds, trim_end, trim_start,
    chars_of, push_str, push_char, strip_cr,
};

verus! {

/// How many characters of preceding text are kept as context.
pub const MAX_CONTEXT_CHARS: usize = 64;

/// One entry of the evaluation set: a Han sentence, its full pinyin, and the real text
/// before it.
#[derive(Debug, Clone, PartialEq, Eq)]
pub struct Pair {
    /// The sentence to restore (Han characters only).
    pub text: String,
    /// Full pinyin without separators, as the user types it.
    pub pinyin: String,
    /// The text before the sentence in its paragraph, at most [`MAX_CONTEXT_CHARS`] characters.
    pub context: String,
}

impl View for Pair {
    type V = (Seq<char>, Seq<char>, Seq<char>);

    open spec fn view(&self) -> (Seq<char>, Seq<char>, Seq<char>) {
        (self.text@, self.pinyin@, self.context@)
    }
}

/// What [`Pair::parse`] reads from a line: the first three tab-separated fields, trimmed;
/// nothing when the second field is missing or either of the first two is empty.
pub open spec fn parse_line(line: Seq<char>) -> Option<(Seq<char>, Seq<char>, Seq<char>)> {
    let fields = split_on(line, '\t');
    if fields.len() < 2 {
        None
    } else {
        let text = trim(fields[0]);
        let pinyin = trim(fields[1]);
        if text.len() == 0 || pinyin.len() == 0 {
            None
        } else {
            Some(
                (
                    text,
                    pinyin,
                    if fields.len() >= 3 {
                        trim(fields[2])
                    } else {
                        Seq::empty()
                    },
                ),
            )
        }
    }
}

/// The line [`Pair::to_line`] writes.
pub open spec fn line_of(text: Seq<char>, pinyin: Seq<char>, context: Seq<char>) -> Seq<char> {
    text + seq!['\t'] + pinyin + seq!['\t'] + context
}

/// A field value that a line can carry unchanged: no tab, nothing to trim.
pub open spec fn is_plain_field(s: Seq<char>) -> bool {
    &&& forall|i: int| 0 <= i < s.len() ==> s[i] != '\t'
    &&& trim(s) == s
}

proof fn lemma_split_step(s: Seq<char>, i: int)
    requires
        0 <= i <= s.len(),
    ensures
        ({
            let k = find_from(s, '\t', i);
            split_on(s.skip(i), '\t') == if k < s.len() {
                seq![s.subrange(i, k)] + split_on(s.skip(k + 1), '\t')
            } else {
                seq![s.subrange(i, s.len() as int)]
            }
        }),
{
    let t = s.skip(i);
    lemma_find_from_skip(s, '\t', i);
    lemma_find_from_bounds(s, '\t', i);
    let k = find_from(s, '\t', i);
    if k < s.len() {
        assert(t.take(k - i) =~= s.subrange(i, k));
        assert(t.skip(k - i + 1) =~= s.skip(k + 1));
    } else {
        assert(t =~= s.subrange(i, s.len() as int));
    }
}

/// Splitting a tab-free piece followed by a tab.
proof fn lemma_split_prefix(a: Seq<char>, rest: Seq<char>)
    requires
        forall|i: int| 0 <= i < a.len() ==> a[i] != '\t',
    ensures
        split_on(a + seq!['\t'] + rest, '\t') == seq![a] + split_on(rest, '\t'),
{
    let s = a + seq!['\t'] + rest;
    lemma_find_from_is(s, '\t', 0, a.len() as int);
    assert(s.take(a.len() as int) =~= a);
    assert(s.skip(a.len() as int + 1) =~= rest);
}

proof fn lemma_split_plain(a: Seq<char>)
    requires
        forall|i: int| 0 <= i < a.len() ==> a[i] != '\t',
    ensures
        split_on(a, '\t') == seq![a],
{
    lemma_find_from_is(a, '\t', 0, a.len() as int);
}

/// `trim_start(s)` drops a run of white space from the front.
proof fn lemma_trim_start_shape(s: Seq<char>) -> (d: int)
    ensures
        0 <= d <= s.len(),
        trim_start(s) == s.skip(d),
        d < s.len() ==> !is_space(s[d]),
    decreases s.len(),
{
    if s.len() > 0 && is_space(s[0]) {
        let d0 = lemma_trim_start_shape(s.drop_first());
        assert(s.drop_first().skip(d0) =~= s.skip(d0 + 1));
        assert(d0 < s.drop_first().len() ==> s.drop_first()[d0] == s[d0 + 1]);
        d0 + 1
    } else {
        assert(s.skip(0) =~= s);
        0
    }
}

/// `trim_end(s)` drops a run of white space from the back.
proof fn lemma_trim_end_shape(s: Seq<char>) -> (e: int)
    ensures
        0 <= e <= s.len(),
        trim_end(s) == s.take(e),
        e > 0 ==> !is_space(s[e - 1]),
    decreases s.len(),
{
    if s.len() > 0 && is_space(s.last()) {
        let e0 = lemma_trim_end_shape(s.drop_last());
        assert(s.drop_last().take(e0) =~= s.take(e0));
        assert(e0 > 0 ==> s.drop_last()[e0 - 1] == s[e0 - 1]);
        e0
    } else {
        assert(s.take(s.len() as int) =~= s);
        s.len() as int
    }
}

/// `trim(s)` is a piece of `s` that starts and ends with a character other than white space.
proof fn lemma_trim_shape(s: Seq<char>) -> (r: (int, int))
    ensures
        0 <= r.0 <= r.1 <= s.len(),
        trim(s) == s.subrange(r.0, r.1),
        r.0 < r.1 ==> !is_space(s[r.0]) && !is_space(s[r.1 - 1]),
{
    let d = lemma_trim_start_shape(s);
    let t = s.skip(d);
    let e = lemma_trim_end_shape(t);
    assert(t.take(e) =~= s.subrange(d, d + e));
    if e > 0 {
        assert(t[0] == s[d]);
        assert(t[e - 1] == s[d + e - 1]);
    }
    (d, d + e)
}

/// Trimming twice is trimming once.
pub proof fn lemma_trim_idempotent(s: Seq<char>)
    ensures
        trim(trim(s)) == trim(s),
{
    let r = lemma_trim_shape(s);
    let y = trim(s);
    if y.len() > 0 {
        assert(y[0] == s[r.0]);
        assert(y.last() == s[r.1 - 1]);
    }
    assert(trim_start(y) == y);
    assert(trim_end(y) == y);
}

/// A trimmed piece of a tab-free text is tab-free.
proof fn lemma_trim_keeps_tab_free(s: Seq<char>)
    requires
        forall|i: int| 0 <= i < s.len() ==> s[i] != '\t',
    ensures
        forall|i: int| 0 <= i < trim(s).len() ==> trim(s)[i] != '\t',
{
    let r = lemma_trim_shape(s);
    assert forall|i: int| 0 <= i < trim(s).len() implies trim(s)[i] != '\t' by {
        assert(trim(s)[i] == s[r.0 + i]);
    }
}

/// The pieces of a split hold no separator.
proof fn lemma_split_pieces_tab_free(s: Seq<char>)
    ensures
        forall|j: int, i: int|
            0 <= j < split_on(s, '\t').len() && 0 <= i < split_on(s, '\t')[j].len()
                ==> split_on(s, '\t')[j][i] != '\t',
    decreases s.len(),
{
    lemma_find_from_bounds(s, '\t', 0);
    let k = find_from(s, '\t', 0);
    if 0 <= k < s.len() {
        lemma_split_pieces_tab_free(s.skip(k + 1));
        let fs = split_on(s, '\t');
        assert forall|j: int, i: int| 0 <= j < fs.len() && 0 <= i < fs[j].len() implies fs[j][i]
            != '\t' by {
            if j > 0 {
                assert(fs[j] == split_on(s.skip(k + 1), '\t')[j - 1]);
            } else {
                assert(fs[0] == s.take(k));
            }
        }
    }
}

/// A line written from plain fields, with a non-empty sentence and pinyin, reads back as
/// the same three fields.
pub proof fn lemma_pair_line_round_trip(text: Seq<char>, pinyin: Seq<char>, context: Seq<char>)
    requires
        is_plain_field(text),
        is_plain_field(pinyin),
        is_plain_field(context),
        text.len() > 0,
        pinyin.len() > 0,
    ensures
        parse_line(line_of(text, pinyin, context)) == Some((text, pinyin, context)),
{
    let rest = pinyin + seq!['\t'] + context;
    assert(line_of(text, pinyin, context) =~= text + seq!['\t'] + rest);
    lemma_split_prefix(text, rest);
    lemma_split_prefix(pinyin, context);
    lemma_split_plain(context);
    let fs = split_on(line_of(text, pinyin, context), '\t');
    assert(fs =~= seq![text, pinyin, context]);
}

/// A line written from a plain sentence and pinyin (not empty) and a context without tabs
/// reads back as the same sentence and pinyin and the context trimmed.
pub proof fn lemma_pair_line_reads_back(text: Seq<char>, pinyin: Seq<char>, context: Seq<char>)
    requires
        is_plain_field(text),
        is_plain_field(pinyin),
        forall|i: int| 0 <= i < context.len() ==> context[i] != '\t',
        text.len() > 0,
        pinyin.len() > 0,
    ensures
        parse_line(line_of(text, pinyin, context)) == Some((text, pinyin, trim(context))),
{
    let rest = pinyin + seq!['\t'] + context;
    assert(line_of(text, pinyin, context) =~= text + seq!['\t'] + rest);
    lemma_split_prefix(text, rest);
    lemma_split_prefix(pinyin, context);
    lemma_split_plain(context);
    let fs = split_on(line_of(text, pinyin, context), '\t');
    assert(fs =~= seq![text, pinyin, context]);
}

/// Whatever a line reads as is written back as a line that reads the same: reading
/// normalizes a line once and for all.
pub proof fn lemma_pair_parse_normalizes(line: Seq<char>)
    requires
        parse_line(line) is Some,
    ensures
        ({
            let (t, p, c) = parse_line(line)->0;
            parse_line(line_of(t, p, c)) == parse_line(line)
        }),
{
    let fs = split_on(line, '\t');
    let (t, p, c) = parse_line(line)->0;
    lemma_split_pieces_tab_free(line);
    lemma_trim_keeps_tab_free(fs[0]);
    lemma_trim_keeps_tab_free(fs[1]);
    lemma_trim_idempotent(fs[0]);
    lemma_trim_idempotent(fs[1]);
    if fs.len() >= 3 {
        lemma_trim_keeps_tab_free(fs[2]);
        lemma_trim_idempotent(fs[2]);
    } else {
        assert(trim_start(Seq::<char>::empty()) == Seq::<char>::empty());
        assert(trim(Seq::<char>::empty()) == Seq::<char>::empty());
    }
    lemma_pair_line_round_trip(t, p, c);
}

impl Pair {
    /// Reads one line of a frozen set: `sentence\tpinyin\tcontext` (the context may be
    /// empty or missing); `None` when the sentence or the pinyin is missing or blank.
    pub fn parse(line: &str) -> (r: Option<Self>)
        ensures
            r matches Some(p) ==> parse_line(line@) == Some(p@),
            r is None ==> parse_line(line@) is None,
    {
        let cs = chars_of(line);
        let n = cs.len();
        let ghost s = cs@;
        assert(s.take(n as int) =~= s);
        proof {
            lemma_split_step(s, 0);
            assert(s.skip(0) =~= s);
        }
        let t1 = find_char(&cs, '\t', 0, n);
        if t1 == n {
            return None;
        }
        let t2 = find_char(&cs, '\t', t1 + 1, n);
        proof {
            lemma_split_step(s, t1 + 1);
        }
        let (a, b) = trim_bounds(&cs, 0, t1);
        let (c, d) = trim_bounds(&cs, t1 + 1, t2);
        if a == b || c == d {
            return None;
        }
        let text = string_of_range(&cs, a, b);
        let pinyin = string_of_range(&cs, c, d);
        let context = if t2 < n {
            let t3 = find_char(&cs, '\t', t2 + 1, n);
            proof {
                lemma_split_step(s, t2 + 1);
            }
            let (e, f) = trim_bounds(&cs, t2 + 1, t3);
            string_of_range(&cs, e, f)
        } else {
            String::new()
        };
        proof {
            let fs = split_on(s, '\t');
            assert(fs[0] == s.subrange(0, t1 as int));
            assert(fs[1] == s.subrange(t1 + 1, t2 as int));
            if t2 < n {
                let t3 = find_from(s, '\t', t2 + 1);
                assert(fs[2] == s.subrange(t2 + 1, t3));
            } else {
                assert(fs.len() == 2);
            }
        }
        Some(Pair { text, pinyin, context })
    }

    /// The line that [`Pair::parse`] reads back: the three fields joined by tabs.
    pub fn to_line(&self) -> (line: String)
        ensures
            line@ == line_of(self.text@, self.pinyin@, self.context@),
    {
        let mut line = String::new();
        push_str(&mut line, self.text.as_str());
        push_char(&mut line, '\t');
        push_str(&mut line, self.pinyin.as_str());
        push_char(&mut line, '\t');
        push_str(&mut line, self.context.as_str());
        assert(line@ =~= line_of(self.text@, self.pinyin@, self.context@));
        line
    }
}

/// A context a line of a sentence set can carry: no tab, no line break, and no carriage
/// return at its end.
pub open spec fn is_context_field(s: Seq<char>) -> bool {
    &&& forall|i: int| 0 <= i < s.len() ==> s[i] != '\t' && s[i] != '\n'
    &&& s.len() > 0 ==> s.last() != '\r'
}

/// A field that a line of a sentence set carries unchanged: plain, and without a line
/// break.
pub open spec fn is_line_field(s: Seq<char>) -> bool {
    &&& is_plain_field(s)
    &&& forall|i: int| 0 <= i < s.len() ==> s[i] != '\n'
}

proof fn lemma_no_break(text: Seq<char>, pinyin: Seq<char>, context: Seq<char>)
    requires
        forall|i: int| 0 <= i < text.len() ==> text[i] != '\n',
        forall|i: int| 0 <= i < pinyin.len() ==> pinyin[i] != '\n',
        forall|i: int| 0 <= i < context.len() ==> context[i] != '\n',
    ensures
        forall|i: int|
            0 <= i < line_of(text, pinyin, context).len() ==> line_of(text, pinyin, context)[i]
                != '\n',
{
    let l = line_of(text, pinyin, context);
    let a = text.len() as int;
    let b = a + 1 + pinyin.len();
    assert forall|i: int| 0 <= i < l.len() implies l[i] != '\n' by {
        if i < a {
            assert(l[i] == text[i]);
        } else if i == a {
            assert(l[i] == '\t');
        } else if i < b {
            assert(l[i] == pinyin[i - a - 1]);
        } else if i == b {
            assert(l[i] == '\t');
        } else {
            assert(l[i] == context[i - b - 1]);
        }
    }
}

proof fn lemma_trimmed_end(s: Seq<char>)
    requires
        trim(s) == s,
        s.len() > 0,
    ensures
        !is_space(s.last()),
{
    let r = lemma_trim_shape(s);
    assert(s.subrange(r.0, r.1).len() == s.len());
    assert(s.last() == s.subrange(r.0, r.1)[r.1 - r.0 - 1]);
}

/// A context that a line carries unchanged can be carried.
pub proof fn lemma_line_field_is_context(s: Seq<char>)
    requires
        is_line_field(s),
    ensures
        is_context_field(s),
{
    if s.len() > 0 {
        lemma_trimmed_end(s);
    }
}

/// The line of three such fields is one line: it holds no line break and does not end with
/// a carriage return.
pub proof fn lemma_line_is_one_line(text: Seq<char>, pinyin: Seq<char>, context: Seq<char>)
    requires
        is_line_field(text),
        is_line_field(pinyin),
        is_context_field(context),
    ensures
        forall|i: int|
            0 <= i < line_of(text, pinyin, context).len() ==> line_of(text, pinyin, context)[i]
                != '\n',
        strip_cr(line_of(text, pinyin, context)) == line_of(text, pinyin, context),
{
    lemma_no_break(text, pinyin, context);
    let l = line_of(text, pinyin, context);
    if context.len() > 0 {
        assert(l.last() == context.last());
    } else {
        assert(l.last() == '\t');
    }
}
} // verus!
