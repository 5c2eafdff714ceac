//! The interactive mode of the command-line tool: pinyin is looked up, a number commits
//! that candidate, `:raw` commits the last input as typed, `:del N` forgets a candidate,
//! `:q` quits. This module reads the lines; the engine work is the shell's.

use vstd::prelude::*;

use crate::text::{chars_of, has_prefix, range_has_prefix, same_text, string_of_range, trim, trim_bounds};

verus! {

/// The value of a run of decimal digits.
pub open spec fn digits_value(s: Seq<char>) -> int
    decreases s.len(),
{
    if s.len() == 0 {
        0
    } else {
        digits_value(s.drop_last()) * 10 + (s.last() as int - '0' as int)
    }
}

/// Whether every character is an ASCII digit.
pub open spec fn all_digits(s: Seq<char>) -> bool {
    forall|i: int| 0 <= i < s.len() ==> '0' <= #[trigger] s[i] <= '9'
}

/// What `str::parse::<usize>` accepts: an optional `+`, then one or more ASCII digits
/// whose value fits in `usize`.
pub open spec fn parsed_usize(s: Seq<char>) -> Option<usize> {
    let digits = if s.len() > 0 && s[0] == '+' {
        s.drop_first()
    } else {
        s
    };
    if digits.len() > 0 && all_digits(digits) && digits_value(digits) <= usize::MAX {
        Some(digits_value(digits) as usize)
    } else {
        None
    }
}

proof fn lemma_digits_value_grows(s: Seq<char>, i: int)
    requires
        all_digits(s),
        0 <= i <= s.len(),
    ensures
        digits_value(s.take(i)) <= digits_value(s),
        0 <= digits_value(s.take(i)),
    decreases s.len() - i,
{
    if i < s.len() {
        lemma_digits_value_grows(s, i + 1);
        assert(s.take(i + 1).drop_last() =~= s.take(i));
        assert(s.take(i + 1).last() == s[i]);
    } else {
        assert(s.take(i) =~= s);
        lemma_digits_nonnegative(s);
    }
}

proof fn lemma_digits_nonnegative(s: Seq<char>)
    requires
        all_digits(s),
    ensures
        0 <= digits_value(s),
    decreases s.len(),
{
    if s.len() > 0 {
        assert(all_digits(s.drop_last())) by {
            assert forall|i: int| 0 <= i < s.drop_last().len() implies '0' <= #[trigger] s.drop_last()[i]
                <= '9' by {
                assert(s.drop_last()[i] == s[i]);
            }
        }
        lemma_digits_nonnegative(s.drop_last());
    }
}

/// Reads a decimal number the way `str::parse::<usize>` does.
pub fn parse_usize(s: &str) -> (r: Option<usize>)
    ensures
        r == parsed_usize(s@),
{
    let cs = chars_of(s);
    let start: usize = if cs.len() > 0 && cs[0] == '+' {
        1
    } else {
        0
    };
    let ghost digits = if s@.len() > 0 && s@[0] == '+' {
        s@.drop_first()
    } else {
        s@
    };
    assert(cs@.skip(start as int) =~= digits);
    if start == cs.len() {
        return None;
    }
    let mut value: usize = 0;
    let mut i = start;
    while i < cs.len()
        invariant
            start <= i <= cs@.len(),
            cs@ == s@,
            digits == (if s@.len() > 0 && s@[0] == '+' {
                s@.drop_first()
            } else {
                s@
            }),
            cs@.skip(start as int) == digits,
            digits.len() > 0,
            all_digits(cs@.subrange(start as int, i as int)),
            value == digits_value(cs@.subrange(start as int, i as int)),
        decreases cs.len() - i,
    {
        let c = cs[i];
        let ghost before = cs@.subrange(start as int, i as int);
        let ghost after = cs@.subrange(start as int, i + 1);
        assert(after.drop_last() =~= before);
        assert(after.last() == c);
        if c < '0' || c > '9' {
            proof {
                assert(digits[i - start] == c);
            }
            return None;
        }
        assert(all_digits(after));
        let d = (c as u32 - '0' as u32) as usize;
        if value > (usize::MAX - d) / 10 {
            proof {
                assert(digits_value(after) > usize::MAX) by (nonlinear_arith)
                    requires
                        digits_value(after) == value * 10 + d,
                        value > (usize::MAX - d) / 10,
                        d <= 9,
                ;
                assert(digits.take(i + 1 - start) =~= after);
                lemma_digits_prefix_bound(digits, i + 1 - start);
            }
            return None;
        }
        value = value * 10 + d;
        i = i + 1;
    }
    assert(cs@.subrange(start as int, cs@.len() as int) =~= digits);
    Some(value)
}

/// A prefix of digits is worth no more than the whole run, when the whole run is digits.
proof fn lemma_digits_prefix_bound(s: Seq<char>, i: int)
    requires
        0 <= i <= s.len(),
        all_digits(s.take(i)),
    ensures
        all_digits(s) ==> digits_value(s.take(i)) <= digits_value(s),
{
    if all_digits(s) {
        lemma_digits_value_grows(s, i);
    }
}

/// What a line of the interactive mode asks for.
#[derive(Debug, Clone, PartialEq, Eq)]
pub enum ReplCommand {
    /// A blank line: nothing.
    Skip,
    /// `:q` or `:quit`.
    Quit,
    /// A number: commit that candidate of the last query (counted from 1).
    Commit(usize),
    /// `:raw`: commit the last input as typed.
    Raw,
    /// `:del N`: forget that candidate of the last query (counted from 1).
    Forget(usize),
    /// Anything else: pinyin to look up.
    Query(String),
}

/// The command a line stands for, after trimming it; `None` for a lookup of the trimmed
/// line.
pub open spec fn command_of(line: Seq<char>) -> Option<ReplCommand> {
    let t = trim(line);
    let del = ":del "@;
    if t.len() == 0 {
        Some(ReplCommand::Skip)
    } else if t == ":q"@ || t == ":quit"@ {
        Some(ReplCommand::Quit)
    } else if parsed_usize(t) is Some {
        Some(ReplCommand::Commit(parsed_usize(t)->0))
    } else if t == ":raw"@ {
        Some(ReplCommand::Raw)
    } else if has_prefix(t, del) && parsed_usize(
        trim(t.skip(del.len() as int)),
    ) is Some {
        Some(ReplCommand::Forget(parsed_usize(trim(t.skip(del.len() as int)))->0))
    } else {
        None
    }
}

/// Reads a line of the interactive mode.
pub fn parse_command(line: &str) -> (c: ReplCommand)
    ensures
        match command_of(line@) {
            Some(k) => c == k,
            None => c matches ReplCommand::Query(q) && q@ == trim(line@),
        },
{
    let cs = chars_of(line);
    let (a, b) = trim_bounds(&cs, 0, cs.len());
    assert(cs@.subrange(0, cs@.len() as int) =~= cs@);
    let t = string_of_range(&cs, a, b);
    proof {
        reveal_strlit(":del ");
    }
    if a == b {
        return ReplCommand::Skip;
    }
    if same_text(t.as_str(), ":q") || same_text(t.as_str(), ":quit") {
        return ReplCommand::Quit;
    }
    if let Some(index) = parse_usize(t.as_str()) {
        return ReplCommand::Commit(index);
    }
    if same_text(t.as_str(), ":raw") {
        return ReplCommand::Raw;
    }
    let tc = chars_of(t.as_str());
    let del = chars_of(":del ");
    if range_has_prefix(&tc, 0, tc.len(), &del) {
        assert(tc@.subrange(0, tc@.len() as int) =~= tc@);
        let (c, d) = trim_bounds(&tc, del.len(), tc.len());
        let rest = string_of_range(&tc, c, d);
        assert(tc@.subrange(del.len() as int, tc@.len() as int) =~= tc@.skip(del.len() as int));
        if let Some(index) = parse_usize(rest.as_str()) {
            return ReplCommand::Forget(index);
        }
    } else {
        assert(tc@.subrange(0, tc@.len() as int) =~= tc@);
    }
    ReplCommand::Query(t)
}

/// The place of the `index`-th candidate (counted from 1) among `count`; none for 0 or
/// past the end.
pub fn candidate_at(index: usize, count: usize) -> (r: Option<usize>)
    ensures
        r == if 1 <= index <= count {
            Some((index - 1) as usize)
        } else {
            None::<usize>
        },
{
    if index >= 1 && index <= count {
        Some(index - 1)
    } else {
        None
    }
}

/// An input with a `|` marking where the cursor stands (`ni|hao`): the input without the
/// marks, and the cursor at the first mark, counted in characters.
pub open spec fn without_bars(s: Seq<char>) -> Seq<char> {
    s.filter(|c: char| c != '|')
}

/// Splits off the cursor mark of a lookup: the pinyin without `|`, and how many
/// characters stand before the first `|`.
pub fn split_cursor(input: &str) -> (r: (String, Option<usize>))
    ensures
        r.0@ == without_bars(input@),
        match r.1 {
            Some(k) => k < input@.len() && input@[k as int] == '|' && forall|j: int|
                0 <= j < k ==> input@[j] != '|',
            None => forall|j: int| 0 <= j < input@.len() ==> input@[j] != '|',
        },
{
    let cs = chars_of(input);
    let mut out = String::new();
    let mut cursor: Option<usize> = None;
    let mut i: usize = 0;
    while i < cs.len()
        invariant
            i <= cs@.len(),
            cs@ == input@,
            out@ == without_bars(cs@.take(i as int)),
            match cursor {
                Some(k) => k < i && cs@[k as int] == '|' && forall|j: int| 0 <= j < k ==> cs@[j] != '|',
                None => forall|j: int| 0 <= j < i ==> cs@[j] != '|',
            },
        decreases cs.len() - i,
    {
        proof {
            reveal(Seq::filter);
            assert(cs@.take(i + 1).drop_last() =~= cs@.take(i as int));
            assert(cs@.take(i + 1).last() == cs@[i as int]);
        }
        if cs[i] == '|' {
            if cursor.is_none() {
                cursor = Some(i);
            }
        } else {
            crate::text::push_char(&mut out, cs[i]);
        }
        i = i + 1;
    }
    assert(cs@.take(cs@.len() as int) =~= cs@);
    (out, cursor)
}

} // verus!
