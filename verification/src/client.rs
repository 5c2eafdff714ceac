//! The text client (the application the user types into): which ranges of its text are
//! read as context, and where the caret of the marked text goes.

use vstd::prelude::*;

use crate::text::chars_of;

verus! {

/// `NSNotFound`: a range location that means "no range".
pub open spec fn not_found() -> usize {
    isize::MAX as usize
}

/// The character ranges `(location, length)` read around the caret: up to `before`
/// characters before the marked text (or the selection when nothing is marked) and up to
/// `after` characters after it, clipped to the text's `length`. `None` when the client
/// has no selection or no text.
pub open spec fn context_ranges_spec(
    length: usize,
    selected: (usize, usize),
    marked: (usize, usize),
    before: usize,
    after: usize,
) -> Option<((int, int), (int, int))> {
    if selected.0 == not_found() || length == 0 {
        None
    } else {
        let range = if marked.0 == not_found() {
            selected
        } else {
            marked
        };
        let start = if range.0 <= length {
            range.0 as int
        } else {
            length as int
        };
        let end = if range.0 + range.1 <= length {
            range.0 + range.1
        } else {
            length as int
        };
        let from = if start >= before {
            start - before
        } else {
            0
        };
        Some(((from, start - from), (end, if after <= length - end { after as int } else { length - end })))
    }
}

/// Computes [`context_ranges_spec`].
pub fn context_ranges(
    length: usize,
    selected: (usize, usize),
    marked: (usize, usize),
    before: usize,
    after: usize,
) -> (r: Option<((usize, usize), (usize, usize))>)
    requires
        marked.0 == not_found() ==> selected.0 + selected.1 <= usize::MAX,
        marked.0 != not_found() ==> marked.0 + marked.1 <= usize::MAX,
    ensures
        match (r, context_ranges_spec(length, selected, marked, before, after)) {
            (Some((b, a)), Some((sb, sa))) => b.0 == sb.0 && b.1 == sb.1 && a.0 == sa.0 && a.1
                == sa.1,
            (None, None) => true,
            _ => false,
        },
        r matches Some((b, a)) ==> b.0 + b.1 <= a.0 && a.0 + a.1 <= length,
{
    let nf = isize::MAX as usize;
    if selected.0 == nf || length == 0 {
        return None;
    }
    let (start, end) = if marked.0 == nf {
        (selected.0, selected.0 + selected.1)
    } else {
        (marked.0, marked.0 + marked.1)
    };
    let start = if start <= length {
        start
    } else {
        length
    };
    let end = if end <= length {
        end
    } else {
        length
    };
    let from = start.saturating_sub(before);
    let before_range = (from, start - from);
    let after_range = (end, if after <= length - end {
        after
    } else {
        length - end
    });
    Some((before_range, after_range))
}

/// Where the caret of the marked text goes: at `cursor`, but not past the text's end.
pub fn marked_caret(text: &str, cursor: usize) -> (c: usize)
    ensures
        c == if cursor <= text@.len() {
            cursor as int
        } else {
            text@.len() as int
        },
{
    let n = chars_of(text).len();
    if cursor <= n {
        cursor
    } else {
        n
    }
}

/// Whether the selection `(location, length)` is worth reading for a translation: there is
/// one, it is not empty, and it holds at most `max_chars` characters.
pub fn selection_readable(selected: (usize, usize), max_chars: usize) -> (b: bool)
    ensures
        b == (selected.0 != not_found() && selected.1 != 0 && selected.1 <= max_chars),
{
    let nf = isize::MAX as usize;
    selected.0 != nf && selected.1 != 0 && selected.1 <= max_chars
}

} // verus!
