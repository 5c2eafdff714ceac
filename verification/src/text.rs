//! Character-level helpers shared by the text-processing modules: the views of
//! `str::trim`, `str::lines` and `str::split`, and the loops that compute them.

use vstd::prelude::*;

verus! {

/// Unicode `White_Space`, the set that `char::is_whitespace` and `str::trim` use.
pub open spec fn is_space(c: char) -> bool {
    let u = c as u32;
    ||| 0x09 <= u <= 0x0D
    ||| u == 0x20
    ||| u == 0x85
    ||| u == 0xA0
    ||| u == 0x1680
    ||| 0x2000 <= u <= 0x200A
    ||| u == 0x2028
    ||| u == 0x2029
    ||| u == 0x202F
    ||| u == 0x205F
    ||| u == 0x3000
}

/// `s` without its leading white space.
pub open spec fn trim_start(s: Seq<char>) -> Seq<char>
    decreases s.len(),
{
    if s.len() > 0 && is_space(s[0]) {
        trim_start(s.drop_first())
    } else {
        s
    }
}

/// `s` without its trailing white space.
pub open spec fn trim_end(s: Seq<char>) -> Seq<char>
    decreases s.len(),
{
    if s.len() > 0 && is_space(s.last()) {
        trim_end(s.drop_last())
    } else {
        s
    }
}

/// `s` without leading and trailing white space (`str::trim`).
pub open spec fn trim(s: Seq<char>) -> Seq<char> {
    trim_end(trim_start(s))
}

/// The first position at or after `i` that holds `c`, or `s.len()` when there is none.
pub open spec fn find_from(s: Seq<char>, c: char, i: int) -> int
    decreases s.len() - i,
{
    if i < 0 {
        find_from(s, c, 0)
    } else if i >= s.len() {
        s.len() as int
    } else if s[i] == c {
        i
    } else {
        find_from(s, c, i + 1)
    }
}

/// The pieces of `s` between occurrences of `sep` (`str::split` with a char pattern):
/// always at least one piece.
pub open spec fn split_on(s: Seq<char>, sep: char) -> Seq<Seq<char>>
    decreases s.len(),
{
    let k = find_from(s, sep, 0);
    if 0 <= k < s.len() {
        seq![s.take(k)] + split_on(s.skip(k + 1), sep)
    } else {
        seq![s]
    }
}

/// A line that ended at a newline loses a `'\r'` that stood before it.
pub open spec fn strip_cr(line: Seq<char>) -> Seq<char> {
    if line.len() > 0 && line.last() == '\r' {
        line.drop_last()
    } else {
        line
    }
}

/// The lines of `s` (`str::lines`): split at `'\n'`, a `"\r\n"` ending counts as one,
/// and a final line ending does not start an empty last line.
pub open spec fn lines(s: Seq<char>) -> Seq<Seq<char>>
    decreases s.len(),
{
    if s.len() == 0 {
        Seq::empty()
    } else {
        let k = find_from(s, '\n', 0);
        if 0 <= k < s.len() {
            seq![strip_cr(s.take(k))] + lines(s.skip(k + 1))
        } else {
            seq![s]
        }
    }
}

/// Whether `c` is white space in the sense of [`is_space`].
pub fn is_whitespace(c: char) -> (b: bool)
    ensures
        b == is_space(c),
{
    let u = c as u32;
    (0x09 <= u && u <= 0x0D) || u == 0x20 || u == 0x85 || u == 0xA0 || u == 0x1680 || (0x2000
        <= u && u <= 0x200A) || u == 0x2028 || u == 0x2029 || u == 0x202F || u == 0x205F || u
        == 0x3000
}

pub proof fn lemma_find_from_bounds(s: Seq<char>, c: char, i: int)
    requires
        0 <= i <= s.len(),
    ensures
        i <= find_from(s, c, i) <= s.len(),
        find_from(s, c, i) < s.len() ==> s[find_from(s, c, i)] == c,
        forall|j: int| i <= j < find_from(s, c, i) ==> s[j] != c,
    decreases s.len() - i,
{
    if i < s.len() && s[i] != c {
        lemma_find_from_bounds(s, c, i + 1);
    }
}

/// A position is what `find_from` gives when it holds `c` (or is the end) and nothing
/// between the start and it does.
pub proof fn lemma_find_from_is(s: Seq<char>, c: char, i: int, k: int)
    requires
        0 <= i <= k <= s.len(),
        k < s.len() ==> s[k] == c,
        forall|j: int| i <= j < k ==> s[j] != c,
    ensures
        find_from(s, c, i) == k,
    decreases k - i,
{
    if i < k {
        lemma_find_from_is(s, c, i + 1, k);
    }
}

/// Searching a suffix is searching the whole from the suffix's start.
pub proof fn lemma_find_from_skip(s: Seq<char>, c: char, d: int)
    requires
        0 <= d <= s.len(),
    ensures
        find_from(s.skip(d), c, 0) == find_from(s, c, d) - d,
{
    lemma_find_from_bounds(s, c, d);
    let k = find_from(s, c, d);
    lemma_find_from_is(s.skip(d), c, 0, k - d);
}

/// The first position at or after `from` (and before `to`) that holds `c`, or `to`.
pub fn find_char(cs: &Vec<char>, c: char, from: usize, to: usize) -> (k: usize)
    requires
        from <= to <= cs.len(),
    ensures
        from <= k <= to,
        k == find_from(cs@.take(to as int), c, from as int),
{
    let mut k = from;
    while k < to && cs[k] != c
        invariant
            from <= k <= to <= cs.len(),
            forall|j: int| from <= j < k ==> cs@[j] != c,
        decreases to - k,
    {
        k = k + 1;
    }
    proof {
        lemma_find_from_is(cs@.take(to as int), c, from as int, k as int);
    }
    k
}

pub proof fn lemma_trim_start_step(s: Seq<char>)
    requires
        s.len() > 0,
        is_space(s[0]),
    ensures
        trim_start(s) == trim_start(s.drop_first()),
{
}

pub proof fn lemma_trim_end_step(s: Seq<char>)
    requires
        s.len() > 0,
        is_space(s.last()),
    ensures
        trim_end(s) == trim_end(s.drop_last()),
{
}

/// Where `trim_start` applied to `cs[from..to]` begins.
pub fn trim_start_bound(cs: &Vec<char>, from: usize, to: usize) -> (a: usize)
    requires
        from <= to <= cs.len(),
    ensures
        from <= a <= to,
        cs@.subrange(a as int, to as int) == trim_start(cs@.subrange(from as int, to as int)),
{
    let mut a = from;
    while a < to && is_whitespace(cs[a])
        invariant
            from <= a <= to <= cs.len(),
            trim_start(cs@.subrange(from as int, to as int)) == trim_start(
                cs@.subrange(a as int, to as int),
            ),
        decreases to - a,
    {
        proof {
            let s = cs@.subrange(a as int, to as int);
            assert(s.drop_first() =~= cs@.subrange(a + 1, to as int));
            lemma_trim_start_step(s);
        }
        a = a + 1;
    }
    a
}

/// Where `trim_end` applied to `cs[from..to]` ends.
pub fn trim_end_bound(cs: &Vec<char>, from: usize, to: usize) -> (b: usize)
    requires
        from <= to <= cs.len(),
    ensures
        from <= b <= to,
        cs@.subrange(from as int, b as int) == trim_end(cs@.subrange(from as int, to as int)),
{
    let mut b = to;
    while b > from && is_whitespace(cs[b - 1])
        invariant
            from <= b <= to <= cs.len(),
            trim_end(cs@.subrange(from as int, to as int)) == trim_end(
                cs@.subrange(from as int, b as int),
            ),
        decreases b - from,
    {
        proof {
            let s = cs@.subrange(from as int, b as int);
            assert(s.drop_last() =~= cs@.subrange(from as int, b - 1));
            lemma_trim_end_step(s);
        }
        b = b - 1;
    }
    proof {
        let s = cs@.subrange(from as int, b as int);
        if s.len() > 0 {
            assert(s.last() == cs@[b - 1]);
        }
    }
    b
}

/// The bounds `[a, b)` of `trim` applied to `cs[from..to]`.
pub fn trim_bounds(cs: &Vec<char>, from: usize, to: usize) -> (r: (usize, usize))
    requires
        from <= to <= cs.len(),
    ensures
        from <= r.0 <= r.1 <= to,
        cs@.subrange(r.0 as int, r.1 as int) == trim(cs@.subrange(from as int, to as int)),
{
    let mut a = from;
    while a < to && is_whitespace(cs[a])
        invariant
            from <= a <= to <= cs.len(),
            trim_start(cs@.subrange(from as int, to as int)) == trim_start(
                cs@.subrange(a as int, to as int),
            ),
        decreases to - a,
    {
        proof {
            let s = cs@.subrange(a as int, to as int);
            assert(s.drop_first() =~= cs@.subrange(a + 1, to as int));
            lemma_trim_start_step(s);
        }
        a = a + 1;
    }
    let mut b = to;
    while b > a && is_whitespace(cs[b - 1])
        invariant
            from <= a <= b <= to <= cs.len(),
            trim_end(cs@.subrange(a as int, to as int)) == trim_end(
                cs@.subrange(a as int, b as int),
            ),
        decreases b - a,
    {
        proof {
            let s = cs@.subrange(a as int, b as int);
            assert(s.drop_last() =~= cs@.subrange(a as int, b - 1));
            lemma_trim_end_step(s);
        }
        b = b - 1;
    }
    (a, b)
}

/// Appends one character to a string (std `String::push`).
#[verifier::external_body]
pub(crate) fn push_char(s: &mut String, c: char)
    ensures
        final(s)@ == old(s)@.push(c),
{
    s.push(c);
}

/// The characters of a string slice, in order.
pub fn chars_of(s: &str) -> (out: Vec<char>)
    ensures
        out@ == s@,
{
    let mut out: Vec<char> = Vec::new();
    for c in it: s.chars()
        invariant
            out@ == it.seq().take(it.index() as int),
    {
        out.push(c);
    }
    out
}

/// Appends `cs[from..to]` to `out`.
pub fn push_range(out: &mut String, cs: &Vec<char>, from: usize, to: usize)
    requires
        from <= to <= cs.len(),
    ensures
        final(out)@ == old(out)@ + cs@.subrange(from as int, to as int),
{
    let ghost start = out@;
    let mut i = from;
    while i < to
        invariant
            from <= i <= to <= cs.len(),
            out@ == start + cs@.subrange(from as int, i as int),
        decreases to - i,
    {
        push_char(out, cs[i]);
        assert(cs@.subrange(from as int, i as int).push(cs@[i as int]) =~= cs@.subrange(
            from as int,
            i + 1,
        ));
        i = i + 1;
    }
}

/// The string made of `cs[from..to]`.
pub fn string_of_range(cs: &Vec<char>, from: usize, to: usize) -> (out: String)
    requires
        from <= to <= cs.len(),
    ensures
        out@ == cs@.subrange(from as int, to as int),
{
    let mut out = String::new();
    push_range(&mut out, cs, from, to);
    assert(Seq::<char>::empty() + cs@.subrange(from as int, to as int) =~= cs@.subrange(
        from as int,
        to as int,
    ));
    out
}

/// Appends all of `s` to `out`.
pub fn push_str(out: &mut String, s: &str)
    ensures
        final(out)@ == old(out)@ + s@,
{
    let cs = chars_of(s);
    push_range(out, &cs, 0, cs.len());
    assert(cs@.subrange(0, cs@.len() as int) =~= s@);
}


/// Whether `s` begins with `prefix`.
pub open spec fn has_prefix(s: Seq<char>, prefix: Seq<char>) -> bool {
    prefix.len() <= s.len() && s.take(prefix.len() as int) == prefix
}

/// Whether `cs[from..to]` begins with the characters of `prefix`.
pub fn range_has_prefix(cs: &Vec<char>, from: usize, to: usize, prefix: &Vec<char>) -> (b: bool)
    requires
        from <= to <= cs.len(),
    ensures
        b == has_prefix(cs@.subrange(from as int, to as int), prefix@),
{
    if prefix.len() > to - from {
        return false;
    }
    let mut i: usize = 0;
    while i < prefix.len()
        invariant
            i <= prefix.len() <= to - from,
            from <= to <= cs.len(),
            forall|j: int| 0 <= j < i ==> cs@[from + j] == prefix@[j],
        decreases prefix.len() - i,
    {
        if cs[from + i] != prefix[i] {
            assert(cs@.subrange(from as int, to as int).take(prefix.len() as int)[i as int]
                != prefix@[i as int]);
            return false;
        }
        i = i + 1;
    }
    assert(cs@.subrange(from as int, to as int).take(prefix.len() as int) =~= prefix@);
    true
}

/// Whether two texts are the same.
pub fn same_text(a: &str, b: &str) -> (r: bool)
    ensures
        r == (a@ == b@),
{
    let x = chars_of(a);
    let y = chars_of(b);
    if x.len() != y.len() {
        return false;
    }
    let mut i: usize = 0;
    while i < x.len()
        invariant
            i <= x.len() == y.len(),
            x@ == a@,
            y@ == b@,
            forall|j: int| 0 <= j < i ==> x@[j] == y@[j],
        decreases x.len() - i,
    {
        if x[i] != y[i] {
            assert(a@[i as int] != b@[i as int]);
            return false;
        }
        i = i + 1;
    }
    assert(x@ =~= y@);
    true
}

/// `n` spaces.
pub open spec fn spaces(n: nat) -> Seq<char> {
    Seq::new(n, |i: int| ' ')
}

/// `s` padded with spaces on the right to `width` characters (`{:<width}`).
pub open spec fn padded(s: Seq<char>, width: nat) -> Seq<char> {
    if s.len() >= width {
        s
    } else {
        s + spaces((width - s.len()) as nat)
    }
}

/// Appends `s` padded on the right to `width` characters.
pub fn push_padded(out: &mut String, s: &str, width: usize)
    ensures
        final(out)@ == old(out)@ + padded(s@, width as nat),
{
    let n = chars_of(s).len();
    push_str(out, s);
    if n < width {
        let mut k = n;
        while k < width
            invariant
                n == s@.len(),
                n <= k <= width,
                out@ == old(out)@ + s@ + spaces((k - n) as nat),
            decreases width - k,
        {
            push_char(out, ' ');
            proof {
                assert(spaces((k - n) as nat).push(' ') =~= spaces((k + 1 - n) as nat));
            }
            k = k + 1;
        }
        assert(old(out)@ + s@ + spaces((width - n) as nat) =~= old(out)@ + (s@ + spaces(
            (width - n) as nat,
        )));
    } else {
        assert(spaces(0) =~= Seq::<char>::empty());
    }
}

/// The pieces joined by `sep` (`[..].join(sep)`).
pub open spec fn joined(parts: Seq<Seq<char>>, sep: Seq<char>) -> Seq<char>
    decreases parts.len(),
{
    if parts.len() == 0 {
        Seq::empty()
    } else if parts.len() == 1 {
        parts[0]
    } else {
        joined(parts.drop_last(), sep) + sep + parts.last()
    }
}

/// The texts of a run of strings.
pub open spec fn texts(items: Seq<String>) -> Seq<Seq<char>> {
    items.map_values(|s: String| s@)
}

/// Appends the first `count` strings of `items` joined by `sep`.
pub fn push_joined(out: &mut String, items: &Vec<String>, count: usize, sep: &str)
    requires
        count <= items@.len(),
    ensures
        final(out)@ == old(out)@ + joined(texts(items@).take(count as int), sep@),
{
    let mut i: usize = 0;
    while i < count
        invariant
            i <= count <= items@.len(),
            out@ == old(out)@ + joined(texts(items@).take(i as int), sep@),
        decreases count - i,
    {
        if i > 0 {
            push_str(out, sep);
        }
        push_str(out, items[i].as_str());
        proof {
            let ts = texts(items@);
            assert(ts.take(i + 1).drop_last() =~= ts.take(i as int));
            assert(ts.take(i + 1).last() == items@[i as int]@);
            if i == 0 {
                assert(joined(ts.take(0), sep@) =~= Seq::<char>::empty());
            }
        }
        i = i + 1;
    }
}

/// The pieces joined by `'\n'` (`[..].join("\n")`).
pub open spec fn join_lines(ls: Seq<Seq<char>>) -> Seq<char>
    decreases ls.len(),
{
    if ls.len() == 0 {
        Seq::empty()
    } else if ls.len() == 1 {
        ls[0]
    } else {
        join_lines(ls.drop_last()) + seq!['\n'] + ls.last()
    }
}

/// Joining two non-empty runs of pieces puts one `'\n'` between them.
pub proof fn lemma_join_lines_concat(a: Seq<Seq<char>>, b: Seq<Seq<char>>)
    requires
        a.len() > 0,
        b.len() > 0,
    ensures
        join_lines(a + b) == join_lines(a) + seq!['\n'] + join_lines(b),
    decreases b.len(),
{
    if b.len() == 1 {
        assert((a + b).drop_last() =~= a);
    } else {
        lemma_join_lines_concat(a, b.drop_last());
        assert((a + b).drop_last() =~= a + b.drop_last());
        assert(join_lines(a) + seq!['\n'] + join_lines(b.drop_last()) + seq!['\n'] + b.last()
            =~= join_lines(a) + seq!['\n'] + (join_lines(b.drop_last()) + seq!['\n']
            + b.last()));
    }
}

/// The decimal digit of a value below ten.
pub open spec fn digit(d: nat) -> char {
    if d == 0 { '0' } else if d == 1 { '1' } else if d == 2 { '2' } else if d == 3 { '3' }
    else if d == 4 { '4' } else if d == 5 { '5' } else if d == 6 { '6' } else if d == 7 { '7' }
    else if d == 8 { '8' } else { '9' }
}

/// The decimal numeral of `n`, without leading zeros (`n.to_string()`).
pub open spec fn decimal(n: nat) -> Seq<char>
    decreases n,
{
    if n < 10 {
        seq![digit(n)]
    } else {
        decimal(n / 10).push(digit(n % 10))
    }
}

/// A decimal has a digit, and two from ten on.
pub proof fn lemma_decimal_len(n: nat)
    ensures
        decimal(n).len() >= 1,
        n >= 10 ==> decimal(n).len() >= 2,
    decreases n,
{
    if n >= 10 {
        lemma_decimal_len(n / 10);
    }
}

fn digit_char(d: u64) -> (c: char)
    requires
        d < 10,
    ensures
        c == digit(d as nat),
{
    if d == 0 { '0' } else if d == 1 { '1' } else if d == 2 { '2' } else if d == 3 { '3' }
    else if d == 4 { '4' } else if d == 5 { '5' } else if d == 6 { '6' } else if d == 7 { '7' }
    else if d == 8 { '8' } else { '9' }
}

/// Appends the decimal numeral of `n`.
pub fn push_decimal(out: &mut String, n: u64)
    ensures
        final(out)@ == old(out)@ + decimal(n as nat),
    decreases n,
{
    if n < 10 {
        push_char(out, digit_char(n));
        assert(old(out)@.push(digit(n as nat)) =~= old(out)@ + decimal(n as nat));
    } else {
        push_decimal(out, n / 10);
        push_char(out, digit_char(n % 10));
        assert(old(out)@ + decimal((n / 10) as nat) + seq![digit((n % 10) as nat)] =~= old(out)@
            + decimal(n as nat));
    }
}

/// The lines of a text, one step: the first line and the lines after it.
pub proof fn lemma_lines_step(s: Seq<char>, pos: int)
    requires
        0 <= pos < s.len(),
    ensures
        ({
            let k = find_from(s, '\n', pos);
            lines(s.skip(pos)) == if k < s.len() {
                seq![strip_cr(s.subrange(pos, k))] + lines(s.skip(k + 1))
            } else {
                seq![s.skip(pos)]
            }
        }),
{
    let t = s.skip(pos);
    lemma_find_from_skip(s, '\n', pos);
    lemma_find_from_bounds(s, '\n', pos);
    let k = find_from(s, '\n', pos);
    if k < s.len() {
        assert(t.take(k - pos) =~= s.subrange(pos, k));
        assert(t.skip(k - pos + 1) =~= s.skip(k + 1));
    }
}

/// The bounds `[pos, end)` of the line that starts at `pos`, and where the next one starts:
/// `lines(cs[pos..])` is `cs[pos..end]` followed by `lines(cs[next..])`.
pub fn next_line(cs: &Vec<char>, pos: usize) -> (r: (usize, usize))
    requires
        pos < cs.len(),
    ensures
        pos <= r.0 <= r.1 <= cs.len(),
        r.1 > pos,
        lines(cs@.skip(pos as int)) == seq![cs@.subrange(pos as int, r.0 as int)] + lines(
            cs@.skip(r.1 as int),
        ),
{
    let n = cs.len();
    let k = find_char(cs, '\n', pos, n);
    proof {
        assert(cs@.take(n as int) =~= cs@);
        lemma_lines_step(cs@, pos as int);
    }
    let end = if k < n && k > pos && cs[k - 1] == '\r' {
        k - 1
    } else {
        k
    };
    let next = if k < n {
        k + 1
    } else {
        n
    };
    proof {
        let line = cs@.subrange(pos as int, k as int);
        if k < n {
            assert(strip_cr(line) =~= cs@.subrange(pos as int, end as int));
        } else {
            assert(cs@.skip(pos as int) =~= cs@.subrange(pos as int, end as int));
            assert(cs@.skip(n as int) =~= Seq::<char>::empty());
            assert(lines(Seq::<char>::empty()) == Seq::<Seq<char>>::empty());
            assert(seq![cs@.subrange(pos as int, end as int)] + Seq::<Seq<char>>::empty()
                =~= seq![cs@.subrange(pos as int, end as int)]);
        }
    }
    (end, next)
}

} // verus!
