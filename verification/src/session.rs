//! The state of the current input session: the candidate layout, the highlight, the page
//! and the preedit.
//!
//! Where candidates stand (pages, pinned custom phrases, cells kept for cloud words) is
//! decided by the core, which hands over the layout as a run of cells; a cell holds a
//! candidate or nothing. The session keeps the highlight on a real candidate and the page
//! in step with it.

use vstd::prelude::*;

use crate::candidate::Candidate;
use crate::preedit::Preedit;
use crate::text::{decimal, push_decimal, push_str};

verus! {

/// The cells of the last query and how many of them make a page.
pub struct CandidateLayout {
    /// Cell by cell; `None` where no candidate stands (an empty cloud cell, a gap before a
    /// pinned phrase).
    pub cells: Vec<Option<Candidate>>,
    pub page_size: usize,
}

/// Whether cell `i` holds a candidate.
pub open spec fn is_real(cells: Seq<Option<Candidate>>, i: int) -> bool {
    0 <= i < cells.len() && cells[i] is Some
}

/// No cell in `lo..hi` holds a candidate.
pub open spec fn none_real(cells: Seq<Option<Candidate>>, lo: int, hi: int) -> bool {
    forall|j: int| lo <= j < hi ==> !is_real(cells, j)
}

/// `i` is the first cell in `lo..hi` that holds a candidate.
pub open spec fn first_real(cells: Seq<Option<Candidate>>, lo: int, hi: int, i: int) -> bool {
    lo <= i < hi && is_real(cells, i) && none_real(cells, lo, i)
}

/// `i` is the last cell in `lo..hi` that holds a candidate.
pub open spec fn last_real(cells: Seq<Option<Candidate>>, lo: int, hi: int, i: int) -> bool {
    lo <= i < hi && is_real(cells, i) && none_real(cells, i + 1, hi)
}

/// `x` held within `lo..=hi`.
pub open spec fn clamp(x: int, lo: int, hi: int) -> int {
    if x < lo {
        lo
    } else if x > hi {
        hi
    } else {
        x
    }
}

/// The number of pages that `len` cells fill, `size` to a page.
pub open spec fn pages_of(len: int, size: int) -> int {
    if len % size == 0 {
        len / size
    } else {
        len / size + 1
    }
}

/// How many cells page `page` shows: a full page, or what is left at the end, or none past
/// the end.
pub open spec fn page_len(len: int, page: int, size: int) -> int {
    let start = page * size;
    let end = if start + size < len {
        start + size
    } else {
        len
    };
    if start < end {
        end - start
    } else {
        0
    }
}

/// The end of page `page`: where the next page starts, or the end of the layout.
pub open spec fn page_end(page: int, size: int, len: int) -> int {
    if (page + 1) * size < len {
        (page + 1) * size
    } else {
        len
    }
}

/// The cell that moving the highlight from `h` by `delta` lands on: the first candidate at
/// or after the clamped target when moving forward, the last one at or before it when
/// moving back.
pub open spec fn move_target(cells: Seq<Option<Candidate>>, h: int, delta: int, i: int) -> bool {
    let t = clamp(h + delta, 0, cells.len() - 1);
    if delta > 0 {
        first_real(cells, t, cells.len() as int, i)
    } else if delta < 0 {
        last_real(cells, 0, t + 1, i)
    } else {
        false
    }
}

/// Turning the page from `page` by `delta` lands on page `q` with cell `i` highlighted:
/// going forward, the first page at or after the clamped target that holds a candidate;
/// going back, the last page at or before it that holds one; either way its first
/// candidate. Staying on the same page is no turn.
pub open spec fn turn_target(
    cells: Seq<Option<Candidate>>,
    size: int,
    page: int,
    delta: int,
    q: int,
    i: int,
) -> bool {
    let len = cells.len() as int;
    let pages = if pages_of(len, size) == 0 {
        1
    } else {
        pages_of(len, size)
    };
    let t = clamp(page + delta, 0, pages - 1);
    &&& delta != 0
    &&& t != page
    &&& first_real(cells, q * size, len, i)
    &&& i / size == q
    &&& delta > 0 ==> q * size <= i && t * size <= i
    &&& delta < 0 ==> q <= t && none_real(cells, (q + 1) * size, page_end(t, size, len))
}

/// Whole pages before the last one end inside the layout.
proof fn lemma_last_page(len: int, size: int, t: int)
    requires
        size > 0,
        len > 0,
        0 <= t,
        t < pages_of(len, size),
    ensures
        t * size < len,
{
    let a = len / size;
    let r = len % size;
    vstd::arithmetic::div_mod::lemma_fundamental_div_mod(len, size);
    vstd::arithmetic::div_mod::lemma_mod_pos_bound(len, size);
    assert(t * size < len) by (nonlinear_arith)
        requires
            len == size * a + r,
            0 <= r < size,
            t <= a - 1 || (r > 0 && t <= a),
            size > 0,
            t >= 0,
    ;
}

/// Every cell lies on one of the pages.
proof fn lemma_page_count(len: int, size: int, h: int)
    requires
        size > 0,
        0 <= h < len,
    ensures
        0 <= h / size < pages_of(len, size),
{
    let a = len / size;
    let r = len % size;
    let q = h / size;
    vstd::arithmetic::div_mod::lemma_fundamental_div_mod(len, size);
    vstd::arithmetic::div_mod::lemma_mod_pos_bound(len, size);
    lemma_page_bounds(h, size);
    assert(q < a || (r > 0 && q < a + 1)) by (nonlinear_arith)
        requires
            len == size * a + r,
            0 <= r < size,
            q * size <= h < len,
            size > 0,
    ;
}

/// Cell `i` lies on page `page`.
proof fn lemma_on_page(i: int, page: int, size: int)
    requires
        size > 0,
        page * size <= i < page * size + size,
    ensures
        i / size == page,
{
    vstd::arithmetic::div_mod::lemma_fundamental_div_mod_converse(i, size, page, i - page * size);
}

/// A cell lies within the page it belongs to.
proof fn lemma_page_bounds(i: int, size: int)
    requires
        size > 0,
        i >= 0,
    ensures
        (i / size) * size <= i < (i / size) * size + size,
        i / size >= 0,
{
    vstd::arithmetic::div_mod::lemma_fundamental_div_mod(i, size);
    assert(size * (i / size) == (i / size) * size) by (nonlinear_arith);
    vstd::arithmetic::div_mod::lemma_div_pos_is_pos(i, size);
}

/// `x` moved by `delta`, held within `0..=last`.
fn step_within(x: usize, delta: isize, last: usize) -> (r: usize)
    requires
        x <= last,
    ensures
        r == clamp(x + delta, 0, last as int),
{
    if delta >= 0 {
        let d = delta as usize;
        if d >= last - x {
            last
        } else {
            x + d
        }
    } else {
        let d: usize = ((-(delta + 1)) as usize) + 1;
        if d >= x {
            0
        } else {
            x - d
        }
    }
}

impl CandidateLayout {
    /// A layout of the given cells.
    pub fn new(cells: Vec<Option<Candidate>>, page_size: usize) -> (l: Self)
        requires
            page_size > 0,
        ensures
            l.cells@ == cells@,
            l.page_size == page_size,
    {
        CandidateLayout { cells, page_size }
    }

    /// The number of cells.
    pub fn len(&self) -> (n: usize)
        ensures
            n == self.cells@.len(),
    {
        self.cells.len()
    }

    pub fn page_size(&self) -> (n: usize)
        ensures
            n == self.page_size,
    {
        self.page_size
    }

    /// The candidate in cell `index`, if the cell exists and holds one.
    pub fn candidate(&self, index: usize) -> (c: Option<&Candidate>)
        ensures
            c == (if index < self.cells@.len() {
                match self.cells@[index as int] {
                    Some(x) => Some(&x),
                    None => None,
                }
            } else {
                None::<&Candidate>
            }),
    {
        if index < self.cells.len() {
            match &self.cells[index] {
                Some(x) => Some(x),
                None => None,
            }
        } else {
            None
        }
    }

    /// The number of pages.
    pub fn pages(&self) -> (n: usize)
        requires
            self.page_size > 0,
        ensures
            n == pages_of(self.cells@.len() as int, self.page_size as int),
    {
        let len = self.cells.len();
        let whole = len / self.page_size;
        if len % self.page_size == 0 {
            whole
        } else {
            proof {
                assert(whole * self.page_size <= len) by (nonlinear_arith)
                    requires
                        whole == len / self.page_size,
                        self.page_size > 0,
                ;
                assert(whole < len) by (nonlinear_arith)
                    requires
                        whole * self.page_size <= len,
                        len % self.page_size != 0,
                        whole == len / self.page_size,
                        self.page_size > 0,
                ;
            }
            whole + 1
        }
    }

    /// The cells of page `page`.
    pub fn page(&self, page: usize) -> (cells: Vec<&Option<Candidate>>)
        requires
            self.page_size > 0,
        ensures
            cells@.len() == page_len(self.cells@.len() as int, page as int, self.page_size as int),
            forall|k: int|
                0 <= k < cells@.len() ==> *cells@[k] == self.cells@[page * self.page_size + k],
    {
        let mut cells: Vec<&Option<Candidate>> = Vec::new();
        let len = self.cells.len();
        let start = match page.checked_mul(self.page_size) {
            Some(start) => start,
            None => return cells,
        };
        if start >= len {
            return cells;
        }
        let end = if self.page_size < len - start {
            start + self.page_size
        } else {
            len
        };
        let mut i = start;
        while i < end
            invariant
                start <= i <= end <= len,
                len == self.cells@.len(),
                cells@.len() == i - start,
                forall|k: int| 0 <= k < cells@.len() ==> *cells@[k] == self.cells@[start + k],
            decreases end - i,
        {
            cells.push(&self.cells[i]);
            i = i + 1;
        }
        cells
    }
}

/// The state of the current input session.
pub struct Session {
    /// The cells of the last query (local candidates and cloud words).
    pub layout: CandidateLayout,
    /// The highlighted cell, counted over the whole layout.
    pub highlighted: usize,
    /// The page shown.
    pub page: usize,
    /// The user moved the highlight with the arrow or page keys during this query. In English
    /// mode the space bar commits the highlighted word only after that; otherwise it commits
    /// the letters as typed.
    pub navigated: bool,
    /// The pinyin line at the top of the candidate window (segments and caret).
    pub preedit: Option<Preedit>,
}

impl Default for Session {
    /// An empty session: no cells, nothing highlighted, no preedit.
    fn default() -> (s: Self)
        ensures
            s.wf(),
            s.layout.cells@.len() == 0,
            s.layout.page_size == 1,
            s.highlighted == 0,
            s.page == 0,
            !s.navigated,
            s.preedit is None,
    {
        Session {
            layout: CandidateLayout { cells: Vec::new(), page_size: 1 },
            highlighted: 0,
            page: 0,
            navigated: false,
            preedit: None,
        }
    }
}

/// A digit picks the cell the page shows at its place: `index_on_page(offset)` finds a
/// cell exactly when the page shows one at `offset`, and it is the cell `page_cells`
/// shows there.
pub proof fn lemma_digits_pick_page_cells(s: Session, offset: usize)
    requires
        s.wf(),
    ensures
        ({
            let size = s.layout.page_size as int;
            let i = s.page * size + offset;
            (offset < size && i < s.layout.cells@.len()) == (offset < page_len(
                s.layout.cells@.len() as int,
                s.page as int,
                size,
            ))
        }),
{
}

/// Whatever the session went through, the highlight stands on a candidate whenever the
/// layout holds one, and the page shown is the one it stands on.
pub proof fn lemma_highlight_on_candidate(s: Session)
    requires
        s.wf(),
    ensures
        !none_real(s.layout.cells@, 0, s.layout.cells@.len() as int) ==> is_real(
            s.layout.cells@,
            s.highlighted as int,
        ),
        s.page == s.highlighted / s.layout.page_size,
{
}

impl Session {
    /// The session's invariant: the page is the one the highlight stands on, the highlight
    /// stands within the layout, and on a candidate whenever the layout holds one.
    pub open spec fn wf(&self) -> bool {
        let cells = self.layout.cells@;
        &&& self.layout.page_size > 0
        &&& (cells.len() == 0 ==> self.highlighted == 0)
        &&& (cells.len() > 0 ==> self.highlighted < cells.len())
        &&& self.page == self.highlighted / self.layout.page_size
        &&& (!none_real(cells, 0, cells.len() as int) ==> is_real(cells, self.highlighted as int))
    }

    /// A new query: the cells are replaced and the first real candidate is highlighted.
    pub fn reset(&mut self, preedit: Option<Preedit>, cells: Vec<Option<Candidate>>, page_size: usize)
        requires
            page_size > 0,
        ensures
            final(self).wf(),
            final(self).preedit == preedit,
            final(self).layout.cells@ == cells@,
            final(self).layout.page_size == page_size,
            final(self).navigated == false,
            none_real(cells@, 0, cells@.len() as int) ==> final(self).highlighted == 0,
            !none_real(cells@, 0, cells@.len() as int) ==> first_real(
                cells@,
                0,
                cells@.len() as int,
                final(self).highlighted as int,
            ),
    {
        let len = cells.len();
        let mut first: usize = 0;
        while first < len && cells[first].is_none()
            invariant
                len == cells@.len(),
                first <= len,
                none_real(cells@, 0, first as int),
            decreases len - first,
        {
            first = first + 1;
        }
        proof {
            if first < len {
                assert(is_real(cells@, first as int));
            }
        }
        if first == len {
            first = 0;
        }
        self.preedit = preedit;
        self.layout = CandidateLayout { cells, page_size };
        self.highlighted = first;
        self.page = first / page_size;
        self.navigated = false;
    }

    /// The candidate in cell `index`.
    pub fn candidate(&self, index: usize) -> (c: Option<&Candidate>)
        ensures
            c == (if index < self.layout.cells@.len() {
                match self.layout.cells@[index as int] {
                    Some(x) => Some(&x),
                    None => None,
                }
            } else {
                None::<&Candidate>
            }),
    {
        self.layout.candidate(index)
    }

    /// The cell that the `offset`-th place of the current page stands for; `None` past the
    /// page or past the layout.
    pub fn index_on_page(&self, offset: usize) -> (r: Option<usize>)
        requires
            self.wf(),
        ensures
            r == (if offset < self.layout.page_size && self.page * self.layout.page_size + offset
                < self.layout.cells@.len() {
                Some((self.page * self.layout.page_size + offset) as usize)
            } else {
                None::<usize>
            }),
    {
        let size = self.layout.page_size;
        let len = self.layout.cells.len();
        if offset >= size {
            return None;
        }
        proof {
            assert(self.page * size <= self.highlighted) by (nonlinear_arith)
                requires
                    self.page == self.highlighted / size,
                    size > 0,
            ;
        }
        let start = self.page * size;
        if start >= len || offset >= len - start {
            None
        } else {
            Some(start + offset)
        }
    }

    /// The cells of the current page.
    pub fn page_cells(&self) -> (cells: Vec<&Option<Candidate>>)
        requires
            self.wf(),
        ensures
            cells@.len() == page_len(
                self.layout.cells@.len() as int,
                self.page as int,
                self.layout.page_size as int,
            ),
            forall|k: int|
                0 <= k < cells@.len() ==> *cells@[k] == self.layout.cells@[self.page
                    * self.layout.page_size + k],
    {
        self.layout.page(self.page)
    }


    /// Moves the highlight up or down, turning the page when it crosses a page edge; the
    /// highlight lands on the nearest candidate in the direction of the move. Returns
    /// whether anything changed.
    pub fn move_highlight(&mut self, delta: isize) -> (changed: bool)
        requires
            old(self).wf(),
        ensures
            final(self).wf(),
            changed == (old(self).layout.cells@.len() > 0 && exists|i: int|
                move_target(old(self).layout.cells@, old(self).highlighted as int, delta as int, i)
                    && i != old(self).highlighted),
            changed ==> move_target(
                old(self).layout.cells@,
                old(self).highlighted as int,
                delta as int,
                final(self).highlighted as int,
            ),
            changed ==> *final(self) == (Session {
                highlighted: final(self).highlighted,
                page: final(self).page,
                navigated: true,
                ..*old(self)
            }),
            !changed ==> *final(self) == *old(self),
    {
        let len = self.layout.cells.len();
        if len == 0 || delta == 0 {
            return false;
        }
        let h = self.highlighted;
        let size = self.layout.page_size;
        let t = step_within(h, delta, len - 1);
        let ghost cells = self.layout.cells@;
        let mut next = t;
        if delta > 0 {
            while next < len && self.layout.cells[next].is_none()
                invariant
                    cells == self.layout.cells@,
                    len == cells.len(),
                    t <= next <= len,
                    none_real(cells, t as int, next as int),
                decreases len - next,
            {
                next = next + 1;
            }
            if next == len {
                proof {
                    assert forall|i: int| !move_target(cells, h as int, delta as int, i) by {
                        if move_target(cells, h as int, delta as int, i) {
                            assert(!is_real(cells, i));
                        }
                    }
                }
                return false;
            }
            assert(move_target(cells, h as int, delta as int, next as int));
        } else {
            loop
                invariant
                    *self == *old(self),
                    self.wf(),
                    h == self.highlighted,
                    delta < 0,
                    t == clamp(h + delta, 0, len - 1),
                    cells == self.layout.cells@,
                    len == cells.len(),
                    next <= t < len,
                    none_real(cells, next + 1, t + 1),
                ensures
                    next <= t < len,
                    none_real(cells, next + 1, t + 1),
                    is_real(cells, next as int),
                decreases next,
            {
                if self.layout.cells[next].is_some() {
                    break;
                }
                if next == 0 {
                    proof {
                        assert forall|i: int| !move_target(cells, h as int, delta as int, i) by {
                            if move_target(cells, h as int, delta as int, i) {
                                assert(!is_real(cells, i));
                            }
                        }
                    }
                    return false;
                }
                next = next - 1;
            }
            assert(move_target(cells, h as int, delta as int, next as int));
        }
        proof {
            assert forall|i: int|
                move_target(cells, h as int, delta as int, i) implies i == next by {
                if i < next {
                    assert(!is_real(cells, next as int) || delta < 0);
                }
                if i > next {
                    assert(is_real(cells, i));
                }
            }
        }
        if next == h {
            return false;
        }
        self.highlighted = next;
        self.page = next / size;
        self.navigated = true;
        true
    }

    /// Turns the page and highlights the first real candidate of the new page, passing over
    /// pages that hold none. Returns whether anything changed.
    pub fn turn_page(&mut self, delta: isize) -> (changed: bool)
        requires
            old(self).wf(),
        ensures
            final(self).wf(),
            changed == exists|q: int, i: int|
                turn_target(
                    old(self).layout.cells@,
                    old(self).layout.page_size as int,
                    old(self).page as int,
                    delta as int,
                    q,
                    i,
                ),
            changed ==> turn_target(
                old(self).layout.cells@,
                old(self).layout.page_size as int,
                old(self).page as int,
                delta as int,
                final(self).page as int,
                final(self).highlighted as int,
            ),
            changed ==> *final(self) == (Session {
                highlighted: final(self).highlighted,
                page: final(self).page,
                navigated: true,
                ..*old(self)
            }),
            !changed ==> *final(self) == *old(self),
    {
        let len = self.layout.cells.len();
        let size = self.layout.page_size;
        let p = self.page;
        let ghost cells = self.layout.cells@;
        if delta == 0 {
            return false;
        }
        let n = self.layout.pages();
        let pages = if n == 0 {
            1
        } else {
            n
        };
        proof {
            lemma_page_bounds(self.highlighted as int, size as int);
            if len > 0 {
                lemma_page_count(len as int, size as int, self.highlighted as int);
            }
        }
        let t = step_within(p, delta, pages - 1);
        if t == p {
            return false;
        }
        if delta > 0 {
            proof {
                lemma_last_page(len as int, size as int, t as int);
            }
            let start = t * size;
            let mut i = start;
            while i < len && self.layout.cells[i].is_none()
                invariant
                    cells == self.layout.cells@,
                    len == cells.len(),
                    start <= i <= len,
                    none_real(cells, start as int, i as int),
                decreases len - i,
            {
                i = i + 1;
            }
            if i == len {
                proof {
                    assert forall|q: int, k: int|
                        !turn_target(cells, size as int, p as int, delta as int, q, k) by {
                        if turn_target(cells, size as int, p as int, delta as int, q, k) {
                            assert(is_real(cells, k));
                        }
                    }
                }
                return false;
            }
            proof {
                lemma_page_bounds(i as int, size as int);
                let q = i / size;
                assert(first_real(cells, q * size, len as int, i as int)) by {
                    if q * size < start {
                        assert(false) by (nonlinear_arith)
                            requires
                                q * size < t * size,
                                start == t * size,
                                t * size <= i,
                                i < q * size + size,
                                size > 0,
                        ;
                    }
                }
                assert(turn_target(cells, size as int, p as int, delta as int, q as int, i as int));
            }
            self.highlighted = i;
            self.page = i / size;
            self.navigated = true;
            true
        } else {
            proof {
                assert((t + 1) * size <= p * size) by (nonlinear_arith)
                    requires
                        t + 1 <= p,
                        size > 0,
                ;
            }
            let end = (t + 1) * size;
            assert(page_end(t as int, size as int, len as int) == end);
            let mut j = end;
            while j > 0 && self.layout.cells[j - 1].is_none()
                invariant
                    cells == self.layout.cells@,
                    len == cells.len(),
                    j <= end < len,
                    none_real(cells, j as int, end as int),
                decreases j,
            {
                j = j - 1;
            }
            if j == 0 {
                proof {
                    assert forall|q: int, k: int|
                        !turn_target(cells, size as int, p as int, delta as int, q, k) by {
                        if turn_target(cells, size as int, p as int, delta as int, q, k) {
                            lemma_page_bounds(k, size as int);
                            assert((q + 1) * size == q * size + size) by (nonlinear_arith);
                            assert((q + 1) * size <= (t + 1) * size) by (nonlinear_arith)
                                requires
                                    q <= t,
                                    size > 0,
                            ;
                            assert(is_real(cells, k));
                        }
                    }
                }
                return false;
            }
            let last = j - 1;
            let q = last / size;
            proof {
                lemma_page_bounds(last as int, size as int);
                assert(q * size <= last);
            }
            let mut i = q * size;
            while self.layout.cells[i].is_none()
                invariant
                    cells == self.layout.cells@,
                    len == cells.len(),
                    q * size <= i <= last < len,
                    is_real(cells, last as int),
                    none_real(cells, (q * size) as int, i as int),
                decreases last - i,
            {
                i = i + 1;
            }
            proof {
                lemma_on_page(i as int, q as int, size as int);
                assert(is_real(cells, i as int));
                assert((q + 1) * size == q * size + size) by (nonlinear_arith);
                if q > t {
                    assert(false) by (nonlinear_arith)
                        requires
                            q >= t + 1,
                            q * size <= last,
                            last < (t + 1) * size,
                            size > 0,
                    ;
                }
                assert(turn_target(cells, size as int, p as int, delta as int, q as int, i as int));
            }
            self.highlighted = i;
            self.page = q;
            self.navigated = true;
            true
        }
    }

    /// The number of pages.
    pub fn pages(&self) -> (n: usize)
        requires
            self.wf(),
        ensures
            n == pages_of(self.layout.cells@.len() as int, self.layout.page_size as int),
    {
        self.layout.pages()
    }
}

/// The page indicator under the candidates, `page/pages` counted from one; none when
/// everything fits on one page.
pub fn footer(page: usize, pages: usize) -> (f: Option<String>)
    requires
        page < pages,
    ensures
        pages > 1 ==> (f matches Some(t) && t@ == decimal((page + 1) as nat) + "/"@ + decimal(
            pages as nat,
        )),
        pages <= 1 ==> f is None,
{
    if pages > 1 {
        let mut t = String::new();
        push_decimal(&mut t, page as u64 + 1);
        push_str(&mut t, "/");
        push_decimal(&mut t, pages as u64);
        Some(t)
    } else {
        None
    }
}

/// The number of candidates a page holds: the configured number, no more than the window
/// can draw, and at least one.
pub fn page_size_for(configured: usize, max_rows: usize) -> (n: usize)
    ensures
        n == if configured <= max_rows {
            if configured == 0 { 1 } else { configured }
        } else {
            if max_rows == 0 { 1 } else { max_rows }
        },
        n >= 1,
{
    let n = if configured <= max_rows {
        configured
    } else {
        max_rows
    };
    if n == 0 {
        1
    } else {
        n
    }
}

impl Session {
    /// Whether the candidates may be redrawn when the sentence model's reranking arrives:
    /// only while the user is still on the first page and has not moved the highlight.
    pub fn rerank_may_redraw(&self) -> (b: bool)
        ensures
            b == (self.page == 0 && !self.navigated),
    {
        self.page == 0 && !self.navigated
    }

    /// The place of the highlight on the page shown.
    pub fn highlight_on_page(&self) -> (offset: usize)
        requires
            self.wf(),
        ensures
            offset == self.highlighted - self.page * self.layout.page_size,
            offset < self.layout.page_size,
    {
        proof {
            lemma_page_bounds(self.highlighted as int, self.layout.page_size as int);
        }
        self.highlighted - self.page * self.layout.page_size
    }
}

} // verus!
