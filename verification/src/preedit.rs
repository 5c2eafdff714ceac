//! The pinyin line at the top of the candidate window: segments drawn in their styles and
//! a caret that the window draws itself.

use vstd::prelude::*;

use crate::text::{chars_of, push_str, string_of_range};

verus! {

/// How a preedit segment is drawn.
#[derive(Debug, Clone, Copy, PartialEq, Eq, Structural)]
pub enum PreeditStyle {
    /// Letters the user typed.
    Typed,
    /// The rest of the composition.
    Rest,
    /// Letters that will be dropped, struck through.
    Struck,
}

/// One segment of the marked text as the core reports it.
#[derive(Debug, Clone, PartialEq, Eq)]
pub struct MarkedSegment {
    pub text: String,
    pub kind: PreeditStyle,
}

/// One segment of the preedit and how it is drawn.
#[derive(Debug, Clone, PartialEq, Eq)]
pub struct PreeditSegment {
    pub text: String,
    pub style: PreeditStyle,
}

impl PreeditSegment {
    /// The segment that draws a marked segment.
    pub fn from(segment: &MarkedSegment) -> (s: Self)
        ensures
            s.text@ == segment.text@,
            s.style == segment.kind,
    {
        PreeditSegment { text: segment.text.clone(), style: segment.kind }
    }
}

/// The top line: segments and a caret, which is a character position in their concatenation.
#[derive(Debug, Clone, PartialEq, Eq)]
pub struct Preedit {
    pub segments: Vec<PreeditSegment>,
    pub cursor: usize,
}

/// The concatenated texts of a run of segments.
pub open spec fn concat_texts(ss: Seq<Seq<char>>) -> Seq<char>
    decreases ss.len(),
{
    if ss.len() == 0 {
        Seq::empty()
    } else {
        concat_texts(ss.drop_last()) + ss.last()
    }
}

/// The texts of preedit segments.
pub open spec fn segment_texts(ss: Seq<PreeditSegment>) -> Seq<Seq<char>> {
    ss.map_values(|s: PreeditSegment| s.text@)
}

/// The texts of marked segments.
pub open spec fn marked_texts(ss: Seq<MarkedSegment>) -> Seq<Seq<char>> {
    ss.map_values(|s: MarkedSegment| s.text@)
}

/// The marked segments that have text, as preedit segments: (text, style) in order.
pub open spec fn nonempty_marked(ss: Seq<MarkedSegment>) -> Seq<(Seq<char>, PreeditStyle)>
    decreases ss.len(),
{
    if ss.len() == 0 {
        Seq::empty()
    } else if ss.last().text@.len() == 0 {
        nonempty_marked(ss.drop_last())
    } else {
        nonempty_marked(ss.drop_last()).push((ss.last().text@, ss.last().kind))
    }
}

/// Empty texts add nothing to a concatenation.
pub proof fn lemma_concat_nonempty(ss: Seq<MarkedSegment>)
    ensures
        concat_texts(nonempty_marked(ss).map_values(|p: (Seq<char>, PreeditStyle)| p.0))
            == concat_texts(marked_texts(ss)),
    decreases ss.len(),
{
    if ss.len() > 0 {
        lemma_concat_nonempty(ss.drop_last());
        let f = |p: (Seq<char>, PreeditStyle)| p.0;
        assert(marked_texts(ss).drop_last() =~= marked_texts(ss.drop_last()));
        let before = nonempty_marked(ss.drop_last());
        if ss.last().text@.len() == 0 {
            assert(concat_texts(marked_texts(ss)) =~= concat_texts(marked_texts(ss.drop_last())));
        } else {
            assert(before.push((ss.last().text@, ss.last().kind)).map_values(f).drop_last()
                =~= before.map_values(f));
        }
    }
}

impl Preedit {
    /// Builds the preedit from the core's marked segments and caret; segments without
    /// text are left out, and with no text at all there is no preedit.
    pub fn from_marked(segments: &[MarkedSegment], cursor: usize) -> (r: Option<Self>)
        ensures
            nonempty_marked(segments@).len() == 0 ==> r is None,
            nonempty_marked(segments@).len() > 0 ==> (r matches Some(p) && p.cursor == cursor
                && p.segments@.map_values(|s: PreeditSegment| (s.text@, s.style))
                == nonempty_marked(segments@)),
    {
        let mut kept: Vec<PreeditSegment> = Vec::new();
        let mut i: usize = 0;
        while i < segments.len()
            invariant
                i <= segments.len(),
                kept@.map_values(|s: PreeditSegment| (s.text@, s.style)) == nonempty_marked(
                    segments@.take(i as int),
                ),
            decreases segments.len() - i,
        {
            let ghost before = kept@.map_values(|s: PreeditSegment| (s.text@, s.style));
            assert(segments@.take(i + 1).drop_last() =~= segments@.take(i as int));
            if !segments[i].text.as_str().is_empty() {
                kept.push(PreeditSegment::from(&segments[i]));
                assert(kept@.map_values(|s: PreeditSegment| (s.text@, s.style)) =~= before.push(
                    (segments@[i as int].text@, segments@[i as int].kind),
                ));
            } else {
                assert(segments@[i as int].text@.len() == 0);
            }
            i = i + 1;
        }
        assert(segments@.take(segments.len() as int) =~= segments@);
        if kept.len() == 0 {
            None
        } else {
            Some(Preedit { segments: kept, cursor })
        }
    }

    /// A single segment of plain typed text (shown when a query fails); `None` for no text.
    pub fn plain(text: &str, cursor: usize) -> (r: Option<Self>)
        ensures
            text@.len() == 0 ==> r is None,
            text@.len() > 0 ==> (r matches Some(p) && p.cursor == cursor && p.segments@.len() == 1
                && p.segments@[0].text@ == text@ && p.segments@[0].style == PreeditStyle::Typed),
    {
        if text.is_empty() {
            None
        } else {
            let mut segments = Vec::new();
            segments.push(PreeditSegment { text: String::from_str(text), style: PreeditStyle::Typed });
            Some(Preedit { segments, cursor })
        }
    }

    /// The concatenated text of all segments.
    pub fn text(&self) -> (t: String)
        ensures
            t@ == concat_texts(segment_texts(self.segments@)),
    {
        let mut t = String::new();
        let mut i: usize = 0;
        while i < self.segments.len()
            invariant
                i <= self.segments.len(),
                t@ == concat_texts(segment_texts(self.segments@.take(i as int))),
            decreases self.segments.len() - i,
        {
            push_str(&mut t, self.segments[i].text.as_str());
            assert(segment_texts(self.segments@.take(i + 1)).drop_last() =~= segment_texts(
                self.segments@.take(i as int),
            ));
            i = i + 1;
        }
        assert(self.segments@.take(self.segments.len() as int) =~= self.segments@);
        t
    }

    /// The text before the caret (to measure where the caret goes): the first `cursor`
    /// characters of [`Preedit::text`], or all of it.
    pub fn before_cursor(&self) -> (t: String)
        ensures
            ({
                let all = concat_texts(segment_texts(self.segments@));
                t@ == if self.cursor <= all.len() {
                    all.take(self.cursor as int)
                } else {
                    all
                }
            }),
    {
        let all = self.text();
        let cs = chars_of(all.as_str());
        let end = if self.cursor <= cs.len() {
            self.cursor
        } else {
            cs.len()
        };
        let t = string_of_range(&cs, 0, end);
        assert(cs@.subrange(0, end as int) =~= cs@.take(end as int));
        assert(cs@.take(cs@.len() as int) =~= cs@);
        t
    }
}

/// The text before the caret is a prefix of the whole text.
pub proof fn lemma_before_cursor_is_prefix(all: Seq<char>, cursor: nat)
    ensures
        ({
            let before = if cursor <= all.len() {
                all.take(cursor as int)
            } else {
                all
            };
            before.len() <= all.len() && all.take(before.len() as int) == before
        }),
{
    if cursor <= all.len() {
        assert(all.take(cursor as int).len() == cursor);
        assert(all.take(cursor as int) =~= all.take(cursor as int));
    } else {
        assert(all.take(all.len() as int) =~= all);
    }
}

} // verus!
