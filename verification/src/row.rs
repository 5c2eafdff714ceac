//! One row of the candidate window: index, candidate text and annotation pieces. Only a
//! display form of a core candidate; no ranking or lookup happens here.

use vstd::prelude::*;

use crate::candidate::{Candidate, CandidateKind, FuriganaSegment, Sense};
use crate::text::{decimal, push_decimal, push_str};

verus! {

/// How dark an annotation piece is drawn.
#[derive(Debug, Clone, Copy, PartialEq, Eq, Structural)]
pub enum Tone {
    /// A gloss.
    Gloss,
    /// The gloss of a word the user has not seen for many rounds yet; accent colour.
    Fresh,
    /// Part of speech and separators, faintest.
    Faint,
}

/// A row of the candidate window.
#[derive(Debug, Clone, PartialEq, Eq)]
pub struct Row {
    /// The index shown before the candidate, such as `1`.
    pub index: String,
    /// The candidate.
    pub text: String,
    /// The annotation on the right, drawn in order; empty without translation.
    pub annotation: Vec<(String, Tone)>,
    /// Came from cloud prediction: a small cloud is drawn before the word.
    pub cloud: bool,
}

/// The pieces of glossed segments: each segment in `tone`, its reading faint in brackets.
pub open spec fn furigana_pieces(segments: Seq<FuriganaSegment>, tone: Tone) -> Seq<(Seq<char>, Tone)>
    decreases segments.len(),
{
    if segments.len() == 0 {
        Seq::empty()
    } else {
        let s = segments.last();
        furigana_pieces(segments.drop_last(), tone) + seq![(s.text@, tone)] + match s.reading {
            Some(r) => seq![("("@ + r@ + ")"@, Tone::Faint)],
            None => Seq::empty(),
        }
    }
}

/// The pieces of one sense: a separator when something comes before it, the part of
/// speech, then the gloss (in the accent tone when the gloss is fresh).
pub open spec fn sense_pieces(sense: Sense, separated: bool) -> Seq<(Seq<char>, Tone)> {
    (if separated {
        seq![(" · "@, Tone::Faint)]
    } else {
        Seq::empty()
    }) + match sense.part_of_speech {
        Some(p) => seq![(p@ + " "@, Tone::Faint)],
        None => Seq::empty(),
    } + furigana_pieces(
        sense.furigana@,
        if sense.fresh {
            Tone::Fresh
        } else {
            Tone::Gloss
        },
    )
}

/// The pieces of the senses in order; a sense is separated from what precedes it, which is
/// the reading for the first sense.
pub open spec fn senses_pieces(senses: Seq<Sense>, after_reading: bool) -> Seq<(Seq<char>, Tone)>
    decreases senses.len(),
{
    if senses.len() == 0 {
        Seq::empty()
    } else {
        senses_pieces(senses.drop_last(), after_reading) + sense_pieces(
            senses.last(),
            senses.len() > 1 || after_reading,
        )
    }
}

/// The annotation of a candidate: its reading first, then the senses of its translation.
pub open spec fn annotation_of(c: Candidate) -> Seq<(Seq<char>, Tone)> {
    (match c.reading {
        Some(r) => seq![(r@, Tone::Gloss)],
        None => Seq::empty(),
    }) + match c.translation {
        Some(t) => senses_pieces(t.senses@, c.reading is Some),
        None => Seq::empty(),
    }
}

/// The annotation as text and tone.
pub open spec fn pieces(annotation: Seq<(String, Tone)>) -> Seq<(Seq<char>, Tone)> {
    annotation.map_values(|p: (String, Tone)| (p.0@, p.1))
}

fn push_piece(annotation: &mut Vec<(String, Tone)>, text: String, tone: Tone)
    ensures
        pieces(final(annotation)@) == pieces(old(annotation)@).push((text@, tone)),
{
    annotation.push((text, tone));
    assert(pieces(annotation@) =~= pieces(old(annotation)@).push((text@, tone)));
}

fn push_furigana(annotation: &mut Vec<(String, Tone)>, segments: &Vec<FuriganaSegment>, tone: Tone)
    ensures
        pieces(final(annotation)@) == pieces(old(annotation)@) + furigana_pieces(segments@, tone),
{
    let mut j: usize = 0;
    while j < segments.len()
        invariant
            j <= segments.len(),
            pieces(annotation@) == pieces(old(annotation)@) + furigana_pieces(
                segments@.take(j as int),
                tone,
            ),
        decreases segments.len() - j,
    {
        let ghost before = pieces(annotation@);
        let segment = &segments[j];
        push_piece(annotation, segment.text.clone(), tone);
        match &segment.reading {
            Some(r) => {
                let mut t = String::new();
                push_str(&mut t, "(");
                push_str(&mut t, r.as_str());
                push_str(&mut t, ")");
                push_piece(annotation, t, Tone::Faint);
            },
            None => {},
        }
        proof {
            let s = segments@.take(j + 1);
            assert(s.drop_last() =~= segments@.take(j as int));
            assert(s.last() == segments@[j as int]);
            assert(pieces(annotation@) =~= pieces(old(annotation)@) + furigana_pieces(s, tone));
        }
        j = j + 1;
    }
    assert(segments@.take(segments.len() as int) =~= segments@);
}

impl Row {
    /// The row for the candidate at `position` (0-based) on the page. A custom phrase shows
    /// the preview the core made of it (`custom_preview`) instead of its full text.
    pub fn from_candidate(position: usize, candidate: &Candidate, custom_preview: Option<String>) -> (row: Row)
        requires
            position < usize::MAX,
        ensures
            row.index@ == decimal(position as nat + 1),
            row.text@ == match (candidate.kind, custom_preview) {
                (CandidateKind::Custom(_), Some(p)) => p@,
                _ => candidate.text@,
            },
            pieces(row.annotation@) == annotation_of(*candidate),
            !row.cloud,
    {
        let mut annotation: Vec<(String, Tone)> = Vec::new();
        match &candidate.reading {
            Some(r) => push_piece(&mut annotation, r.clone(), Tone::Gloss),
            None => {},
        }
        let ghost start = pieces(annotation@);
        match &candidate.translation {
            Some(translation) => {
                let senses = &translation.senses;
                let mut i: usize = 0;
                while i < senses.len()
                    invariant
                        i <= senses.len(),
                        start == (match candidate.reading {
                            Some(r) => seq![(r@, Tone::Gloss)],
                            None => Seq::<(Seq<char>, Tone)>::empty(),
                        }),
                        pieces(annotation@) == start + senses_pieces(
                            senses@.take(i as int),
                            candidate.reading is Some,
                        ),
                    decreases senses.len() - i,
                {
                    let sense = &senses[i];
                    let ghost before = pieces(annotation@);
                    if i > 0 || candidate.reading.is_some() {
                        push_piece(&mut annotation, String::from_str(" · "), Tone::Faint);
                    }
                    match &sense.part_of_speech {
                        Some(p) => {
                            let mut t = p.clone();
                            push_str(&mut t, " ");
                            push_piece(&mut annotation, t, Tone::Faint);
                        },
                        None => {},
                    }
                    let tone = if sense.fresh {
                        Tone::Fresh
                    } else {
                        Tone::Gloss
                    };
                    push_furigana(&mut annotation, &sense.furigana, tone);
                    proof {
                        let s = senses@.take(i + 1);
                        assert(s.drop_last() =~= senses@.take(i as int));
                        assert(s.last() == senses@[i as int]);
                        assert(pieces(annotation@) =~= before + sense_pieces(
                            senses@[i as int],
                            i > 0 || candidate.reading is Some,
                        ));
                    }
                    i = i + 1;
                }
                assert(senses@.take(senses.len() as int) =~= senses@);
            },
            None => {},
        }
        let mut index = String::new();
        push_decimal(&mut index, position as u64 + 1);
        let text = match (&candidate.kind, custom_preview) {
            (CandidateKind::Custom(_), Some(p)) => p,
            _ => candidate.text.clone(),
        };
        assert(pieces(annotation@) =~= annotation_of(*candidate));
        Row { index, text, annotation, cloud: false }
    }
}

/// The row for the cell at `position` (0-based) on the page: an empty cell gets a blank
/// row that keeps its index; a candidate gets its row, marked as cloud when it came from
/// cloud prediction.
pub fn row_for_cell(position: usize, cell: &Option<Candidate>, custom_preview: Option<String>) -> (row: Row)
    requires
        position < usize::MAX,
    ensures
        row.index@ == decimal(position as nat + 1),
        match cell {
            None => row.text@.len() == 0 && row.annotation@.len() == 0 && !row.cloud,
            Some(c) => {
                &&& row.text@ == match (c.kind, custom_preview) {
                    (CandidateKind::Custom(_), Some(p)) => p@,
                    _ => c.text@,
                }
                &&& pieces(row.annotation@) == annotation_of(*c)
                &&& row.cloud == (c.kind == CandidateKind::Cloud)
            },
        },
{
    match cell {
        None => {
            let mut index = String::new();
            push_decimal(&mut index, position as u64 + 1);
            Row { index, text: String::new(), annotation: Vec::new(), cloud: false }
        },
        Some(c) => {
            let mut row = Row::from_candidate(position, c, custom_preview);
            row.cloud = match c.kind {
                CandidateKind::Cloud => true,
                _ => false,
            };
            row
        },
    }
}

} // verus!
