//! Decisions of the settings window: which value a control writes into `config.toml`, and
//! when it writes nothing. Writing the file and applying it is the shell's.

use vstd::prelude::*;

use crate::dictionaries::{toggle_membership, without};
use crate::text::{chars_of, same_text, string_of_range, texts, trim, trim_bounds};

verus! {

/// The text a field holds once trimmed.
fn trimmed(text: &str) -> (t: String)
    ensures
        t@ == trim(text@),
{
    let cs = chars_of(text);
    let (a, b) = trim_bounds(&cs, 0, cs.len());
    assert(cs@.subrange(0, cs@.len() as int) =~= cs@);
    string_of_range(&cs, a, b)
}

/// A text field (service address, model name) was left: its trimmed text is written when
/// it is not empty and differs from the value in the file. Leaving a field also fires
/// when nothing changed, and the file is not rewritten then.
pub fn text_field_change(current: &str, typed: &str) -> (r: Option<String>)
    ensures
        ({
            let t = trim(typed@);
            if t.len() > 0 && t != current@ {
                r matches Some(v) && v@ == t
            } else {
                r is None
            }
        }),
{
    let t = trimmed(typed);
    if chars_of(t.as_str()).len() > 0 && !same_text(t.as_str(), current) {
        Some(t)
    } else {
        None
    }
}

/// The API key field: the trimmed key is stored when it is not blank.
pub fn api_key_change(typed: &str) -> (r: Option<String>)
    ensures
        ({
            let t = trim(typed@);
            if t.len() > 0 {
                r matches Some(v) && v@ == t
            } else {
                r is None
            }
        }),
{
    let t = trimmed(typed);
    if chars_of(t.as_str()).len() > 0 {
        Some(t)
    } else {
        None
    }
}

/// The page size chosen in its pop-up menu: the items are one to nine candidates.
pub fn page_size_value(index: usize) -> (n: i64)
    requires
        index < i64::MAX,
    ensures
        n == index + 1,
{
    index as i64 + 1
}

/// The full-width punctuation pop-up menu: its first item is "on".
pub fn full_width_choice(index: usize) -> (on: bool)
    ensures
        on == (index == 0),
{
    index == 0
}

/// The double-pinyin pop-up menu: item 0 is "off", then the schemes in their order. The
/// scheme chosen, or `None` for off (also for an item past the schemes).
pub fn shuangpin_choice(index: usize, schemes: usize) -> (r: Option<usize>)
    ensures
        r == if 1 <= index <= schemes {
            Some((index - 1) as usize)
        } else {
            None::<usize>
        },
{
    if index >= 1 && index <= schemes {
        Some(index - 1)
    } else {
        None
    }
}

/// A change of one of the `[dictionaries]` lists.
#[derive(Debug, Clone, PartialEq, Eq)]
pub enum ListEdit {
    /// The new `domains` list (bundled domain dictionaries switched on).
    Domains(Vec<String>),
    /// The new `disabled` list (imported dictionaries switched off).
    Disabled(Vec<String>),
}

/// A dictionary's switch on the dictionaries page: a bundled domain dictionary is on when
/// it is listed in `domains`, an imported one is on unless it is listed in `disabled`.
/// `None` when the list is already as asked.
pub fn dictionary_switch(
    builtin: bool,
    stem: &str,
    on: bool,
    domains: Vec<String>,
    disabled: Vec<String>,
) -> (r: Option<ListEdit>)
    ensures
        builtin ==> ({
            let found = texts(domains@).contains(stem@);
            &&& (on && !found) ==> (r matches Some(ListEdit::Domains(v)) && texts(v@) == texts(
                domains@,
            ).push(stem@))
            &&& (!on && found) ==> (r matches Some(ListEdit::Domains(v)) && texts(v@) == without(
                texts(domains@),
                stem@,
            ))
            &&& (on == found) ==> r is None
        }),
        !builtin ==> ({
            let found = texts(disabled@).contains(stem@);
            &&& (!on && !found) ==> (r matches Some(ListEdit::Disabled(v)) && texts(v@) == texts(
                disabled@,
            ).push(stem@))
            &&& (on && found) ==> (r matches Some(ListEdit::Disabled(v)) && texts(v@) == without(
                texts(disabled@),
                stem@,
            ))
            &&& (on != found) ==> r is None
        }),
{
    if builtin {
        match toggle_membership(domains, stem, on) {
            Some(v) => Some(ListEdit::Domains(v)),
            None => None,
        }
    } else {
        match toggle_membership(disabled, stem, !on) {
            Some(v) => Some(ListEdit::Disabled(v)),
            None => None,
        }
    }
}

/// A change to the list of custom phrases from the phrase editor.
pub enum PhraseEdit<T> {
    /// Delete the phrase at this place.
    Delete(usize),
    /// Save the edited phrase over the one at this place.
    Replace(usize, T),
    /// Save a new phrase at the end.
    Add(T),
}

/// Applies an edit to the phrase list: the new list and the place of the saved phrase
/// (for a deletion, the length of the list before it); `None` when the place is past the
/// end of the list, and nothing is written then.
pub fn edit_phrases<T>(phrases: Vec<T>, edit: PhraseEdit<T>) -> (r: Option<(Vec<T>, usize)>)
    ensures
        match edit {
            PhraseEdit::Delete(i) => if i < phrases@.len() {
                r matches Some((v, at)) && v@ == phrases@.remove(i as int) && at == phrases@.len()
            } else {
                r is None
            },
            PhraseEdit::Replace(i, p) => if i < phrases@.len() {
                r matches Some((v, at)) && v@ == phrases@.update(i as int, p) && at == i
            } else {
                r is None
            },
            PhraseEdit::Add(p) => r matches Some((v, at)) && v@ == phrases@.push(p) && at
                == phrases@.len(),
        },
{
    let mut phrases = phrases;
    let len = phrases.len();
    match edit {
        PhraseEdit::Delete(i) => {
            if i >= len {
                return None;
            }
            phrases.remove(i);
            Some((phrases, len))
        },
        PhraseEdit::Replace(i, p) => {
            if i >= len {
                return None;
            }
            phrases.set(i, p);
            Some((phrases, i))
        },
        PhraseEdit::Add(p) => {
            phrases.push(p);
            Some((phrases, len))
        },
    }
}

/// Whether a shortcut can be chosen: no other shortcut it must differ from already has it.
/// The expression key must differ from the question key, each translation shortcut from
/// the other, and the delete-candidate shortcut from both translation shortcuts; a
/// conflicting choice is not written. Shortcuts are compared by a code the shell gives
/// each (a key, or a set of modifiers).
pub fn shortcut_free(chosen: u64, taken: &Vec<u64>) -> (free: bool)
    ensures
        free == !taken@.contains(chosen),
{
    let mut i: usize = 0;
    while i < taken.len()
        invariant
            i <= taken@.len(),
            forall|j: int| 0 <= j < i ==> taken@[j] != chosen,
        decreases taken.len() - i,
    {
        if taken[i] == chosen {
            assert(taken@[i as int] == chosen);
            return false;
        }
        i = i + 1;
    }
    true
}

} // verus!
