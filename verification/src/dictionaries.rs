//! Dictionary management: the rows of the "Dictionaries" settings page, the diagnostics
//! line of each, and the on/off lists of the `[dictionaries]` configuration section.

use vstd::prelude::*;

use crate::text::{decimal, push_decimal, push_str, same_text, texts};

verus! {

/// One row of the dictionaries page: a bundled domain dictionary, or one the user
/// imported into the `dicts/` directory.
#[derive(Debug, Clone, PartialEq, Eq)]
pub struct DictionaryInfo {
    /// File stem; the `domains` / `disabled` lists of `[dictionaries]` use it.
    pub stem: String,
    /// A bundled domain dictionary: switched in `domains`, cannot be removed.
    pub builtin: bool,
    /// The file's path.
    pub path: String,
    /// Display name (the `.qj` metadata name, else the stem).
    pub name: String,
    /// Number of entries; 0 for a broken file.
    pub entries: usize,
    /// The licence from the metadata; empty when there is none.
    pub license: String,
    /// Whether it is switched on.
    pub enabled: bool,
    /// The file could not be read.
    pub broken: bool,
}

/// The metadata block of a packed dictionary.
#[derive(Debug, Clone, PartialEq, Eq)]
pub struct DictionaryMetadata {
    pub name: String,
    pub license: String,
}

/// What loading a dictionary file gave: its size and its metadata, if it has any.
#[derive(Debug, Clone, PartialEq, Eq)]
pub struct LoadedDictionary {
    pub entries: usize,
    pub metadata: Option<DictionaryMetadata>,
}

/// The row for a dictionary file, given what loading it gave (`None`: it could not be
/// read, the row is marked broken).
pub fn dictionary_info(
    stem: String,
    path: String,
    builtin: bool,
    enabled: bool,
    loaded: Option<LoadedDictionary>,
) -> (info: DictionaryInfo)
    ensures
        info.stem@ == stem@,
        info.path@ == path@,
        info.builtin == builtin,
        info.enabled == enabled,
        info.broken == (loaded is None),
        match loaded {
            Some(l) => {
                &&& info.entries == l.entries
                &&& info.name@ == match l.metadata {
                    Some(m) => m.name@,
                    None => stem@,
                }
                &&& info.license@ == match l.metadata {
                    Some(m) => m.license@,
                    None => Seq::<char>::empty(),
                }
            },
            None => {
                &&& info.entries == 0
                &&& info.name@ == stem@
                &&& info.license@ == Seq::<char>::empty()
            },
        },
{
    match loaded {
        Some(l) => {
            let (name, license) = match l.metadata {
                Some(m) => (m.name, m.license),
                None => (stem.clone(), String::new()),
            };
            DictionaryInfo {
                stem,
                builtin,
                path,
                name,
                entries: l.entries,
                license,
                enabled,
                broken: false,
            }
        },
        None => DictionaryInfo {
            name: stem.clone(),
            stem,
            builtin,
            path,
            entries: 0,
            license: String::new(),
            enabled,
            broken: true,
        },
    }
}

/// The kind label of a dictionary row in the diagnostics.
pub open spec fn kind_label(builtin: bool) -> Seq<char> {
    if builtin {
        "随包词库"@
    } else {
        "导入词库"@
    }
}

/// The state label of a dictionary row in the diagnostics.
pub open spec fn state_label(broken: bool, enabled: bool) -> Seq<char> {
    if broken {
        "坏文件"@
    } else if enabled {
        "启用"@
    } else {
        "关闭"@
    }
}

/// The diagnostics line of one dictionary: `kind：name · N 条 · state`.
pub open spec fn dictionary_line_spec(info: DictionaryInfo) -> Seq<char> {
    kind_label(info.builtin) + "："@ + info.name@ + " · "@ + decimal(info.entries as nat)
        + " 条 · "@ + state_label(info.broken, info.enabled)
}

/// The diagnostics line of one dictionary: `kind：name · N 条 · state`.
pub fn dictionary_line(info: &DictionaryInfo) -> (line: String)
    ensures
        line@ == dictionary_line_spec(*info),
{
    let mut line = String::new();
    if info.builtin {
        push_str(&mut line, "随包词库");
    } else {
        push_str(&mut line, "导入词库");
    }
    push_str(&mut line, "：");
    push_str(&mut line, info.name.as_str());
    push_str(&mut line, " · ");
    push_decimal(&mut line, info.entries as u64);
    push_str(&mut line, " 条 · ");
    if info.broken {
        push_str(&mut line, "坏文件");
    } else if info.enabled {
        push_str(&mut line, "启用");
    } else {
        push_str(&mut line, "关闭");
    }
    assert(line@ =~= kind_label(info.builtin) + "："@ + info.name@ + " · "@ + decimal(
        info.entries as nat,
    ) + " 条 · "@ + state_label(info.broken, info.enabled));
    line
}

/// `list` without any entry equal to `x`, in the same order.
pub open spec fn without(list: Seq<Seq<char>>, x: Seq<char>) -> Seq<Seq<char>>
    decreases list.len(),
{
    if list.len() == 0 {
        list
    } else if list.last() == x {
        without(list.drop_last(), x)
    } else {
        without(list.drop_last(), x).push(list.last())
    }
}

/// Adds `stem` to the list (`present`) or takes it out; `None` when the list is already
/// as asked.
pub fn toggle_membership(list: Vec<String>, stem: &str, present: bool) -> (r: Option<Vec<String>>)
    ensures
        ({
            let found = texts(list@).contains(stem@);
            &&& (present && !found) ==> (r matches Some(v) && texts(v@) == texts(list@).push(stem@))
            &&& (!present && found) ==> (r matches Some(v) && texts(v@) == without(
                texts(list@),
                stem@,
            ))
            &&& (present == found) ==> r is None
        }),
{
    let mut kept: Vec<String> = Vec::new();
    let mut found = false;
    let mut i: usize = 0;
    while i < list.len()
        invariant
            i <= list.len(),
            found == texts(list@.take(i as int)).contains(stem@),
            texts(kept@) == without(texts(list@.take(i as int)), stem@),
        decreases list.len() - i,
    {
        let same = same_text(list[i].as_str(), stem);
        proof {
            assert(list@.take(i + 1).drop_last() =~= list@.take(i as int));
            assert(texts(list@.take(i + 1)) =~= texts(list@.take(i as int)).push(list@[i as int]@));
            assert(texts(list@.take(i + 1)).drop_last() =~= texts(list@.take(i as int)));
        }
        if same {
            found = true;
        } else {
            let ghost before = texts(kept@);
            kept.push(list[i].clone());
            assert(texts(kept@) =~= before.push(list@[i as int]@));
        }
        proof {
            let t = texts(list@.take(i as int));
            let t1 = texts(list@.take(i + 1));
            assert(t1 =~= t.push(list@[i as int]@));
            if t1.contains(stem@) && !same {
                let j = choose|j: int| 0 <= j < t1.len() && t1[j] == stem@;
                assert(t.contains(stem@)) by {
                    assert(j < t.len());
                    assert(t[j] == stem@);
                }
            }
            if same {
                assert(t1[i as int] == stem@);
            }
            if t.contains(stem@) {
                let j = choose|j: int| 0 <= j < t.len() && t[j] == stem@;
                assert(t1[j] == stem@);
            }
        }
        i = i + 1;
    }
    assert(list@.take(list.len() as int) =~= list@);
    if present && !found {
        let mut out = list;
        let ghost before = texts(out@);
        out.push(String::from_str(stem));
        assert(texts(out@) =~= before.push(stem@));
        Some(out)
    } else if !present && found {
        Some(kept)
    } else {
        None
    }
}

/// Switching a name on or off twice in the same direction changes the list once: the
/// second call finds the list as asked.
pub proof fn lemma_toggle_settles(list: Seq<Seq<char>>, stem: Seq<char>)
    ensures
        list.push(stem).contains(stem),
        !without(list, stem).contains(stem),
    decreases list.len(),
{
    assert(list.push(stem)[list.len() as int] == stem);
    if list.len() > 0 {
        lemma_toggle_settles(list.drop_last(), stem);
        let w = without(list.drop_last(), stem);
        if list.last() != stem {
            assert forall|j: int| 0 <= j < w.push(list.last()).len() implies w.push(
                list.last(),
            )[j] != stem by {
                if j < w.len() {
                    assert(w.push(list.last())[j] == w[j]);
                }
            }
        }
    }
}

/// Taking out a stem that is not listed leaves the list as it is.
proof fn lemma_without_absent(list: Seq<Seq<char>>, stem: Seq<char>)
    requires
        !list.contains(stem),
    ensures
        without(list, stem) == list,
    decreases list.len(),
{
    if list.len() > 0 {
        assert(!list.drop_last().contains(stem)) by {
            if list.drop_last().contains(stem) {
                let j = choose|j: int| 0 <= j < list.drop_last().len() && list.drop_last()[j] == stem;
                assert(list[j] == stem);
            }
        }
        lemma_without_absent(list.drop_last(), stem);
        assert(list.last() != stem) by {
            assert(list[list.len() - 1] == list.last());
        }
        assert(list.drop_last().push(list.last()) =~= list);
    }
}

/// Switching a stem on and off again gives the list back: adding a stem that is not
/// listed and then taking it out leaves the list as it was.
pub proof fn lemma_toggle_undoes(list: Seq<Seq<char>>, stem: Seq<char>)
    requires
        !list.contains(stem),
    ensures
        without(list.push(stem), stem) == list,
{
    let l = list.push(stem);
    assert(l.drop_last() =~= list);
    assert(l.last() == stem);
    lemma_without_absent(list, stem);
}

} // verus!
