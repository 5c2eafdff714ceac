//! `--tune name=value`: replacing a few hand-picked engine constants for a replay run.
//! The value is a floating-point number, which the shell parses; the syntax and the names
//! are checked here.

use vstd::prelude::*;

use crate::text::{chars_of, find_char, find_from, same_text, string_of_range, trim, trim_bounds};

verus! {

/// The constants that can be tuned.
#[derive(Debug, Clone, Copy, PartialEq, Eq, Structural)]
pub enum TuneKey {
    Lambda,
    K,
    Cap,
    Discount,
    Transpose,
    Substitute,
    Extra,
    Missing,
    TypoCap,
    Correction,
}

/// What can be wrong with a `--tune` setting.
#[derive(Debug, Clone, PartialEq, Eq)]
pub enum TuneError {
    /// Not of the form `name=value`; the value is the setting.
    Syntax(String),
    /// The value is not a number; the value is the setting.
    Value(String),
    /// No constant has this name.
    Unknown { name: String },
}

/// The constant a name stands for.
pub open spec fn tune_key_of(name: Seq<char>) -> Option<TuneKey> {
    if name == "lambda"@ {
        Some(TuneKey::Lambda)
    } else if name == "k"@ {
        Some(TuneKey::K)
    } else if name == "cap"@ {
        Some(TuneKey::Cap)
    } else if name == "discount"@ {
        Some(TuneKey::Discount)
    } else if name == "transpose"@ {
        Some(TuneKey::Transpose)
    } else if name == "substitute"@ {
        Some(TuneKey::Substitute)
    } else if name == "extra"@ {
        Some(TuneKey::Extra)
    } else if name == "missing"@ {
        Some(TuneKey::Missing)
    } else if name == "typo-cap"@ {
        Some(TuneKey::TypoCap)
    } else if name == "correction"@ {
        Some(TuneKey::Correction)
    } else {
        None
    }
}

/// Each tunable name stands for the engine constant of that name: `lambda` for the
/// interpolation weight, `k` for the confidence constant, `cap` for the confidence cap,
/// and so on through the ten; and no text that is none of them stands for anything.
pub proof fn lemma_tune_names(name: Seq<char>)
    ensures
        tune_key_of("lambda"@) == Some(TuneKey::Lambda),
        tune_key_of("k"@) == Some(TuneKey::K),
        tune_key_of("cap"@) == Some(TuneKey::Cap),
        tune_key_of("discount"@) == Some(TuneKey::Discount),
        tune_key_of("transpose"@) == Some(TuneKey::Transpose),
        tune_key_of("substitute"@) == Some(TuneKey::Substitute),
        tune_key_of("extra"@) == Some(TuneKey::Extra),
        tune_key_of("missing"@) == Some(TuneKey::Missing),
        tune_key_of("typo-cap"@) == Some(TuneKey::TypoCap),
        tune_key_of("correction"@) == Some(TuneKey::Correction),
        tune_key_of(name) is Some <==> (name == "lambda"@ || name == "k"@ || name == "cap"@
            || name == "discount"@ || name == "transpose"@ || name == "substitute"@
            || name == "extra"@ || name == "missing"@ || name == "typo-cap"@
            || name == "correction"@),
{
    reveal_strlit("lambda");
    assert("lambda"@.len() == 6 && "lambda"@[0] == 'l');
    reveal_strlit("k");
    assert("k"@.len() == 1 && "k"@[0] == 'k');
    reveal_strlit("cap");
    assert("cap"@.len() == 3 && "cap"@[0] == 'c');
    reveal_strlit("discount");
    assert("discount"@.len() == 8 && "discount"@[0] == 'd');
    reveal_strlit("transpose");
    assert("transpose"@.len() == 9 && "transpose"@[0] == 't');
    reveal_strlit("substitute");
    assert("substitute"@.len() == 10 && "substitute"@[0] == 's');
    reveal_strlit("extra");
    assert("extra"@.len() == 5 && "extra"@[0] == 'e');
    reveal_strlit("missing");
    assert("missing"@.len() == 7 && "missing"@[0] == 'm');
    reveal_strlit("typo-cap");
    assert("typo-cap"@.len() == 8 && "typo-cap"@[0] == 't');
    reveal_strlit("correction");
    assert("correction"@.len() == 10 && "correction"@[0] == 'c');
}

/// Splits a setting at its first `'='` into its trimmed name and value text;
/// `Err(Syntax)` carrying the setting when there is no `'='`.
pub fn split_setting(setting: &str) -> (r: Result<(String, String), TuneError>)
    ensures
        ({
            let k = find_from(setting@, '=', 0);
            match r {
                Ok((name, value)) => k < setting@.len() && name@ == trim(setting@.take(k))
                    && value@ == trim(setting@.skip(k + 1)),
                Err(TuneError::Syntax(s)) => k == setting@.len() && s@ == setting@,
                Err(_) => false,
            }
        }),
{
    let cs = chars_of(setting);
    let n = cs.len();
    let k = find_char(&cs, '=', 0, n);
    assert(cs@.take(n as int) =~= cs@);
    if k == n {
        return Err(TuneError::Syntax(String::from_str(setting)));
    }
    let (a, b) = trim_bounds(&cs, 0, k);
    let (c, d) = trim_bounds(&cs, k + 1, n);
    assert(cs@.subrange(0, k as int) =~= setting@.take(k as int));
    assert(cs@.subrange(k + 1, n as int) =~= setting@.skip(k + 1));
    Ok((string_of_range(&cs, a, b), string_of_range(&cs, c, d)))
}

/// The constant a (trimmed) name stands for; `Err(Unknown)` naming it otherwise.
pub fn tune_key(name: &str) -> (r: Result<TuneKey, TuneError>)
    ensures
        match tune_key_of(name@) {
            Some(key) => r == Ok::<TuneKey, TuneError>(key),
            None => r matches Err(TuneError::Unknown { name: n }) && n@ == name@,
        },
{
    if same_text(name, "lambda") {
        Ok(TuneKey::Lambda)
    } else if same_text(name, "k") {
        Ok(TuneKey::K)
    } else if same_text(name, "cap") {
        Ok(TuneKey::Cap)
    } else if same_text(name, "discount") {
        Ok(TuneKey::Discount)
    } else if same_text(name, "transpose") {
        Ok(TuneKey::Transpose)
    } else if same_text(name, "substitute") {
        Ok(TuneKey::Substitute)
    } else if same_text(name, "extra") {
        Ok(TuneKey::Extra)
    } else if same_text(name, "missing") {
        Ok(TuneKey::Missing)
    } else if same_text(name, "typo-cap") {
        Ok(TuneKey::TypoCap)
    } else if same_text(name, "correction") {
        Ok(TuneKey::Correction)
    } else {
        Err(TuneError::Unknown { name: String::from_str(name) })
    }
}

/// Checks one `--tune` setting in the order the errors are reported: the `name=value`
/// form first, then the value (`value_is_number` says whether the value text after the
/// first `'='` parses as a number), then the name.
pub fn tune_setting(setting: &str, value_is_number: bool) -> (r: Result<TuneKey, TuneError>)
    ensures
        ({
            let k = find_from(setting@, '=', 0);
            if k == setting@.len() {
                r matches Err(TuneError::Syntax(s)) && s@ == setting@
            } else if !value_is_number {
                r matches Err(TuneError::Value(s)) && s@ == setting@
            } else {
                match tune_key_of(trim(setting@.take(k))) {
                    Some(key) => r == Ok::<TuneKey, TuneError>(key),
                    None => r matches Err(TuneError::Unknown { name: n }) && n@ == trim(
                        setting@.take(k),
                    ),
                }
            }
        }),
{
    match split_setting(setting) {
        Err(e) => Err(e),
        Ok((name, _)) => {
            if !value_is_number {
                Err(TuneError::Value(String::from_str(setting)))
            } else {
                tune_key(name.as_str())
            }
        },
    }
}

} // verus!
