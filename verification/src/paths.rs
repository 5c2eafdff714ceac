//! Where the data files are: read-only data in the bundle's `Resources/`, user data in
//! `~/Library/Application Support/Manbo/`. The directories themselves are looked up (and
//! created) by the shell; these functions decide on the paths.

use vstd::prelude::*;

use crate::text::{chars_of, push_char, push_str};

verus! {

/// Errors of the data lookup.
#[derive(Debug, Clone, PartialEq, Eq)]
pub enum HostError {
    /// The bundle has no resource directory: it was not packaged by the bundle script.
    NoResources,
    /// A resource file is missing; the value is its path.
    MissingResource(String),
}

/// `dir` joined with `name` (`Path::join`): an absolute `name` replaces `dir`, otherwise
/// one `'/'` separates them unless `dir` is empty or already ends with one.
pub open spec fn join_spec(dir: Seq<char>, name: Seq<char>) -> Seq<char> {
    if name.len() > 0 && name[0] == '/' {
        name
    } else if dir.len() == 0 || dir.last() == '/' {
        dir + name
    } else {
        dir + seq!['/'] + name
    }
}

/// The path of `name` inside `dir`.
pub fn join_path(dir: &str, name: &str) -> (path: String)
    ensures
        path@ == join_spec(dir@, name@),
{
    let n = chars_of(name);
    let d = chars_of(dir);
    let mut path = String::new();
    if n.len() > 0 && n[0] == '/' {
        push_str(&mut path, name);
        assert(path@ =~= name@);
    } else {
        push_str(&mut path, dir);
        if !(d.len() == 0 || d[d.len() - 1] == '/') {
            push_char(&mut path, '/');
        }
        push_str(&mut path, name);
        assert(path@ =~= join_spec(dir@, name@));
    }
    path
}

/// The full path of a resource file: `Err(NoResources)` without a resource directory,
/// `Err(MissingResource(path))` when `is_file` says the joined path is not a file (checked
/// here rather than failing later when it is read).
pub fn resource(resources_dir: Option<&str>, name: &str, is_file: bool) -> (r: Result<String, HostError>)
    ensures
        match resources_dir {
            None => r == Err::<String, HostError>(HostError::NoResources),
            Some(dir) => match r {
                Ok(path) => is_file && path@ == join_spec(dir@, name@),
                Err(HostError::MissingResource(path)) => !is_file && path@ == join_spec(
                    dir@,
                    name@,
                ),
                Err(HostError::NoResources) => false,
            },
        },
{
    match resources_dir {
        None => Err(HostError::NoResources),
        Some(dir) => {
            let path = join_path(dir, name);
            if is_file {
                Ok(path)
            } else {
                Err(HostError::MissingResource(path))
            }
        },
    }
}

/// The bundled domain dictionaries: `Resources/dicts/`, when it is a directory.
pub fn bundled_dicts_dir(resources_dir: Option<&str>, is_dir: bool) -> (r: Option<String>)
    ensures
        match resources_dir {
            Some(dir) if is_dir => r matches Some(p) && p@ == join_spec(dir@, "dicts"@),
            _ => r is None,
        },
{
    match resources_dir {
        Some(dir) if is_dir => Some(join_path(dir, "dicts")),
        _ => None,
    }
}

/// The configuration file, `config.toml` in the user data directory.
pub fn config_file(user_data_dir: Option<&str>) -> (r: Option<String>)
    ensures
        match user_data_dir {
            Some(dir) => r matches Some(p) && p@ == join_spec(dir@, "config.toml"@),
            None => r is None,
        },
{
    match user_data_dir {
        Some(dir) => Some(join_path(dir, "config.toml")),
        None => None,
    }
}

/// The name of a bundled glossary file: `glossary-<code>.<extension>`.
pub open spec fn glossary_name(code: Seq<char>, extension: Seq<char>) -> Seq<char> {
    "glossary-"@ + code + "."@ + extension
}

fn glossary_file(code: &str, extension: &str) -> (name: String)
    ensures
        name@ == glossary_name(code@, extension@),
{
    let mut name = String::new();
    push_str(&mut name, "glossary-");
    push_str(&mut name, code);
    push_str(&mut name, ".");
    push_str(&mut name, extension);
    assert(name@ =~= glossary_name(code@, extension@));
    name
}

/// The bundled glossary of a language (`code` such as `en`): the packed
/// `glossary-<code>.qj` when it is a file, else the text `glossary-<code>.tsv`; the
/// error is the second lookup's. `qj_is_file` and `tsv_is_file` say whether the two
/// joined paths are files.
pub fn glossary_path(
    resources_dir: Option<&str>,
    code: &str,
    qj_is_file: bool,
    tsv_is_file: bool,
) -> (r: Result<String, HostError>)
    ensures
        match resources_dir {
            None => r == Err::<String, HostError>(HostError::NoResources),
            Some(dir) => {
                let qj = join_spec(dir@, glossary_name(code@, "qj"@));
                let tsv = join_spec(dir@, glossary_name(code@, "tsv"@));
                match r {
                    Ok(path) => if qj_is_file {
                        path@ == qj
                    } else {
                        tsv_is_file && path@ == tsv
                    },
                    Err(HostError::MissingResource(path)) => !qj_is_file && !tsv_is_file && path@
                        == tsv,
                    Err(HostError::NoResources) => false,
                }
            },
        },
{
    let qj = glossary_file(code, "qj");
    match resource(resources_dir, qj.as_str(), qj_is_file) {
        Ok(path) => Ok(path),
        Err(_) => {
            let tsv = glossary_file(code, "tsv");
            resource(resources_dir, tsv.as_str(), tsv_is_file)
        },
    }
}

} // verus!
