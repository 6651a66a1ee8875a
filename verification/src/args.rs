//! What the command line asks for: the files to rename and the
//! transformers to run on them.

use vstd::prelude::*;
use crate::file::File;
use crate::file_info::{NotFoundError, PathProbe};

verus! {

/// A command line that cannot be served.
#[derive(Clone, Copy, Debug, PartialEq, Eq)]
pub enum UsageError {
    /// No file to rename was named.
    NoInput,
}

impl UsageError {
    /// A message for the user.
    pub fn message(&self) -> (message: String)
        ensures
            message@ == "You must supply at least one input item"@,
    {
        String::from_str("You must supply at least one input item")
    }
}

/// The path of a transformer, and whether anything exists at it.
#[derive(Debug, PartialEq, Eq)]
pub struct ScriptCandidate {
    pub path: String,
    pub found: bool,
}

/// The transformers to run, and those that were named but do not exist.
#[derive(Debug, PartialEq, Eq)]
pub struct Scripts {
    /// The paths that exist, in the order in which they were named.
    pub paths: Vec<String>,
    /// One error for each path that does not exist, in the same order.
    pub missing: Vec<NotFoundError>,
}

/// The strings of `strings` as plain text.
pub open spec fn texts(strings: Seq<String>) -> Seq<Seq<char>> {
    strings.map_values(|s: String| s@)
}

/// The paths of those candidates that exist, in order.
pub open spec fn found_paths(candidates: Seq<ScriptCandidate>) -> Seq<Seq<char>>
    decreases candidates.len(),
{
    if candidates.len() == 0 {
        Seq::empty()
    } else if candidates.last().found {
        found_paths(candidates.drop_last()).push(candidates.last().path@)
    } else {
        found_paths(candidates.drop_last())
    }
}

/// The paths of those candidates that do not exist, in order.
pub open spec fn missing_paths(candidates: Seq<ScriptCandidate>) -> Seq<Seq<char>>
    decreases candidates.len(),
{
    if candidates.len() == 0 {
        Seq::empty()
    } else if candidates.last().found {
        missing_paths(candidates.drop_last())
    } else {
        missing_paths(candidates.drop_last()).push(candidates.last().path@)
    }
}

/// The paths that a list of `Missing` errors names; every other error
/// counts as the empty path.
pub open spec fn named_missing(errors: Seq<NotFoundError>) -> Seq<Seq<char>> {
    errors.map_values(
        |error: NotFoundError|
            match error {
                NotFoundError::Missing(path) => path@,
                _ => Seq::<char>::empty(),
            },
    )
}

/// `path` itself where something was found at it, and the error that
/// names it where nothing was.
pub fn path_exists(path: &str, found: bool) -> (checked: Result<&str, NotFoundError>)
    ensures
        match checked {
            Ok(same) => found && same@ == path@,
            Err(NotFoundError::Missing(missing)) => !found && missing@ == path@,
            Err(_) => false,
        },
{
    if found {
        Ok(path)
    } else {
        Err(NotFoundError::Missing(String::from_str(path)))
    }
}

/// The files to rename, one for each probe and in their order. At least
/// one must be named.
pub fn get_files(inputs: &Vec<PathProbe>) -> (files: Result<Vec<File>, UsageError>)
    ensures
        match files {
            Ok(files) => {
                &&& inputs.len() > 0
                &&& files.len() == inputs.len()
                &&& forall|i: int| 0 <= i < files.len() ==> (#[trigger] files[i]).opened(inputs[i])
            },
            Err(_) => inputs.len() == 0,
        },
{
    if inputs.len() == 0 {
        return Err(UsageError::NoInput);
    }
    let mut files: Vec<File> = Vec::new();
    let mut i: usize = 0;
    while i < inputs.len()
        invariant
            i <= inputs.len(),
            files.len() == i,
            forall|j: int| 0 <= j < i ==> (#[trigger] files[j]).opened(inputs[j]),
        decreases inputs.len() - i,
    {
        files.push(File::from_path(&inputs[i]));
        i += 1;
    }
    Ok(files)
}

/// Sorts the transformers that were named into those that exist and those
/// that do not. The latter are reported and then left out; they stop
/// nothing.
pub fn get_scripts(candidates: &Vec<ScriptCandidate>) -> (scripts: Scripts)
    ensures
        texts(scripts.paths@) == found_paths(candidates@),
        named_missing(scripts.missing@) == missing_paths(candidates@),
        forall|i: int| 0 <= i < scripts.missing.len() ==> (#[trigger] scripts.missing[i]) is Missing,
{
    let mut paths: Vec<String> = Vec::new();
    let mut missing: Vec<NotFoundError> = Vec::new();
    let mut i: usize = 0;
    while i < candidates.len()
        invariant
            i <= candidates.len(),
            texts(paths@) == found_paths(candidates@.take(i as int)),
            named_missing(missing@) == missing_paths(candidates@.take(i as int)),
            forall|j: int| 0 <= j < missing.len() ==> (#[trigger] missing[j]) is Missing,
        decreases candidates.len() - i,
    {
        let ghost before_paths = texts(paths@);
        let ghost before_missing = named_missing(missing@);
        proof {
            let upto = candidates@.take(i as int + 1);
            assert(upto.drop_last() =~= candidates@.take(i as int));
            assert(upto.last() == candidates[i as int]);
        }
        match path_exists(candidates[i].path.as_str(), candidates[i].found) {
            Ok(path) => {
                let path = String::from_str(path);
                assert(texts(paths@.push(path)) =~= before_paths.push(path@));
                paths.push(path);
            },
            Err(error) => {
                assert(named_missing(missing@.push(error)) =~= before_missing.push(
                    candidates[i as int].path@,
                ));
                missing.push(error);
            },
        }
        i += 1;
    }
    assert(candidates@.take(candidates.len() as int) =~= candidates@);
    Scripts { paths, missing }
}

} // verus!
