//! One file to rename: the path that was given, its metadata if it has
//! any, and the fragments gathered for it so far.

use vstd::prelude::*;
use vstd::utf8::{decode_utf8, valid_utf8};
use crate::file_info::{extracted, text_of, FileInfo, NotFoundError, PathProbe};
use crate::fragments::{pair_views, pairs_map, FragmentMap, Fragments};
use crate::json::{decode_object, decode_text, encode_object, json_object, json_text};
use crate::template::{rendered, Template};
use crate::text::{decimal, decimal_string};

verus! {

/// How one run of a transformer ended.
#[derive(Debug, PartialEq, Eq)]
pub enum ScriptOutcome {
    /// The transformer could not be started.
    SpawnFailed,
    /// The transformer ran and exited. `success` says whether its exit
    /// code was zero; `stdout` and `stderr` hold all it wrote.
    Exited { success: bool, stdout: Vec<u8>, stderr: Vec<u8> },
    /// The transformer was still running when its time was up, and was
    /// stopped. `stderr` holds what it had written until then.
    TimedOut { stderr: Vec<u8> },
}

/// Why a run of a transformer added no fragments.
#[derive(Debug, PartialEq, Eq)]
pub enum PipelineError {
    /// The transformer at this path could not be started.
    TransformerSpawn(String),
    /// The transformer exited with code zero, but what it wrote is no
    /// UTF-8 text or no JSON object of strings.
    MalformedResponse,
    /// The transformer exited with another code or ran out of time; this
    /// is what it wrote to its standard error.
    TransformerFailure(Vec<u8>),
}

/// A file as it was named on the command line. It may not exist: then
/// `file_info` holds the reason.
#[derive(Debug)]
pub struct File {
    pub path_provided: String,
    pub file_info: Result<FileInfo, NotFoundError>,
    pub fragments: Fragments,
}

/// What is to be done next for a file.
#[derive(Clone, Copy, Debug, PartialEq, Eq)]
pub enum Step {
    /// Run the transformer with this number, counted from zero.
    Run(usize),
    /// Every transformer has run: render the new name and rename the file.
    Rename,
    /// Leave the file as it is and go on to the next one.
    Stop,
}

/// The step that follows for a file of which `found` says whether it
/// exists, when `ran` of `scripts` transformers have run and `fatal` says
/// whether the last of them ended the pipeline.
///
/// A file that does not exist is left alone. So is one whose pipeline was
/// ended: it is not renamed from fragments that are incomplete. Otherwise
/// the transformers run one after the other, and the file is renamed when
/// none is left.
pub open spec fn step_after(found: bool, scripts: usize, ran: usize, fatal: bool) -> Step {
    if !found || fatal {
        Step::Stop
    } else if ran < scripts {
        Step::Run(ran)
    } else {
        Step::Rename
    }
}

/// Whether a run that was reported as `result` ends the pipeline of its
/// file: one whose transformer could not be started does, no other.
pub open spec fn ends_pipeline(result: Result<(), PipelineError>) -> bool {
    match result {
        Err(PipelineError::TransformerSpawn(_)) => true,
        _ => false,
    }
}

impl PipelineError {
    /// Whether this error ends the pipeline of the file it happened for.
    /// A transformer that cannot be started does; one that fails or
    /// answers badly only loses its own contribution, and the next
    /// transformer runs.
    pub fn is_fatal(&self) -> (fatal: bool)
        ensures
            fatal == self is TransformerSpawn,
    {
        match self {
            PipelineError::TransformerSpawn(_) => true,
            _ => false,
        }
    }
}

/// `store` with `value` under `name`, if there is a value.
pub open spec fn with_optional(
    store: FragmentMap,
    name: Seq<char>,
    value: Option<Seq<char>>,
) -> FragmentMap {
    match value {
        Some(value) => store.insert(name, value),
        None => store,
    }
}

/// The decimal numeral of a number, if there is one.
pub open spec fn numeral(n: Option<u64>) -> Option<Seq<char>> {
    match n {
        Some(n) => Some(decimal(n as nat)),
        None => None,
    }
}

/// `store` with the fragments that the metadata `info` gives: always
/// `filename`, `path` and `filesize`, and each of `extension`,
/// `absolute_path`, `accessed`, `created` and `modified` that is known.
pub open spec fn with_file_info(store: FragmentMap, info: FileInfo) -> FragmentMap {
    let store = store.insert("filename"@, info.filename@);
    let store = with_optional(store, "extension"@, text_of(info.extension));
    let store = store.insert("path"@, info.path@);
    let store = with_optional(store, "absolute_path"@, text_of(info.absolute_path));
    let store = with_optional(store, "accessed"@, numeral(info.accessed));
    let store = with_optional(store, "created"@, numeral(info.created));
    let store = with_optional(store, "modified"@, numeral(info.modified));
    store.insert("filesize"@, decimal(info.filesize as nat))
}

/// The fragments that a transformer answered with on its standard output,
/// or `None` where its output is malformed.
pub open spec fn response_of(stdout: Seq<u8>) -> Option<FragmentMap> {
    if valid_utf8(stdout) {
        json_object(decode_utf8(stdout))
    } else {
        None
    }
}

/// The fragments that a run contributes. Only a run that exited with code
/// zero and answered well contributes any.
pub open spec fn contribution(outcome: ScriptOutcome) -> Option<FragmentMap> {
    match outcome {
        ScriptOutcome::Exited { success, stdout, stderr } => if success {
            response_of(stdout@)
        } else {
            None
        },
        _ => None,
    }
}

/// What a run that added nothing wrote to its standard error, where it
/// ran at all.
pub open spec fn diagnostic_of(outcome: ScriptOutcome) -> Option<Seq<u8>> {
    match outcome {
        ScriptOutcome::SpawnFailed => None,
        ScriptOutcome::Exited { success, stdout, stderr } => if success {
            None
        } else {
            Some(stderr@)
        },
        ScriptOutcome::TimedOut { stderr } => Some(stderr@),
    }
}

/// The store after a run: what the run contributes is written over it.
pub open spec fn store_after(store: FragmentMap, outcome: ScriptOutcome) -> FragmentMap {
    match contribution(outcome) {
        Some(fragments) => store.union_prefer_right(fragments),
        None => store,
    }
}

/// Whether `result` is what a run of the transformer at `script` that
/// ended with `outcome` is reported as.
pub open spec fn reported(
    result: Result<(), PipelineError>,
    script: Seq<char>,
    outcome: ScriptOutcome,
) -> bool {
    match result {
        Ok(_) => contribution(outcome) is Some,
        Err(PipelineError::TransformerSpawn(path)) => outcome is SpawnFailed && path@ == script,
        Err(PipelineError::MalformedResponse) => {
            &&& outcome matches ScriptOutcome::Exited { success, stdout, stderr }
            &&& success
            &&& response_of(stdout@) is None
        },
        Err(PipelineError::TransformerFailure(diagnostic)) => diagnostic_of(outcome) == Some(
            diagnostic@,
        ),
    }
}

/// Of two runs, the later wins: a fragment that the later run answers with
/// has the later run's value, whatever the earlier one wrote.
pub proof fn lemma_later_run_wins(
    store: FragmentMap,
    first: ScriptOutcome,
    second: ScriptOutcome,
    name: Seq<char>,
)
    requires
        contribution(second) is Some,
        contribution(second)->0.contains_key(name),
    ensures
        store_after(store_after(store, first), second).contains_key(name),
        store_after(store_after(store, first), second)[name] == contribution(second)->0[name],
{
}

/// A run that did not exit with code zero leaves the store as it was: one
/// that exited with another code, one that ran out of time, and one that
/// never started.
pub proof fn lemma_failed_run_keeps_store(store: FragmentMap, outcome: ScriptOutcome)
    requires
        outcome matches ScriptOutcome::Exited { success, stdout, stderr } ==> !success,
    ensures
        store_after(store, outcome) == store,
{
}

/// A run never removes a fragment.
pub proof fn lemma_run_keeps_names(store: FragmentMap, outcome: ScriptOutcome, name: Seq<char>)
    requires
        store.contains_key(name),
    ensures
        store_after(store, outcome).contains_key(name),
{
}

impl File {
    /// Whether `self` is the file that `probe` describes, before any
    /// fragment was gathered.
    pub open spec fn opened(self, probe: PathProbe) -> bool {
        &&& self.path_provided@ == probe.path@
        &&& extracted(self.file_info, probe)
        &&& self.fragments@ == FragmentMap::empty()
    }

    /// The file that `probe` describes, with no fragments yet.
    pub fn from_path(probe: &PathProbe) -> (file: File)
        ensures
            file.opened(*probe),
    {
        File {
            path_provided: probe.path.clone(),
            file_info: FileInfo::from_path(probe),
            fragments: Fragments::new(),
        }
    }

    /// Whether the file exists, that is, whether its metadata is known.
    pub fn file_exists(&self) -> (found: bool)
        ensures
            found == self.file_info is Ok,
    {
        self.file_info.is_ok()
    }

    /// What is to be done next for the file, when `ran` of `scripts`
    /// transformers have run and `last` is what the last run was reported
    /// as (`Ok` before the first).
    pub fn next_step(&self, scripts: usize, ran: usize, last: &Result<(), PipelineError>) -> (step:
        Step)
        ensures
            step == step_after(self.file_info is Ok, scripts, ran, ends_pipeline(*last)),
    {
        let fatal = match last {
            Ok(_) => false,
            Err(error) => error.is_fatal(),
        };
        if !self.file_exists() || fatal {
            Step::Stop
        } else if ran < scripts {
            Step::Run(ran)
        } else {
            Step::Rename
        }
    }

    /// Writes the file's metadata to its fragments. Where the file does
    /// not exist, nothing changes.
    pub fn add_file_info_to_fragments(&mut self)
        ensures
            final(self).path_provided == old(self).path_provided,
            final(self).file_info == old(self).file_info,
            final(self).fragments@ == match old(self).file_info {
                Ok(info) => with_file_info(old(self).fragments@, info),
                Err(_) => old(self).fragments@,
            },
    {
        if let Ok(info) = &self.file_info {
            self.fragments.insert(String::from_str("filename"), info.filename.clone());
            if let Some(extension) = &info.extension {
                self.fragments.insert(String::from_str("extension"), extension.clone());
            }
            self.fragments.insert(String::from_str("path"), info.path.clone());
            if let Some(absolute_path) = &info.absolute_path {
                self.fragments.insert(String::from_str("absolute_path"), absolute_path.clone());
            }
            if let Some(seconds) = info.accessed {
                self.fragments.insert(String::from_str("accessed"), decimal_string(seconds));
            }
            if let Some(seconds) = info.created {
                self.fragments.insert(String::from_str("created"), decimal_string(seconds));
            }
            if let Some(seconds) = info.modified {
                self.fragments.insert(String::from_str("modified"), decimal_string(seconds));
            }
            self.fragments.insert(String::from_str("filesize"), decimal_string(info.filesize));
        }
    }

    /// What a transformer is to read on its standard input: all fragments
    /// gathered so far, as JSON.
    pub fn script_input(&self) -> (text: String)
        ensures
            text@ == json_text(self.fragments@),
    {
        encode_object(self.fragments.entries()).unwrap()
    }

    /// Takes in how a run of the transformer at `script` ended. What a
    /// successful run answered is written over the fragments; any other
    /// run leaves them as they were and is reported as an error. A run
    /// that ran out of time counts as one that failed.
    pub fn run_script(&mut self, script: &str, outcome: ScriptOutcome) -> (result: Result<
        (),
        PipelineError,
    >)
        ensures
            final(self).path_provided == old(self).path_provided,
            final(self).file_info == old(self).file_info,
            final(self).fragments@ == store_after(old(self).fragments@, outcome),
            reported(result, script@, outcome),
    {
        match outcome {
            ScriptOutcome::SpawnFailed => Err(
                PipelineError::TransformerSpawn(String::from_str(script)),
            ),
            ScriptOutcome::Exited { success, stdout, stderr } => {
                if success {
                    match decode_text(stdout) {
                        Some(text) => self.add_to_frags(text.as_str()),
                        None => Err(PipelineError::MalformedResponse),
                    }
                } else {
                    Err(PipelineError::TransformerFailure(stderr))
                }
            },
            ScriptOutcome::TimedOut { stderr } => Err(PipelineError::TransformerFailure(stderr)),
        }
    }

    /// Writes the fragments that the JSON text `s` holds over the file's
    /// own, if `s` is a JSON object of strings.
    pub fn add_to_frags(&mut self, s: &str) -> (result: Result<(), PipelineError>)
        ensures
            final(self).path_provided == old(self).path_provided,
            final(self).file_info == old(self).file_info,
            match json_object(s@) {
                Some(object) => result is Ok && final(self).fragments@ == old(
                    self,
                ).fragments@.union_prefer_right(object),
                None => result == Err::<(), PipelineError>(PipelineError::MalformedResponse)
                    && final(self).fragments@ == old(self).fragments@,
            },
    {
        self.apply_answer(decode_object(s))
    }

    /// Takes in the answer of a transformer as it was read: the pairs it
    /// holds, or `None` where it was malformed. The pairs are written
    /// over the file's fragments; a malformed answer changes nothing.
    pub fn apply_answer(&mut self, answer: Option<Vec<(String, String)>>) -> (result: Result<
        (),
        PipelineError,
    >)
        ensures
            final(self).path_provided == old(self).path_provided,
            final(self).file_info == old(self).file_info,
            match answer {
                Some(pairs) => result is Ok && final(self).fragments@ == old(
                    self,
                ).fragments@.union_prefer_right(pairs_map(pair_views(pairs@))),
                None => result == Err::<(), PipelineError>(PipelineError::MalformedResponse)
                    && final(self).fragments@ == old(self).fragments@,
            },
    {
        match answer {
            Some(pairs) => {
                self.fragments.merge(&pairs);
                Ok(())
            },
            None => Err(PipelineError::MalformedResponse),
        }
    }

    /// The new name of the file: the template `fstring` rendered against
    /// the file's fragments.
    pub fn parse_fstring(&self, fstring: &str) -> (name: String)
        ensures
            name@ == rendered(fstring@, self.fragments@),
    {
        Template::parse(fstring).render(&self.fragments)
    }
}

} // verus!
