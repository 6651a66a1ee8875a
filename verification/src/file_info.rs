//! What is known of a file: its name, where it is, when it was touched and
//! how large it is.
//!
//! The library does not look at the filesystem. Its caller does, and hands
//! over a [`PathProbe`]: what it found for one path.

use vstd::prelude::*;
use crate::text::{chars_of, slice};

verus! {

/// A point in time as the filesystem reports it.
#[derive(Clone, Copy, Debug, PartialEq, Eq)]
pub enum Timestamp {
    /// Earlier than the epoch.
    BeforeEpoch,
    /// The whole seconds that have passed since the epoch.
    SinceEpoch(u64),
}

/// What a stat call reports of an existing file. A time is `None` where
/// the filesystem does not keep it.
#[derive(Clone, Copy, Debug, PartialEq, Eq)]
pub struct Stat {
    pub accessed: Option<Timestamp>,
    pub created: Option<Timestamp>,
    pub modified: Option<Timestamp>,
    pub size: u64,
}

/// What was found for one path.
#[derive(Debug, PartialEq, Eq)]
pub struct PathProbe {
    /// The path as it was given.
    pub path: String,
    /// The last component of the path, if it has one.
    pub filename: Option<String>,
    /// The canonical absolute path, if the path could be resolved.
    pub absolute_path: Option<String>,
    /// The file's metadata, if it could be read.
    pub stat: Option<Stat>,
}

/// Why a path gave no file.
#[derive(Debug, PartialEq, Eq)]
pub enum NotFoundError {
    /// The path has no last component.
    NoFilename,
    /// The metadata of the file with this name could not be read.
    Unreadable(String),
    /// Nothing exists at this path.
    Missing(String),
}

/// The metadata of one file.
#[derive(Debug, PartialEq, Eq)]
pub struct FileInfo {
    pub filename: String,
    pub extension: Option<String>,
    pub path: String,
    pub absolute_path: Option<String>,
    /// Seconds since the epoch, as are `created` and `modified`.
    pub accessed: Option<u64>,
    pub created: Option<u64>,
    pub modified: Option<u64>,
    /// The size in bytes.
    pub filesize: u64,
}

/// An optional string as plain text.
pub open spec fn text_of(s: Option<String>) -> Option<Seq<char>> {
    match s {
        Some(s) => Some(s@),
        None => None,
    }
}

/// A copy of an optional string.
pub fn clone_text(s: &Option<String>) -> (copy: Option<String>)
    ensures
        text_of(copy) == text_of(*s),
{
    match s {
        Some(s) => Some(s.clone()),
        None => None,
    }
}

/// The seconds since the epoch of a time, if the filesystem keeps the time
/// and it is not earlier than the epoch.
pub open spec fn epoch_seconds(time: Option<Timestamp>) -> Option<u64> {
    match time {
        Some(Timestamp::SinceEpoch(seconds)) => Some(seconds),
        _ => None,
    }
}

/// Where the last `.` of `name` stands.
pub open spec fn last_dot(name: Seq<char>) -> Option<int>
    decreases name.len(),
{
    if name.len() == 0 {
        None
    } else if name.last() == '.' {
        Some(name.len() - 1)
    } else {
        last_dot(name.drop_last())
    }
}

/// The extension of a file name: what follows its last `.`, if it has one.
pub open spec fn extension_of(name: Seq<char>) -> Option<Seq<char>> {
    match last_dot(name) {
        Some(dot) => Some(name.subrange(dot + 1, name.len() as int)),
        None => None,
    }
}

/// `last_dot` finds a `.` after which no other stands, and finds none only
/// where there is none.
pub proof fn lemma_last_dot(name: Seq<char>)
    ensures
        match last_dot(name) {
            Some(dot) => 0 <= dot < name.len() && name[dot] == '.' && forall|i: int|
                dot < i < name.len() ==> name[i] != '.',
            None => forall|i: int| 0 <= i < name.len() ==> name[i] != '.',
        },
    decreases name.len(),
{
    if name.len() > 0 && name.last() != '.' {
        let front = name.drop_last();
        lemma_last_dot(front);
        assert(forall|i: int| 0 <= i < front.len() ==> front[i] == name[i]);
    }
}

/// The extension of the file name `name`. A name without `.` has none; a
/// name that ends in `.` has the empty one.
pub fn extension(name: &str) -> (found: Option<String>)
    ensures
        text_of(found) == extension_of(name@),
        found is None <==> forall|i: int| 0 <= i < name@.len() ==> name@[i] != '.',
        found matches Some(extension) ==> forall|i: int|
            0 <= i < extension@.len() ==> extension@[i] != '.',
{
    proof {
        lemma_last_dot(name@);
    }
    let chars = chars_of(name);
    let mut end = chars.len();
    assert(chars@.take(end as int) =~= chars@);
    while end > 0 && chars[end - 1] != '.'
        invariant
            end <= chars.len(),
            chars@ == name@,
            last_dot(chars@) == last_dot(chars@.take(end as int)),
        decreases end,
    {
        assert(chars@.take(end as int).drop_last() =~= chars@.take(end as int - 1));
        end -= 1;
    }
    if end == 0 {
        None
    } else {
        Some(slice(name, end, chars.len()))
    }
}

impl Timestamp {
    /// The seconds since the epoch of a time that the filesystem may or
    /// may not keep.
    pub fn seconds(time: Option<Timestamp>) -> (seconds: Option<u64>)
        ensures
            seconds == epoch_seconds(time),
    {
        match time {
            Some(Timestamp::SinceEpoch(seconds)) => Some(seconds),
            _ => None,
        }
    }
}

impl NotFoundError {
    /// The message of this error as plain text.
    pub open spec fn message_text(self) -> Seq<char> {
        match self {
            NotFoundError::NoFilename => "File has no filename"@,
            NotFoundError::Unreadable(name) => "File \""@ + name@ + "\" probably doesn't exist"@,
            NotFoundError::Missing(path) => "File "@ + path@ + " doesn't exist"@,
        }
    }

    /// A message for the user.
    pub fn message(&self) -> (message: String)
        ensures
            message@ == self.message_text(),
    {
        match self {
            NotFoundError::NoFilename => String::from_str("File has no filename"),
            NotFoundError::Unreadable(name) => {
                let mut message = String::from_str("File \"");
                message.append(name.as_str());
                message.append("\" probably doesn't exist");
                message
            },
            NotFoundError::Missing(path) => {
                let mut message = String::from_str("File ");
                message.append(path.as_str());
                message.append(" doesn't exist");
                message
            },
        }
    }
}

/// Whether `outcome` is what extracting the metadata of `probe` gives.
///
/// Extraction succeeds exactly where the path has a last component and its
/// metadata could be read. Every other field is then taken over as far as
/// it is known: a missing time or absolute path is no error.
pub open spec fn extracted(outcome: Result<FileInfo, NotFoundError>, probe: PathProbe) -> bool {
    match outcome {
        Ok(info) => {
            &&& probe.filename is Some
            &&& probe.stat is Some
            &&& info.filename@ == probe.filename->0@
            &&& text_of(info.extension) == extension_of(info.filename@)
            &&& info.path@ == probe.path@
            &&& text_of(info.absolute_path) == text_of(probe.absolute_path)
            &&& info.accessed == epoch_seconds(probe.stat->0.accessed)
            &&& info.created == epoch_seconds(probe.stat->0.created)
            &&& info.modified == epoch_seconds(probe.stat->0.modified)
            &&& info.filesize == probe.stat->0.size
        },
        Err(NotFoundError::NoFilename) => probe.filename is None,
        Err(NotFoundError::Unreadable(name)) => {
            &&& probe.filename is Some
            &&& probe.stat is None
            &&& name@ == probe.filename->0@
        },
        Err(NotFoundError::Missing(_)) => false,
    }
}

impl FileInfo {
    /// The metadata of the file that `probe` describes.
    pub fn from_path(probe: &PathProbe) -> (outcome: Result<FileInfo, NotFoundError>)
        ensures
            extracted(outcome, *probe),
    {
        let filename = match &probe.filename {
            Some(filename) => filename.clone(),
            None => {
                return Err(NotFoundError::NoFilename);
            },
        };
        let stat = match probe.stat {
            Some(stat) => stat,
            None => {
                return Err(NotFoundError::Unreadable(filename));
            },
        };
        let extension = extension(filename.as_str());
        Ok(
            FileInfo {
                filename,
                extension,
                path: probe.path.clone(),
                absolute_path: clone_text(&probe.absolute_path),
                accessed: Timestamp::seconds(stat.accessed),
                created: Timestamp::seconds(stat.created),
                modified: Timestamp::seconds(stat.modified),
                filesize: stat.size,
            },
        )
    }
}

} // verus!
