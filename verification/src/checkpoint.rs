//! What a scan and a restore leave on disk, and how a stored file is interpreted.
use vstd::prelude::*;
use crate::models::RestoreError;

verus! {

/// How far a scan of deleted items got.
#[derive(Debug, Clone)]
pub struct FetchCheckpoint {
    pub item_ids: Vec<String>,
    pub continuation_marker: Option<String>,
    pub page: u64,
    pub complete: bool,
}

impl Default for FetchCheckpoint {
    fn default() -> (c: Self)
        ensures
            c.item_ids@.len() == 0,
            c.continuation_marker is None,
            c.page == 0,
            !c.complete,
    {
        FetchCheckpoint { item_ids: Vec::new(), continuation_marker: None, page: 0, complete: false }
    }
}

/// Which items a restore has already restored, and which it gave up on.
#[derive(Debug, Clone)]
pub struct RestoreProgress {
    pub restored_ids: Vec<String>,
    pub failed_ids: Vec<String>,
}

impl Default for RestoreProgress {
    fn default() -> (p: Self)
        ensures
            p.restored_ids@.len() == 0,
            p.failed_ids@.len() == 0,
    {
        RestoreProgress { restored_ids: Vec::new(), failed_ids: Vec::new() }
    }
}

/// What reading a stored JSON file gave.
#[derive(Debug)]
pub enum StoredJson<T> {
    /// There is no such file.
    Missing,
    /// The file exists but could not be read; the reason.
    Unreadable(String),
    /// The file was read but does not hold a valid value; the reason.
    Corrupt(String),
    /// The file holds this value.
    Parsed(T),
}

/// What removing a file gave.
#[derive(Debug)]
pub enum Removal {
    Removed,
    NotFound,
    Failed(String),
}

/// The value a stored file stands for: nothing when there is no file; a file error when
/// it cannot be read; a corrupt-progress error, never a silent default, when it does not
/// parse.
pub open spec fn stored_value<T>(stored: StoredJson<T>) -> Result<Option<T>, RestoreError> {
    match stored {
        StoredJson::Missing => Ok(None),
        StoredJson::Unreadable(e) => Err(RestoreError::File(e)),
        StoredJson::Corrupt(e) => Err(RestoreError::ProgressCorrupt(e)),
        StoredJson::Parsed(v) => Ok(Some(v)),
    }
}

fn interpret<T>(stored: StoredJson<T>) -> (r: Result<Option<T>, RestoreError>)
    ensures
        r == stored_value(stored),
{
    match stored {
        StoredJson::Missing => Ok(None),
        StoredJson::Unreadable(e) => Err(RestoreError::File(e)),
        StoredJson::Corrupt(e) => Err(RestoreError::ProgressCorrupt(e)),
        StoredJson::Parsed(v) => Ok(Some(v)),
    }
}

/// A name that is one plain path component on every platform: it holds no separator
/// (a slash or a backslash) and no drive colon, and is not made of dots only (`.`, `..`).
pub open spec fn is_plain_file_name(f: Seq<char>) -> bool {
    &&& exists|i: int| 0 <= i < f.len() && #[trigger] f[i] != '.'
    &&& forall|i: int| 0 <= i < f.len() ==> #[trigger] f[i] != '/' && f[i] != '\\' && f[i] != ':'
}

/// The directory is a Windows verbatim path (it starts with `\\?\`), which
/// `PathBuf::push` normalises when it appends to it.
pub open spec fn is_verbatim(dir: Seq<char>) -> bool {
    "\\\\?\\"@.is_prefix_of(dir)
}

/// `Path::join`: the file name placed inside the directory. Whether a separator is
/// inserted, and which, depends on the platform and on how the directory ends, so the
/// result is not named; what is stated is that the path starts with the directory,
/// unless it is a verbatim path, and ends with the file name, which `PathBuf::push`
/// appends unchanged when it is one plain component (a name with a separator or a dot
/// component may be rewritten).
#[verifier::external_body]
fn join_path(dir: &str, file: &str) -> (r: String)
    requires
        is_plain_file_name(file@),
    ensures
        file@.is_suffix_of(r@),
        !is_verbatim(dir@) ==> dir@.is_prefix_of(r@),
{
    std::path::Path::new(dir).join(file).to_string_lossy().into_owned()
}

/// The directory where the scan checkpoint and the restore progress are kept.
#[derive(Debug, Clone)]
pub struct CheckpointStore {
    dir: String,
}

impl CheckpointStore {
    /// A store in the given directory (which the caller has created).
    pub fn new(dir: String) -> (s: Self)
        ensures
            s.dir() == dir@,
    {
        CheckpointStore { dir }
    }

    /// The directory of the store.
    pub closed spec fn dir(&self) -> Seq<char> {
        self.dir@
    }

    /// Path of the scan checkpoint file.
    pub fn checkpoint_path(&self) -> (p: String)
        ensures
            "icloud_restore_checkpoint.json"@.is_suffix_of(p@),
            !is_verbatim(self.dir()) ==> self.dir().is_prefix_of(p@),
    {
        proof {
            reveal_strlit("icloud_restore_checkpoint.json");
            assert("icloud_restore_checkpoint.json"@[0] == 'i');
        }
        join_path(self.dir.as_str(), "icloud_restore_checkpoint.json")
    }

    /// Path of the restore progress file.
    pub fn progress_path(&self) -> (p: String)
        ensures
            "icloud_restore_progress.json"@.is_suffix_of(p@),
            !is_verbatim(self.dir()) ==> self.dir().is_prefix_of(p@),
    {
        proof {
            reveal_strlit("icloud_restore_progress.json");
            assert("icloud_restore_progress.json"@[0] == 'i');
        }
        join_path(self.dir.as_str(), "icloud_restore_progress.json")
    }

    /// The scan checkpoint that the checkpoint file holds.
    pub fn load_checkpoint(&self, stored: StoredJson<FetchCheckpoint>) -> (r: Result<
        Option<FetchCheckpoint>,
        RestoreError,
    >)
        ensures
            r == stored_value(stored),
    {
        interpret(stored)
    }

    /// The restore progress that the progress file holds.
    pub fn load_progress(&self, stored: StoredJson<RestoreProgress>) -> (r: Result<
        Option<RestoreProgress>,
        RestoreError,
    >)
        ensures
            r == stored_value(stored),
    {
        interpret(stored)
    }

    /// The result of removing the checkpoint file: a file that was already gone is fine.
    pub fn clear_checkpoint(&self, removal: Removal) -> (r: Result<(), RestoreError>)
        ensures
            removal is Failed ==> r == Err::<(), RestoreError>(RestoreError::File(removal->0)),
            !(removal is Failed) ==> r is Ok,
    {
        match removal {
            Removal::Failed(e) => Err(RestoreError::File(e)),
            _ => Ok(()),
        }
    }

    /// The result of writing a value to one of the store's files.
    pub fn save_result(&self, write: Result<(), String>) -> (r: Result<(), RestoreError>)
        ensures
            write is Ok ==> r is Ok,
            write is Err ==> r == Err::<(), RestoreError>(RestoreError::File(write->Err_0)),
    {
        match write {
            Ok(()) => Ok(()),
            Err(e) => Err(RestoreError::File(e)),
        }
    }
}

} // verus!
