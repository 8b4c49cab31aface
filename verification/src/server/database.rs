//! The registry of files that the server knows, keyed by digest.
//!
//! `Registry` holds the table in memory and states what each operation of
//! the durable store does to it: a row per digest at most, created as
//! `AwaitFromClient`, changed by single updates of its status, and removed
//! only on request.

use crate::hashing::{DigestView, FileDigest};
use crate::protocol::{FileSpec, FileSpecView};
use crate::text::same_text;
use vstd::prelude::*;

verus! {

/// Where a file stands in the pipeline.
#[derive(Clone, Copy, Debug, PartialEq, Eq, Structural)]
pub enum ProcessStatus {
    /// The server has asked the client for the bytes.
    AwaitFromClient,
    /// The processing command is running, or was when the server stopped.
    Processing,
    /// The processing command failed; the retry loop will run it again.
    Failed,
    /// The processing command succeeded.
    Done,
    /// The processing command succeeded; the prune loop will remove the file.
    ToPrune,
}

/// The text under which a status is stored.
pub open spec fn status_text(status: ProcessStatus) -> Seq<char> {
    match status {
        ProcessStatus::AwaitFromClient => "AwaitFromClient"@,
        ProcessStatus::Processing => "Processing"@,
        ProcessStatus::Failed => "Failed"@,
        ProcessStatus::Done => "Done"@,
        ProcessStatus::ToPrune => "ToPrune"@,
    }
}

/// The status stored under a text, if it is the text of one.
pub open spec fn status_of_text(text: Seq<char>) -> Option<ProcessStatus> {
    if text == "AwaitFromClient"@ {
        Some(ProcessStatus::AwaitFromClient)
    } else if text == "Processing"@ {
        Some(ProcessStatus::Processing)
    } else if text == "Failed"@ {
        Some(ProcessStatus::Failed)
    } else if text == "Done"@ {
        Some(ProcessStatus::Done)
    } else if text == "ToPrune"@ {
        Some(ProcessStatus::ToPrune)
    } else {
        None
    }
}

impl ProcessStatus {
    /// The text under which the status is stored.
    pub fn as_ref(&self) -> (text: &'static str)
        ensures
            text@ == status_text(*self),
    {
        match self {
            ProcessStatus::AwaitFromClient => "AwaitFromClient",
            ProcessStatus::Processing => "Processing",
            ProcessStatus::Failed => "Failed",
            ProcessStatus::Done => "Done",
            ProcessStatus::ToPrune => "ToPrune",
        }
    }

    /// Reads a stored status.
    pub fn from_text(text: &str) -> (status: Option<ProcessStatus>)
        ensures
            status == status_of_text(text@),
    {
        if same_text(text, "AwaitFromClient") {
            Some(ProcessStatus::AwaitFromClient)
        } else if same_text(text, "Processing") {
            Some(ProcessStatus::Processing)
        } else if same_text(text, "Failed") {
            Some(ProcessStatus::Failed)
        } else if same_text(text, "Done") {
            Some(ProcessStatus::Done)
        } else if same_text(text, "ToPrune") {
            Some(ProcessStatus::ToPrune)
        } else {
            None
        }
    }
}

/// Reading a status back from its stored text gives the status.
pub proof fn lemma_status_text_round_trip(status: ProcessStatus)
    ensures
        status_of_text(status_text(status)) == Some(status),
{
    reveal_strlit("AwaitFromClient");
    reveal_strlit("Processing");
    reveal_strlit("Failed");
    reveal_strlit("Done");
    reveal_strlit("ToPrune");
    assert("AwaitFromClient"@.len() == 15);
    assert("Processing"@.len() == 10);
    assert("Failed"@.len() == 6);
    assert("Done"@.len() == 4);
    assert("ToPrune"@.len() == 7);
}

/// What a row of the registry says.
pub struct RecordView {
    pub hash: Seq<char>,
    pub full_hash: bool,
    pub client: Seq<char>,
    pub date_utc: Seq<char>,
    pub path: Seq<char>,
    pub file_name: Seq<char>,
    pub status: ProcessStatus,
}

/// A row of the registry: a file's description, the time of its last change
/// of status, and its status.
#[derive(Debug)]
pub struct FileInPipeline {
    pub hash: String,
    pub full_hash: bool,
    pub client: String,
    pub date_utc: String,
    pub path: String,
    pub file_name: String,
    pub status: ProcessStatus,
}

impl View for FileInPipeline {
    type V = RecordView;

    open spec fn view(&self) -> RecordView {
        RecordView {
            hash: self.hash@,
            full_hash: self.full_hash,
            client: self.client@,
            date_utc: self.date_utc@,
            path: self.path@,
            file_name: self.file_name@,
            status: self.status,
        }
    }
}

impl Clone for FileInPipeline {
    fn clone(&self) -> (res: Self)
        ensures
            res == *self,
    {
        FileInPipeline {
            hash: self.hash.clone(),
            full_hash: self.full_hash,
            client: self.client.clone(),
            date_utc: self.date_utc.clone(),
            path: self.path.clone(),
            file_name: self.file_name.clone(),
            status: self.status,
        }
    }
}

impl RecordView {
    /// The spec that the row was made from.
    pub open spec fn spec(self) -> FileSpecView {
        FileSpecView {
            client: self.client,
            path: self.path,
            filename: self.file_name,
            digest: DigestView { full: self.full_hash, hex: self.hash },
        }
    }

    /// The row in which a spec is first stored, at the time `now`.
    pub open spec fn first(spec: FileSpecView, now: Seq<char>) -> RecordView {
        RecordView {
            hash: spec.digest.hex,
            full_hash: spec.digest.full,
            client: spec.client,
            date_utc: now,
            path: spec.path,
            file_name: spec.filename,
            status: ProcessStatus::AwaitFromClient,
        }
    }

    /// The row after a change of status at the time `now`.
    pub open spec fn with_status(self, status: ProcessStatus, now: Seq<char>) -> RecordView {
        RecordView { date_utc: now, status, ..self }
    }
}

impl From<FileInPipeline> for FileSpec {
    fn from(value: FileInPipeline) -> (spec: Self) {
        let sha256_digest = if value.full_hash {
            FileDigest::Full(value.hash)
        } else {
            FileDigest::Shallow(value.hash)
        };
        FileSpec { client: value.client, path: value.path, filename: value.file_name, sha256_digest }
    }
}

impl vstd::std_specs::convert::FromSpecImpl<FileInPipeline> for FileSpec {
    open spec fn obeys_from_spec() -> bool {
        true
    }

    open spec fn from_spec(value: FileInPipeline) -> Self {
        FileSpec {
            client: value.client,
            path: value.path,
            filename: value.file_name,
            sha256_digest: if value.full_hash {
                FileDigest::Full(value.hash)
            } else {
                FileDigest::Shallow(value.hash)
            },
        }
    }
}

/// Why an operation of the registry failed.
#[derive(Clone, Copy, Debug, PartialEq, Eq, Structural)]
pub enum RegistryError {
    /// No row has the digest.
    NotFound,
    /// A row with the digest exists already.
    AlreadyExists,
}

/// Whether some row has the digest `hash`.
pub open spec fn has_row(rows: Seq<RecordView>, hash: Seq<char>) -> bool {
    exists|i: int| 0 <= i < rows.len() && (#[trigger] rows[i]).hash == hash
}

/// No two rows have the same digest.
pub open spec fn distinct_hashes(rows: Seq<RecordView>) -> bool {
    forall|i: int, j: int|
        0 <= i < j < rows.len() ==> (#[trigger] rows[i]).hash != (#[trigger] rows[j]).hash
}

/// The status of the row with the digest `hash`, if there is one.
pub open spec fn status_in(rows: Seq<RecordView>, hash: Seq<char>) -> Option<ProcessStatus> {
    if has_row(rows, hash) {
        let i = choose|i: int| 0 <= i < rows.len() && (#[trigger] rows[i]).hash == hash;
        Some(rows[i].status)
    } else {
        None
    }
}

/// The rows after the status of `hash` was set to `status` at `now`.
pub open spec fn rows_with_status(
    rows: Seq<RecordView>,
    hash: Seq<char>,
    status: ProcessStatus,
    now: Seq<char>,
) -> Seq<RecordView> {
    Seq::new(
        rows.len(),
        |i: int|
            if rows[i].hash == hash {
                rows[i].with_status(status, now)
            } else {
                rows[i]
            },
    )
}

/// The rows in the state `status`, in their order.
pub open spec fn rows_in_state(rows: Seq<RecordView>, status: ProcessStatus) -> Seq<RecordView> {
    rows.filter(|r: RecordView| r.status == status)
}

/// The rows but the one with the digest `hash`, in their order.
pub open spec fn rows_without(rows: Seq<RecordView>, hash: Seq<char>) -> Seq<RecordView> {
    rows.filter(|r: RecordView| r.hash != hash)
}

/// The views of a sequence of rows.
pub open spec fn row_views(rows: Seq<FileInPipeline>) -> Seq<RecordView> {
    Seq::new(rows.len(), |i: int| rows[i]@)
}

/// The table of known files, held in memory.
pub struct Registry {
    pub rows: Vec<FileInPipeline>,
}

impl View for Registry {
    type V = Seq<RecordView>;

    open spec fn view(&self) -> Seq<RecordView> {
        row_views(self.rows@)
    }
}

impl Registry {
    /// Every digest has one row at most.
    pub open spec fn wf(&self) -> bool {
        distinct_hashes(self@)
    }

    /// The table with no rows.
    pub fn new() -> (registry: Self)
        ensures
            registry@ == Seq::<RecordView>::empty(),
            registry.wf(),
    {
        let registry = Registry { rows: Vec::new() };
        assert(registry@ =~= Seq::<RecordView>::empty());
        registry
    }

    /// Where the row with the digest `hash` stands, if there is one.
    fn position(&self, hash: &str) -> (at: Option<usize>)
        ensures
            at is Some <==> has_row(self@, hash@),
            at matches Some(i) ==> i < self@.len() && self@[i as int].hash == hash@
                && forall|j: int| 0 <= j < i ==> (#[trigger] self@[j]).hash != hash@,
    {
        let mut i: usize = 0;
        while i < self.rows.len()
            invariant
                i <= self.rows.len(),
                forall|j: int| 0 <= j < i ==> (#[trigger] self@[j]).hash != hash@,
            decreases self.rows.len() - i,
        {
            if same_text(self.rows[i].hash.as_str(), hash) {
                assert(self@[i as int].hash == hash@);
                return Some(i);
            }
            i += 1;
        }
        None
    }

    /// Whether the registry has a row for the digest `hash`.
    pub fn contains(&self, hash: &str) -> (found: bool)
        ensures
            found == has_row(self@, hash@),
    {
        self.position(hash).is_some()
    }

    /// The status of the row with the digest `hash`.
    pub fn status(&self, hash: &str) -> (status: Result<ProcessStatus, RegistryError>)
        requires
            self.wf(),
        ensures
            match status {
                Ok(s) => status_in(self@, hash@) == Some(s),
                Err(e) => e == RegistryError::NotFound && status_in(self@, hash@) is None,
            },
    {
        match self.position(hash) {
            Some(i) => {
                proof {
                    let k = choose|k: int| 0 <= k < self@.len() && (#[trigger] self@[k]).hash == hash@;
                    assert(k == i) by {
                        if k < i {
                            assert(self@[k].hash != self@[i as int].hash);
                        } else if i < k {
                            assert(self@[i as int].hash != self@[k].hash);
                        }
                    }
                }
                Ok(self.rows[i].status)
            },
            None => Err(RegistryError::NotFound),
        }
    }

    /// Adds a row for `spec`, in the state `AwaitFromClient` and dated
    /// `now`, unless a row with its digest exists.
    pub fn insert_new(&mut self, spec: &FileSpec, now: &str) -> (done: Result<(), RegistryError>)
        requires
            old(self).wf(),
        ensures
            final(self).wf(),
            match done {
                Ok(_) => !has_row(old(self)@, spec@.digest.hex) && final(self)@ == old(self)@.push(
                    RecordView::first(spec@, now@),
                ),
                Err(e) => e == RegistryError::AlreadyExists && has_row(old(self)@, spec@.digest.hex)
                    && final(self)@ == old(self)@,
            },
    {
        if self.contains(spec.hash()) {
            return Err(RegistryError::AlreadyExists);
        }
        let row = FileInPipeline {
            hash: spec.hash().to_owned(),
            full_hash: spec.sha256_digest.is_full(),
            client: spec.client.clone(),
            date_utc: now.to_owned(),
            path: spec.path.clone(),
            file_name: spec.filename.clone(),
            status: ProcessStatus::AwaitFromClient,
        };
        self.rows.push(row);
        proof {
            assert(final(self)@ =~= old(self)@.push(RecordView::first(spec@, now@)));
        }
        Ok(())
    }

    /// Sets the status of the row with the digest `hash`, if there is one,
    /// and dates it `now`.
    pub fn update_status(&mut self, hash: &str, status: ProcessStatus, now: &str)
        requires
            old(self).wf(),
        ensures
            final(self).wf(),
            final(self)@ == rows_with_status(old(self)@, hash@, status, now@),
    {
        match self.position(hash) {
            Some(i) => {
                let mut row = self.rows[i].clone();
                row.status = status;
                row.date_utc = now.to_owned();
                self.rows.set(i, row);
                proof {
                    assert forall|j: int| 0 <= j < old(self)@.len() && j != i implies (
                    #[trigger] old(self)@[j]).hash != hash@ by {
                        if j < i {
                        } else {
                            assert(old(self)@[i as int].hash != old(self)@[j].hash);
                        }
                    }
                    assert(final(self)@ =~= rows_with_status(old(self)@, hash@, status, now@));
                }
            },
            None => {
                proof {
                    assert(final(self)@ =~= rows_with_status(old(self)@, hash@, status, now@));
                }
            },
        }
    }

    /// Removes the row with the digest `hash`, if there is one.
    pub fn remove(&mut self, hash: &str)
        requires
            old(self).wf(),
        ensures
            final(self).wf(),
            final(self)@ == rows_without(old(self)@, hash@),
    {
        let ghost pred = |r: RecordView| r.hash != hash@;
        let mut kept: Vec<FileInPipeline> = Vec::new();
        let mut i: usize = 0;
        proof {
            reveal(Seq::filter);
            assert(self@.take(0) =~= Seq::<RecordView>::empty());
            assert(row_views(kept@) =~= self@.take(0).filter(pred));
        }
        while i < self.rows.len()
            invariant
                i <= self.rows.len(),
                *self == *old(self),
                self.wf(),
                pred == |r: RecordView| r.hash != hash@,
                row_views(kept@) == self@.take(i as int).filter(pred),
                distinct_hashes(row_views(kept@)),
                forall|k: int|
                    0 <= k < kept@.len() ==> exists|j: int|
                        0 <= j < i && self@[j] == #[trigger] row_views(kept@)[k],
            decreases self.rows.len() - i,
        {
            proof {
                reveal(Seq::filter);
                assert(self@.take(i as int + 1).drop_last() =~= self@.take(i as int));
                assert(self@.take(i as int + 1).last() == self@[i as int]);
            }
            if !same_text(self.rows[i].hash.as_str(), hash) {
                let ghost before = row_views(kept@);
                kept.push(self.rows[i].clone());
                proof {
                    assert(row_views(kept@) =~= before.push(self@[i as int]));
                    assert forall|a: int, b: int| 0 <= a < b < kept@.len() implies (
                    #[trigger] row_views(kept@)[a]).hash != (#[trigger] row_views(kept@)[b]).hash by {
                        if b == kept@.len() - 1 {
                            let j = choose|j: int| 0 <= j < i && self@[j] == before[a];
                            assert(self@[j].hash != self@[i as int].hash);
                        } else {
                            assert(before[a].hash != before[b].hash);
                        }
                    }
                    assert forall|k: int| 0 <= k < kept@.len() implies exists|j: int|
                        0 <= j < i + 1 && self@[j] == #[trigger] row_views(kept@)[k] by {
                        if k == kept@.len() - 1 {
                            assert(self@[i as int] == row_views(kept@)[k]);
                        } else {
                            let j = choose|j: int| 0 <= j < i && self@[j] == before[k];
                            assert(self@[j] == row_views(kept@)[k]);
                        }
                    }
                }
            }
            i += 1;
        }
        proof {
            assert(self@.take(self@.len() as int) =~= self@);
        }
        self.rows = kept;
    }

    /// The rows in the state `status`, in the order of the table.
    pub fn tasks_with_status(&self, status: ProcessStatus) -> (tasks: Vec<FileInPipeline>)
        ensures
            row_views(tasks@) == rows_in_state(self@, status),
    {
        let ghost pred = |r: RecordView| r.status == status;
        let mut tasks: Vec<FileInPipeline> = Vec::new();
        let mut i: usize = 0;
        proof {
            reveal(Seq::filter);
            assert(self@.take(0) =~= Seq::<RecordView>::empty());
            assert(row_views(tasks@) =~= self@.take(0).filter(pred));
        }
        while i < self.rows.len()
            invariant
                i <= self.rows.len(),
                pred == |r: RecordView| r.status == status,
                row_views(tasks@) == self@.take(i as int).filter(pred),
            decreases self.rows.len() - i,
        {
            proof {
                reveal(Seq::filter);
                assert(self@.take(i as int + 1).drop_last() =~= self@.take(i as int));
                assert(self@.take(i as int + 1).last() == self@[i as int]);
            }
            if self.rows[i].status == status {
                let ghost before = row_views(tasks@);
                tasks.push(self.rows[i].clone());
                proof {
                    assert(row_views(tasks@) =~= before.push(self@[i as int]));
                }
            }
            i += 1;
        }
        proof {
            assert(self@.take(self@.len() as int) =~= self@);
        }
        tasks
    }

    /// All rows, in the order of the table.
    pub fn content(&self) -> (rows: Vec<FileInPipeline>)
        ensures
            row_views(rows@) == self@,
    {
        let mut rows: Vec<FileInPipeline> = Vec::new();
        let mut i: usize = 0;
        while i < self.rows.len()
            invariant
                i <= self.rows.len(),
                row_views(rows@) == self@.take(i as int),
            decreases self.rows.len() - i,
        {
            let ghost before = row_views(rows@);
            rows.push(self.rows[i].clone());
            proof {
                assert(row_views(rows@) =~= before.push(self@[i as int]));
                assert(self@.take(i as int + 1) =~= before.push(self@[i as int]));
            }
            i += 1;
        }
        proof {
            assert(self@.take(self@.len() as int) =~= self@);
        }
        rows
    }
}

} // verus!
