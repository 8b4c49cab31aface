//! The server's side of the pipeline: where received files are stored, and
//! the course that each submitted file takes from its first announcement to
//! the end of its processing.
//!
//! The course of one file is a `Pipeline`: a state with exactly one pending
//! request to the world outside (the registry, the filesystem, the client's
//! channel, the processing command).  Whoever drives it performs the request
//! and hands the answer to `Pipeline::step`, which moves the state on and
//! says what to do next.

pub mod clean;
pub mod database;
pub mod lifecycle;
pub mod mark;
pub mod processing;

use crate::paths::{assemble, assemble_path, parse, render};
use crate::protocol::{FileSpec, FileSpecView, Receipt, ReceiptView};
use crate::hashing::{DigestView, FileDigest};
use crate::text::push_char;
use database::{FileInPipeline, ProcessStatus, RecordView};
use processing::Processing;
use vstd::prelude::*;
use vstd::string::{StrSliceExecFns, StringExecFns};

verus! {

/// The status that a file gets once its processing has succeeded.
#[derive(Clone, Copy, Debug, PartialEq, Eq, Structural)]
pub enum StatusAfterProcessing {
    Done,
    ToPrune,
    /// The status is left as it is, for an operator to set.
    Manual,
}

/// How many files may be hashed, and how many processed, at one time.
#[derive(Clone, Copy, Debug, PartialEq, Eq, Structural)]
pub struct Concurrency {
    pub max_hashes: usize,
    pub max_processing: usize,
}

/// The server's settings.
#[derive(Debug)]
pub struct Config {
    /// The address on which the server listens.
    pub address: String,
    /// The directory below which received files are stored.
    pub incoming_directory: String,
    /// The permission bits of the directories that the server creates.
    pub unix_mode: Option<u32>,
    pub processing: Processing,
    pub status_after_processing: StatusAfterProcessing,
    pub retry_tasks_every_secs: u64,
    pub prune_every_secs: u64,
    pub concurrency: Concurrency,
}

/// The path on the server of what lies at `relative` below the incoming
/// directory `incoming`.
pub open spec fn incoming_path_of(incoming: Seq<char>, relative: Seq<char>) -> Seq<char> {
    render(assemble(parse(incoming), parse(relative)))
}

/// The path on the server of the file with the digest text `hex`.
pub open spec fn server_path_of(incoming: Seq<char>, hex: Seq<char>, bucket_created: bool) -> Seq<
    char,
> {
    incoming_path_of(incoming, rel_path_of(hex, bucket_created))
}

impl Config {
    /// The path of what lies at `relative` below the incoming directory.
    pub fn incoming_path(&self, relative: &str) -> (path: String)
        ensures
            path@ == incoming_path_of(self.incoming_directory@, relative@),
    {
        assemble_path(self.incoming_directory.as_str(), relative)
    }

    /// The path at which `file` is stored.  `bucket_created` says whether
    /// its bucket directory could be created.
    pub fn path_of(&self, file: &FileSpec, bucket_created: bool) -> (path: String)
        requires
            file.wf(),
        ensures
            path@ == server_path_of(self.incoming_directory@, file@.digest.hex, bucket_created),
    {
        let rel_path = rel_path(file, bucket_created);
        self.incoming_path(rel_path.as_str())
    }
}

/// The two-level directory in which a file with the digest text `hex` is
/// stored: its first two characters, `/`, and its next two.
pub open spec fn bucket_of(hex: Seq<char>) -> Seq<char> {
    hex.subrange(0, 2) + seq!['/'] + hex.subrange(2, 4)
}

/// Where a file with the digest text `hex` is stored below the incoming
/// directory: in its bucket where that directory could be created, and
/// directly in the incoming directory where it could not.
pub open spec fn rel_path_of(hex: Seq<char>, bucket_created: bool) -> Seq<char> {
    if bucket_created {
        bucket_of(hex) + seq!['/'] + hex
    } else {
        hex
    }
}

/// The bucket directory of a file, relative to the incoming directory.
pub fn bucket(spec: &FileSpec) -> (dir: String)
    requires
        spec.wf(),
    ensures
        dir@ == bucket_of(spec@.digest.hex),
{
    let hash = spec.hash();
    let mut dir = String::from_str(hash.substring_char(0, 2));
    push_char(&mut dir, '/');
    dir.append(hash.substring_char(2, 4));
    dir
}

/// Where a file is stored, relative to the incoming directory.
/// `bucket_created` says whether its bucket directory could be created.
pub fn rel_path(spec: &FileSpec, bucket_created: bool) -> (path: String)
    requires
        spec.wf(),
    ensures
        path@ == stored_at(spec@, bucket_created),
{
    if bucket_created {
        let mut path = bucket(spec);
        push_char(&mut path, '/');
        path.append(spec.hash());
        path
    } else {
        spec.hash().to_owned()
    }
}

/// Where the file that `spec` describes is stored, relative to the incoming
/// directory.
pub open spec fn stored_at(spec: FileSpecView, bucket_created: bool) -> Seq<char> {
    rel_path_of(spec.digest.hex, bucket_created)
}

/// Two descriptions with the same digest text are stored at the same place,
/// whoever sent them, whatever their names and whatever the kind of digest.
pub proof fn lemma_rel_path_depends_on_hex(a: FileSpecView, b: FileSpecView, bucket_created: bool)
    requires
        a.digest.hex == b.digest.hex,
    ensures
        stored_at(a, bucket_created) == stored_at(b, bucket_created),
{
}

/// How a file came into the pipeline.
#[derive(Clone, Copy, Debug, PartialEq, Eq, Structural)]
pub enum Entry {
    /// A client announced it.
    Submitted,
    /// The retry loop found it in the state `Failed`.
    Retried,
}

/// The kind of receipt that is being sent.
#[derive(Clone, Copy, Debug, PartialEq, Eq, Structural)]
pub enum Reply {
    /// `Expecting`: the digest was unknown and a row was made for it.
    Expecting,
    /// `Received`, for a digest whose file the server has had before.
    Known,
    /// `Received`, for a file that has just arrived and has the digest
    /// announced.
    Verified,
    /// `DifferentHash`.
    DifferentHash,
    /// `Error`.
    Error,
}

/// Where a file stands on its course; each phase but the last waits for the
/// answer to one request.
#[derive(Clone, Copy, Debug, PartialEq, Eq, Structural)]
pub enum Phase {
    /// Waiting for the bucket directory to be created.
    Bucket(Entry),
    /// Waiting to learn whether the registry knows the digest.
    Lookup,
    /// The digest is known; waiting for its status.
    Known,
    /// The digest is unknown; waiting for its row to be inserted.
    Insert,
    /// Waiting for the digest of the file that arrived.
    Verify,
    /// Waiting for a receipt to be sent.
    Reply(Reply),
    /// Holding a processing permit; waiting for the status.
    Claim,
    /// Waiting for the status to be set to `Processing`.
    Mark,
    /// Waiting for the processing command.
    Run,
    /// Waiting for the status to be set after the processing.
    Settle(ProcessStatus),
    /// Nothing is left to do.
    Finished,
}

/// What a phase asks of the world outside.
#[derive(Clone, Copy, Debug, PartialEq, Eq, Structural)]
pub enum Request {
    /// Create the bucket directory of the file, and those above it.
    CreateBucket,
    /// Ask the registry whether it has a row for the digest.
    Contains,
    /// Ask the registry for the status of the digest.
    ReadStatus,
    /// Insert a row for the file in the registry.
    InsertNew,
    /// Compute the digest of the file stored on the server, of the kind
    /// that the client announced.
    Recompute,
    /// Send the receipt to the client.
    Send,
    /// Set the status of the digest in the registry.
    SetStatus(ProcessStatus),
    /// Run the processing on the file.
    Process,
    /// Stop.
    Nothing,
}

/// The permit that must be held while a request is carried out.
#[derive(Clone, Copy, Debug, PartialEq, Eq, Structural)]
pub enum Permit {
    /// No permit is needed.
    Free,
    /// One of the `max_hashes` permits.
    Hash,
    /// One of the `max_processing` permits.
    Processing,
}

/// What to do next: wait `delay_secs` seconds, then carry out `request`
/// while holding `permit`.
#[derive(Clone, Copy, Debug, PartialEq, Eq, Structural)]
pub struct Command {
    pub delay_secs: u64,
    pub permit: Permit,
    pub request: Request,
}

/// The answer to a request.
#[derive(Debug)]
pub enum Event {
    /// Whether the bucket directory exists now.
    BucketCreated(bool),
    /// Whether the registry has a row for the digest.
    Contains(bool),
    /// The status of the digest in the registry.
    Status(ProcessStatus),
    /// The row was inserted.
    Inserted,
    /// The digest of the file stored on the server.
    Digest(FileDigest),
    /// The file stored on the server could not be read.
    HashFailed(String),
    /// The receipt was sent, or the client has gone.
    Sent,
    /// The status was set.
    StatusSet,
    /// The processing ended, with success or without.
    Processed(bool),
    /// The registry returned an error.
    RegistryFailed,
}

/// What an `Event` says.
pub enum EventView {
    BucketCreated(bool),
    Contains(bool),
    Status(ProcessStatus),
    Inserted,
    Digest(DigestView),
    HashFailed(Seq<char>),
    Sent,
    StatusSet,
    Processed(bool),
    RegistryFailed,
}

impl View for Event {
    type V = EventView;

    open spec fn view(&self) -> EventView {
        match self {
            Event::BucketCreated(ok) => EventView::BucketCreated(*ok),
            Event::Contains(found) => EventView::Contains(*found),
            Event::Status(status) => EventView::Status(*status),
            Event::Inserted => EventView::Inserted,
            Event::Digest(digest) => EventView::Digest(digest@),
            Event::HashFailed(error) => EventView::HashFailed(error@),
            Event::Sent => EventView::Sent,
            Event::StatusSet => EventView::StatusSet,
            Event::Processed(ok) => EventView::Processed(*ok),
            Event::RegistryFailed => EventView::RegistryFailed,
        }
    }
}

/// What a `Pipeline` says.
pub struct PipelineView {
    pub file: FileSpecView,
    pub after: StatusAfterProcessing,
    pub bucket_created: bool,
    pub phase: Phase,
    pub error: Seq<char>,
}

/// The course of one file through the server.
#[derive(Debug)]
pub struct Pipeline {
    /// The file, as the client described it.
    pub file: FileSpec,
    /// The status that a successful processing leads to.
    pub after: StatusAfterProcessing,
    /// Whether the bucket directory of the file could be created.
    pub bucket_created: bool,
    pub phase: Phase,
    /// Why the file stored on the server could not be read, once that has
    /// happened.
    pub error: String,
}

impl View for Pipeline {
    type V = PipelineView;

    open spec fn view(&self) -> PipelineView {
        PipelineView {
            file: self.file@,
            after: self.after,
            bucket_created: self.bucket_created,
            phase: self.phase,
            error: self.error@,
        }
    }
}

/// Whether a phase waits for the registry.
pub open spec fn asks_registry(phase: Phase) -> bool {
    match phase {
        Phase::Lookup | Phase::Known | Phase::Insert | Phase::Claim | Phase::Mark | Phase::Settle(
            _,
        ) => true,
        _ => false,
    }
}

/// What a phase asks for.
pub open spec fn request_of(phase: Phase) -> Request {
    match phase {
        Phase::Bucket(_) => Request::CreateBucket,
        Phase::Lookup => Request::Contains,
        Phase::Known => Request::ReadStatus,
        Phase::Insert => Request::InsertNew,
        Phase::Verify => Request::Recompute,
        Phase::Reply(_) => Request::Send,
        Phase::Claim => Request::ReadStatus,
        Phase::Mark => Request::SetStatus(ProcessStatus::Processing),
        Phase::Run => Request::Process,
        Phase::Settle(status) => Request::SetStatus(status),
        Phase::Finished => Request::Nothing,
    }
}

/// The permit under which a phase's request is carried out: hashing under
/// a hash permit, and all from the claim to the last status under one
/// processing permit.
pub open spec fn permit_of(phase: Phase) -> Permit {
    match phase {
        Phase::Verify => Permit::Hash,
        Phase::Claim | Phase::Mark | Phase::Run | Phase::Settle(_) => Permit::Processing,
        _ => Permit::Free,
    }
}

/// The command of a phase, after a delay.
pub open spec fn command_of(phase: Phase, delay_secs: u64) -> Command {
    Command { delay_secs, permit: permit_of(phase), request: request_of(phase) }
}

/// The phase that follows the processing command: a failure leads to
/// `Failed`, a success to the configured status, or to none.
pub open spec fn phase_after_run(after: StatusAfterProcessing, succeeded: bool) -> Phase {
    if !succeeded {
        Phase::Settle(ProcessStatus::Failed)
    } else {
        match after {
            StatusAfterProcessing::Done => Phase::Settle(ProcessStatus::Done),
            StatusAfterProcessing::ToPrune => Phase::Settle(ProcessStatus::ToPrune),
            StatusAfterProcessing::Manual => Phase::Finished,
        }
    }
}

/// The phase that follows `phase` of the course of `p` on the event `e`, if
/// `e` answers what the phase asked.  An error of the registry leaves the
/// phase as it is.
pub open spec fn next_phase(p: PipelineView, e: EventView) -> Option<Phase> {
    match (p.phase, e) {
        (Phase::Bucket(Entry::Submitted), EventView::BucketCreated(_)) => Some(Phase::Lookup),
        (Phase::Bucket(Entry::Retried), EventView::BucketCreated(_)) => Some(Phase::Claim),
        (Phase::Lookup, EventView::Contains(found)) => Some(
            if found {
                Phase::Known
            } else {
                Phase::Insert
            },
        ),
        (Phase::Known, EventView::Status(status)) => Some(
            if status == ProcessStatus::AwaitFromClient {
                Phase::Verify
            } else {
                Phase::Reply(Reply::Known)
            },
        ),
        (Phase::Insert, EventView::Inserted) => Some(Phase::Reply(Reply::Expecting)),
        (Phase::Verify, EventView::Digest(digest)) => Some(
            if digest == p.file.digest {
                Phase::Reply(Reply::Verified)
            } else {
                Phase::Reply(Reply::DifferentHash)
            },
        ),
        (Phase::Verify, EventView::HashFailed(_)) => Some(Phase::Reply(Reply::Error)),
        (Phase::Reply(reply), EventView::Sent) => Some(
            if reply == Reply::Verified {
                Phase::Claim
            } else {
                Phase::Finished
            },
        ),
        (Phase::Claim, EventView::Status(status)) => Some(
            if status == ProcessStatus::Processing {
                Phase::Finished
            } else {
                Phase::Mark
            },
        ),
        (Phase::Mark, EventView::StatusSet) => Some(Phase::Run),
        (Phase::Run, EventView::Processed(succeeded)) => Some(phase_after_run(p.after, succeeded)),
        (Phase::Settle(_), EventView::StatusSet) => Some(Phase::Finished),
        (phase, EventView::RegistryFailed) => if asks_registry(phase) {
            Some(phase)
        } else {
            None
        },
        _ => None,
    }
}

/// The course of `p` after the event `e`, if `e` answers what `p` asked.
pub open spec fn next(p: PipelineView, e: EventView) -> Option<PipelineView> {
    match next_phase(p, e) {
        Some(phase) => Some(
            PipelineView {
                phase,
                bucket_created: if let EventView::BucketCreated(ok) = e {
                    ok
                } else {
                    p.bucket_created
                },
                error: if let EventView::HashFailed(error) = e {
                    error
                } else {
                    p.error
                },
                ..p
            },
        ),
        None => None,
    }
}

/// How long to wait before the next request: a second after an error of
/// the registry, and not at all otherwise.
pub open spec fn delay_after(e: EventView) -> u64 {
    if e is RegistryFailed {
        1
    } else {
        0
    }
}

/// The receipt that `p` sends while it is in a `Reply` phase.
pub open spec fn receipt_of(p: PipelineView) -> ReceiptView {
    match p.phase {
        Phase::Reply(Reply::Expecting) => ReceiptView::Expecting {
            spec: p.file,
            server_rel_path: stored_at(p.file, p.bucket_created),
        },
        Phase::Reply(Reply::DifferentHash) => ReceiptView::DifferentHash(p.file),
        Phase::Reply(Reply::Error) => ReceiptView::Error {
            spec: p.file,
            server_rel_path: stored_at(p.file, p.bucket_created),
            error: p.error,
        },
        _ => ReceiptView::Received(p.file),
    }
}

/// The course of a file that a client has just announced, at its start.
pub open spec fn submitted(file: FileSpecView, after: StatusAfterProcessing) -> PipelineView {
    PipelineView {
        file,
        after,
        bucket_created: false,
        phase: Phase::Bucket(Entry::Submitted),
        error: Seq::<char>::empty(),
    }
}

/// The course of a file that the retry loop takes up, at its start.
pub open spec fn retried(file: FileSpecView, after: StatusAfterProcessing) -> PipelineView {
    PipelineView {
        file,
        after,
        bucket_created: false,
        phase: Phase::Bucket(Entry::Retried),
        error: Seq::<char>::empty(),
    }
}

/// Starts the course of a file that a client has announced: the server
/// looks the digest up, answers with a receipt and, once the file has
/// arrived with the digest announced, processes it.
pub fn processing_pipeline(file: FileSpec, config: &Config) -> (pipeline: Pipeline)
    requires
        file.wf(),
    ensures
        pipeline@ == submitted(file@, config.status_after_processing),
        pipeline.wf(),
{
    Pipeline {
        file,
        after: config.status_after_processing,
        bucket_created: false,
        phase: Phase::Bucket(Entry::Submitted),
        error: String::new(),
    }
}

/// Starts the course of a file whose processing is to be tried again: the
/// server processes it unless it is being processed already.
pub fn process_file(file: FileSpec, config: &Config) -> (pipeline: Pipeline)
    requires
        file.wf(),
    ensures
        pipeline@ == retried(file@, config.status_after_processing),
        pipeline.wf(),
{
    Pipeline {
        file,
        after: config.status_after_processing,
        bucket_created: false,
        phase: Phase::Bucket(Entry::Retried),
        error: String::new(),
    }
}

impl Pipeline {
    /// The file's description is well formed.
    pub open spec fn wf(&self) -> bool {
        self.file.wf()
    }

    /// What the pipeline asks for now.
    pub fn command(&self) -> (command: Command)
        ensures
            command == command_of(self@.phase, 0),
    {
        Self::command_for(self.phase, 0)
    }

    fn command_for(phase: Phase, delay_secs: u64) -> (command: Command)
        ensures
            command == command_of(phase, delay_secs),
    {
        let request = match phase {
            Phase::Bucket(_) => Request::CreateBucket,
            Phase::Lookup => Request::Contains,
            Phase::Known => Request::ReadStatus,
            Phase::Insert => Request::InsertNew,
            Phase::Verify => Request::Recompute,
            Phase::Reply(_) => Request::Send,
            Phase::Claim => Request::ReadStatus,
            Phase::Mark => Request::SetStatus(ProcessStatus::Processing),
            Phase::Run => Request::Process,
            Phase::Settle(status) => Request::SetStatus(status),
            Phase::Finished => Request::Nothing,
        };
        let permit = match phase {
            Phase::Verify => Permit::Hash,
            Phase::Claim | Phase::Mark | Phase::Run | Phase::Settle(_) => Permit::Processing,
            _ => Permit::Free,
        };
        Command { delay_secs, permit, request }
    }

    /// Whether nothing is left to do.
    pub fn is_finished(&self) -> (done: bool)
        ensures
            done == (self@.phase == Phase::Finished),
    {
        self.phase == Phase::Finished
    }

    /// Takes the answer to the pending request and says what to do next.
    /// An event that does not answer the pending request changes nothing
    /// and gives no command.
    pub fn step(&mut self, event: Event) -> (command: Option<Command>)
        requires
            old(self).wf(),
        ensures
            final(self).wf(),
            match command {
                Some(c) => next(old(self)@, event@) == Some(final(self)@) && c == command_of(
                    final(self)@.phase,
                    delay_after(event@),
                ),
                None => next(old(self)@, event@) is None && *final(self) == *old(self),
            },
    {
        let phase = self.phase;
        let mut delay: u64 = 0;
        let then: Option<Phase> = match event {
            Event::BucketCreated(ok) => match phase {
                Phase::Bucket(Entry::Submitted) => {
                    self.bucket_created = ok;
                    Some(Phase::Lookup)
                },
                Phase::Bucket(Entry::Retried) => {
                    self.bucket_created = ok;
                    Some(Phase::Claim)
                },
                _ => None,
            },
            Event::Contains(found) => match phase {
                Phase::Lookup => Some(
                    if found {
                        Phase::Known
                    } else {
                        Phase::Insert
                    },
                ),
                _ => None,
            },
            Event::Status(status) => match phase {
                Phase::Known => Some(
                    if status == ProcessStatus::AwaitFromClient {
                        Phase::Verify
                    } else {
                        Phase::Reply(Reply::Known)
                    },
                ),
                Phase::Claim => Some(
                    if status == ProcessStatus::Processing {
                        Phase::Finished
                    } else {
                        Phase::Mark
                    },
                ),
                _ => None,
            },
            Event::Inserted => match phase {
                Phase::Insert => Some(Phase::Reply(Reply::Expecting)),
                _ => None,
            },
            Event::Digest(digest) => match phase {
                Phase::Verify => Some(
                    if digest == self.file.sha256_digest {
                        Phase::Reply(Reply::Verified)
                    } else {
                        Phase::Reply(Reply::DifferentHash)
                    },
                ),
                _ => None,
            },
            Event::HashFailed(error) => match phase {
                Phase::Verify => {
                    self.error = error;
                    Some(Phase::Reply(Reply::Error))
                },
                _ => None,
            },
            Event::Sent => match phase {
                Phase::Reply(reply) => Some(
                    if reply == Reply::Verified {
                        Phase::Claim
                    } else {
                        Phase::Finished
                    },
                ),
                _ => None,
            },
            Event::StatusSet => match phase {
                Phase::Mark => Some(Phase::Run),
                Phase::Settle(_) => Some(Phase::Finished),
                _ => None,
            },
            Event::Processed(succeeded) => match phase {
                Phase::Run => Some(
                    if !succeeded {
                        Phase::Settle(ProcessStatus::Failed)
                    } else {
                        match self.after {
                            StatusAfterProcessing::Done => Phase::Settle(ProcessStatus::Done),
                            StatusAfterProcessing::ToPrune => Phase::Settle(ProcessStatus::ToPrune),
                            StatusAfterProcessing::Manual => Phase::Finished,
                        }
                    },
                ),
                _ => None,
            },
            Event::RegistryFailed => match phase {
                Phase::Lookup | Phase::Known | Phase::Insert | Phase::Claim | Phase::Mark
                | Phase::Settle(_) => {
                    delay = 1;
                    Some(phase)
                },
                _ => None,
            },
        };
        match then {
            Some(to) => {
                self.phase = to;
                Some(Self::command_for(to, delay))
            },
            None => None,
        }
    }

    /// The receipt to send, while the pipeline is in a `Reply` phase.
    pub fn receipt(&self) -> (receipt: Receipt)
        requires
            self.wf(),
        ensures
            receipt@ == receipt_of(self@),
    {
        match self.phase {
            Phase::Reply(Reply::Expecting) => Receipt::Expecting {
                spec: self.file.clone(),
                server_rel_path: rel_path(&self.file, self.bucket_created),
            },
            Phase::Reply(Reply::DifferentHash) => Receipt::DifferentHash(self.file.clone()),
            Phase::Reply(Reply::Error) => Receipt::Error {
                spec: self.file.clone(),
                server_rel_path: rel_path(&self.file, self.bucket_created),
                error: self.error.clone(),
            },
            _ => Receipt::Received(self.file.clone()),
        }
    }

    /// The path at which the file is stored on the server.
    pub fn server_path(&self, config: &Config) -> (path: String)
        requires
            self.wf(),
        ensures
            path@ == server_path_of(
                config.incoming_directory@,
                self@.file.digest.hex,
                self@.bucket_created,
            ),
    {
        config.path_of(&self.file, self.bucket_created)
    }
}

/// The views of a sequence of courses.
pub open spec fn pipeline_views(v: Seq<Pipeline>) -> Seq<PipelineView> {
    Seq::new(v.len(), |i: int| v[i]@)
}

/// The courses that the retry loop starts for the rows it found: one for
/// each row whose description is well formed, in their order.
pub open spec fn retry_courses(rows: Seq<RecordView>, after: StatusAfterProcessing) -> Seq<
    PipelineView,
> {
    rows.filter(|r: RecordView| r.spec().wf()).map_values(|r: RecordView| retried(r.spec(), after))
}

/// Takes up the files whose processing has failed: starts, for each row
/// found in the state `Failed`, the course that processes its file again.
/// A row whose digest or file name is malformed is passed over.
pub fn restart_failed_tasks(failed: Vec<FileInPipeline>, config: &Config) -> (courses: Vec<Pipeline>)
    ensures
        pipeline_views(courses@) == retry_courses(
            database::row_views(failed@),
            config.status_after_processing,
        ),
        forall|i: int| 0 <= i < courses@.len() ==> (#[trigger] courses@[i]).wf(),
{
    let ghost rows = database::row_views(failed@);
    let ghost pred = |r: RecordView| r.spec().wf();
    let ghost start = |r: RecordView| retried(r.spec(), config.status_after_processing);
    let mut courses: Vec<Pipeline> = Vec::new();
    let mut i: usize = 0;
    proof {
        reveal(Seq::filter);
        assert(rows.take(0) =~= Seq::<RecordView>::empty());
        assert(pipeline_views(courses@) =~= rows.take(0).filter(pred).map_values(start));
    }
    while i < failed.len()
        invariant
            i <= failed.len(),
            rows == database::row_views(failed@),
            pred == |r: RecordView| r.spec().wf(),
            start == |r: RecordView| retried(r.spec(), config.status_after_processing),
            pipeline_views(courses@) == rows.take(i as int).filter(pred).map_values(start),
            forall|k: int| 0 <= k < courses@.len() ==> (#[trigger] courses@[k]).wf(),
        decreases failed.len() - i,
    {
        proof {
            reveal(Seq::filter);
            assert(rows.take(i as int + 1).drop_last() =~= rows.take(i as int));
            assert(rows.take(i as int + 1).last() == rows[i as int]);
        }
        let spec = FileSpec::from(failed[i].clone());
        assert(spec@ == rows[i as int].spec());
        if spec.is_valid() {
            let ghost before = pipeline_views(courses@);
            let ghost kept = rows.take(i as int).filter(pred);
            courses.push(process_file(spec, config));
            proof {
                assert(pipeline_views(courses@) =~= before.push(start(rows[i as int])));
                assert(kept.push(rows[i as int]).map_values(start) =~= kept.map_values(start).push(
                    start(rows[i as int]),
                ));
            }
        }
        i += 1;
    }
    proof {
        assert(rows.take(rows.len() as int) =~= rows);
    }
    courses
}

} // verus!
