//! The life of a row of the registry, and what the course of a file does
//! to it.
//!
//! A row is made in the state `AwaitFromClient`, passes to `Processing`
//! when its file has arrived, and from there to `Done`, `ToPrune` or
//! `Failed`.  A failed row returns to `Processing` when its processing is
//! tried again.  Rows are removed by pruning and cleaning alone.

use crate::hashing::{digest_of, hashed_input, lemma_digests_equal_iff_hashes_equal, sha256};
use crate::protocol::{FileSpecView, ReceiptView};
use crate::server::database::{
    distinct_hashes, has_row, rows_in_state, rows_with_status, rows_without, status_in,
    ProcessStatus, RecordView, Registry,
};
use crate::server::{
    asks_registry, next, receipt_of, request_of, retried, submitted, Entry, Event, EventView,
    Phase, Pipeline, PipelineView, Reply, Request, StatusAfterProcessing,
};
use vstd::prelude::*;

verus! {

/// Whether the pipeline may take a row from the state `from` to the state
/// `to`, where no state stands for no row.
pub open spec fn may_follow(from: Option<ProcessStatus>, to: Option<ProcessStatus>) -> bool {
    match (from, to) {
        (None, Some(ProcessStatus::AwaitFromClient)) => true,
        (Some(ProcessStatus::AwaitFromClient), Some(ProcessStatus::Processing)) => true,
        (Some(ProcessStatus::AwaitFromClient), None) => true,
        (Some(ProcessStatus::Processing), Some(ProcessStatus::Done)) => true,
        (Some(ProcessStatus::Processing), Some(ProcessStatus::ToPrune)) => true,
        (Some(ProcessStatus::Processing), Some(ProcessStatus::Failed)) => true,
        (Some(ProcessStatus::Failed), Some(ProcessStatus::Processing)) => true,
        (Some(ProcessStatus::ToPrune), None) => true,
        (Some(ProcessStatus::Done), None) => true,
        _ => false,
    }
}

/// What the registry answers to the pending request of `p` when it does
/// not fail, if that request is one to the registry.  To ask for the
/// status of a digest without a row, or to insert a digest that has one, is
/// an error.
pub open spec fn registry_answer(rows: Seq<RecordView>, p: PipelineView) -> Option<EventView> {
    let hash = p.file.digest.hex;
    match p.phase {
        Phase::Lookup => Some(EventView::Contains(has_row(rows, hash))),
        Phase::Known | Phase::Claim => match status_in(rows, hash) {
            Some(status) => Some(EventView::Status(status)),
            None => Some(EventView::RegistryFailed),
        },
        Phase::Insert => if has_row(rows, hash) {
            Some(EventView::RegistryFailed)
        } else {
            Some(EventView::Inserted)
        },
        Phase::Mark | Phase::Settle(_) => Some(EventView::StatusSet),
        _ => None,
    }
}

/// The rows once the pending request of `p` has been carried out at the
/// time `now`.
pub open spec fn registry_after(rows: Seq<RecordView>, p: PipelineView, now: Seq<char>) -> Seq<
    RecordView,
> {
    let hash = p.file.digest.hex;
    match p.phase {
        Phase::Insert => if has_row(rows, hash) {
            rows
        } else {
            rows.push(RecordView::first(p.file, now))
        },
        Phase::Mark => rows_with_status(rows, hash, ProcessStatus::Processing, now),
        Phase::Settle(status) => rows_with_status(rows, hash, status, now),
        _ => rows,
    }
}

impl Registry {
    /// Carries out the pending request of `course`, if it is one to the
    /// registry, at the time `now`, and gives the answer.
    pub fn answer(&mut self, course: &Pipeline, now: &str) -> (event: Option<Event>)
        requires
            old(self).wf(),
        ensures
            final(self).wf(),
            final(self)@ == registry_after(old(self)@, course@, now@),
            match event {
                Some(e) => registry_answer(old(self)@, course@) == Some(e@),
                None => registry_answer(old(self)@, course@) is None,
            },
    {
        let hash = course.file.hash();
        match course.phase {
            Phase::Lookup => Some(Event::Contains(self.contains(hash))),
            Phase::Known | Phase::Claim => match self.status(hash) {
                Ok(status) => Some(Event::Status(status)),
                Err(_) => Some(Event::RegistryFailed),
            },
            Phase::Insert => match self.insert_new(&course.file, now) {
                Ok(_) => Some(Event::Inserted),
                Err(_) => Some(Event::RegistryFailed),
            },
            Phase::Mark => {
                self.update_status(hash, ProcessStatus::Processing, now);
                Some(Event::StatusSet)
            },
            Phase::Settle(status) => {
                self.update_status(hash, status, now);
                Some(Event::StatusSet)
            },
            _ => None,
        }
    }
}

/// Whether the registry is as the course `p` takes it to be: the row of a
/// file that is being verified awaits the client, the row of a file about
/// to be claimed awaits the client or has failed, and the row of a file
/// that is being processed is `Processing`.
pub open spec fn agrees(rows: Seq<RecordView>, p: PipelineView) -> bool {
    let status = status_in(rows, p.file.digest.hex);
    match p.phase {
        Phase::Bucket(Entry::Retried) => status == Some(ProcessStatus::Failed),
        Phase::Verify | Phase::Reply(Reply::Verified) => status == Some(
            ProcessStatus::AwaitFromClient,
        ),
        Phase::Claim | Phase::Mark => status == Some(ProcessStatus::AwaitFromClient) || status
            == Some(ProcessStatus::Failed),
        Phase::Run => status == Some(ProcessStatus::Processing),
        Phase::Settle(to) => status == Some(ProcessStatus::Processing) && (to
            == ProcessStatus::Done || to == ProcessStatus::ToPrune || to == ProcessStatus::Failed),
        _ => true,
    }
}

/// Whether `e` is what the world may answer to the pending request of `p`:
/// a request to the registry is answered truly, or fails.
pub open spec fn truthful(rows: Seq<RecordView>, p: PipelineView, e: EventView) -> bool {
    asks_registry(p.phase) ==> e is RegistryFailed || Some(e) == registry_answer(rows, p)
}

/// The rows after the pending request of `p` met the answer `e`: a request
/// that failed has changed nothing.
pub open spec fn rows_after(rows: Seq<RecordView>, p: PipelineView, e: EventView, now: Seq<char>)
    -> Seq<RecordView> {
    if e is RegistryFailed {
        rows
    } else {
        registry_after(rows, p, now)
    }
}

/// In a table with one row per digest, the status of a digest is that of
/// any row that has it.
pub proof fn lemma_status_of_row(rows: Seq<RecordView>, i: int)
    requires
        distinct_hashes(rows),
        0 <= i < rows.len(),
    ensures
        status_in(rows, rows[i].hash) == Some(rows[i].status),
{
    let hash = rows[i].hash;
    let k = choose|k: int| 0 <= k < rows.len() && (#[trigger] rows[k]).hash == hash;
    if k < i {
        assert(rows[k].hash != rows[i].hash);
    } else if i < k {
        assert(rows[i].hash != rows[k].hash);
    }
}

/// Setting the status of a digest changes the status of that digest, if it
/// has a row, and of no other; a digest still has one row at most.
pub proof fn lemma_status_after_update(
    rows: Seq<RecordView>,
    hash: Seq<char>,
    status: ProcessStatus,
    now: Seq<char>,
    other: Seq<char>,
)
    requires
        distinct_hashes(rows),
    ensures
        distinct_hashes(rows_with_status(rows, hash, status, now)),
        has_row(rows_with_status(rows, hash, status, now), other) == has_row(rows, other),
        status_in(rows_with_status(rows, hash, status, now), other) == if other == hash && has_row(
            rows,
            hash,
        ) {
            Some(status)
        } else {
            status_in(rows, other)
        },
{
    let after = rows_with_status(rows, hash, status, now);
    assert forall|i: int| 0 <= i < rows.len() implies (#[trigger] after[i]).hash == rows[i].hash by {}
    assert(distinct_hashes(after)) by {
        assert forall|i: int, j: int| 0 <= i < j < after.len() implies (#[trigger] after[i]).hash != (
        #[trigger] after[j]).hash by {
            assert(rows[i].hash != rows[j].hash);
        }
    }
    if has_row(rows, other) {
        let i = choose|i: int| 0 <= i < rows.len() && (#[trigger] rows[i]).hash == other;
        assert(after[i].hash == other);
        lemma_status_of_row(rows, i);
        lemma_status_of_row(after, i);
    } else {
        if has_row(after, other) {
            let i = choose|i: int| 0 <= i < after.len() && (#[trigger] after[i]).hash == other;
            assert(rows[i].hash == other);
        }
    }
}

/// Adding a row for a digest that has none gives that digest the status of
/// the row and leaves every other digest as it was; a digest still has one
/// row at most.
pub proof fn lemma_status_after_insert(rows: Seq<RecordView>, row: RecordView, other: Seq<char>)
    requires
        distinct_hashes(rows),
        !has_row(rows, row.hash),
    ensures
        distinct_hashes(rows.push(row)),
        status_in(rows.push(row), other) == if other == row.hash {
            Some(row.status)
        } else {
            status_in(rows, other)
        },
{
    let after = rows.push(row);
    assert(distinct_hashes(after)) by {
        assert forall|i: int, j: int| 0 <= i < j < after.len() implies (#[trigger] after[i]).hash != (
        #[trigger] after[j]).hash by {
            if j < rows.len() {
                assert(rows[i].hash != rows[j].hash);
            } else {
                assert(rows[i].hash != row.hash);
            }
        }
    }
    if other == row.hash {
        assert(after[rows.len() as int].hash == other);
        lemma_status_of_row(after, rows.len() as int);
    } else if has_row(rows, other) {
        let i = choose|i: int| 0 <= i < rows.len() && (#[trigger] rows[i]).hash == other;
        assert(after[i].hash == other);
        lemma_status_of_row(rows, i);
        lemma_status_of_row(after, i);
    } else {
        if has_row(after, other) {
            let i = choose|i: int| 0 <= i < after.len() && (#[trigger] after[i]).hash == other;
            assert(rows[i].hash == other);
        }
    }
}

/// Whatever a course asks of the registry keeps one row per digest at most,
/// leaves every other digest as it was, and, where the registry is as the
/// course takes it to be, takes the row of its own digest along an edge of
/// `may_follow` or leaves it where it was.
pub proof fn lemma_requests_follow_the_life_of_a_row(
    rows: Seq<RecordView>,
    p: PipelineView,
    now: Seq<char>,
    other: Seq<char>,
)
    requires
        distinct_hashes(rows),
        agrees(rows, p),
    ensures
        distinct_hashes(registry_after(rows, p, now)),
        other != p.file.digest.hex ==> status_in(registry_after(rows, p, now), other) == status_in(
            rows,
            other,
        ),
        status_in(registry_after(rows, p, now), p.file.digest.hex) == status_in(
            rows,
            p.file.digest.hex,
        ) || may_follow(
            status_in(rows, p.file.digest.hex),
            status_in(registry_after(rows, p, now), p.file.digest.hex),
        ),
{
    let hash = p.file.digest.hex;
    match p.phase {
        Phase::Insert => {
            if !has_row(rows, hash) {
                lemma_status_after_insert(rows, RecordView::first(p.file, now), other);
                lemma_status_after_insert(rows, RecordView::first(p.file, now), hash);
            }
        },
        Phase::Mark => {
            lemma_status_after_update(rows, hash, ProcessStatus::Processing, now, other);
            lemma_status_after_update(rows, hash, ProcessStatus::Processing, now, hash);
        },
        Phase::Settle(status) => {
            lemma_status_after_update(rows, hash, status, now, other);
            lemma_status_after_update(rows, hash, status, now, hash);
        },
        _ => {},
    }
}

/// As long as nothing else writes to the row of its digest and the
/// registry answers truly, the registry stays as a course takes it to be.
pub proof fn lemma_agreement_is_kept(
    rows: Seq<RecordView>,
    p: PipelineView,
    e: EventView,
    now: Seq<char>,
)
    requires
        distinct_hashes(rows),
        agrees(rows, p),
        truthful(rows, p, e),
        next(p, e) is Some,
    ensures
        agrees(rows_after(rows, p, e, now), next(p, e)->0),
{
    let hash = p.file.digest.hex;
    if !(e is RegistryFailed) {
        match p.phase {
            Phase::Insert => {
                if !has_row(rows, hash) {
                    lemma_status_after_insert(rows, RecordView::first(p.file, now), hash);
                }
            },
            Phase::Mark => {
                lemma_status_after_update(rows, hash, ProcessStatus::Processing, now, hash);
            },
            Phase::Settle(status) => {
                lemma_status_after_update(rows, hash, status, now, hash);
            },
            _ => {},
        }
    }
}

/// A course starts in agreement with the registry: one that a client
/// started takes nothing for granted, and one that the retry loop started
/// does so for a row in the state `Failed`.
pub proof fn lemma_agreement_at_start(
    rows: Seq<RecordView>,
    file: FileSpecView,
    after: StatusAfterProcessing,
)
    ensures
        agrees(rows, submitted(file, after)),
        status_in(rows, file.digest.hex) == Some(ProcessStatus::Failed) ==> agrees(
            rows,
            retried(file, after),
        ),
{
}

/// The processing command is asked for only by a course that has just set
/// the status to `Processing`, and a course sets that status only after it
/// held a processing permit and the registry gave it another status.
pub proof fn lemma_processing_is_claimed_first(p: PipelineView, e: EventView)
    requires
        next(p, e) is Some,
    ensures
        next(p, e)->0.phase == Phase::Run ==> p.phase == Phase::Mark && e is StatusSet,
        next(p, e)->0.phase == Phase::Mark ==> (p.phase == Phase::Mark && e is RegistryFailed) || (
        p.phase == Phase::Claim && e is Status && e->Status_0 != ProcessStatus::Processing),
{
}

/// A file that has arrived is taken for the file announced if and only if
/// what the server hashes of it has the SHA-256 value of what the client,
/// with a digest of the same kind and under the same name, hashed of its
/// own: then the server sends `Received`, and otherwise `DifferentHash`.
pub proof fn lemma_verification_compares_hashes(
    p: PipelineView,
    size_there: u64,
    content_there: Seq<u8>,
    size_here: u64,
    content_here: Seq<u8>,
)
    requires
        p.phase == Phase::Verify,
        p.file.digest == digest_of(p.file.filename, size_there, content_there, p.file.digest.full),
    ensures
        ({
            let name = p.file.filename;
            let full = p.file.digest.full;
            let seen = digest_of(name, size_here, content_here, full);
            let same = sha256(hashed_input(name, size_here, content_here, full)) == sha256(
                hashed_input(name, size_there, content_there, full),
            );
            let then = next(p, EventView::Digest(seen));
            &&& then is Some
            &&& then->0.phase == if same {
                Phase::Reply(Reply::Verified)
            } else {
                Phase::Reply(Reply::DifferentHash)
            }
            &&& receipt_of(then->0) == if same {
                ReceiptView::Received(p.file)
            } else {
                ReceiptView::DifferentHash(p.file)
            }
        }),
{
    let name = p.file.filename;
    let full = p.file.digest.full;
    lemma_digests_equal_iff_hashes_equal(
        name,
        size_here,
        content_here,
        full,
        name,
        size_there,
        content_there,
        full,
    );
}

/// A course that claims a file which is being processed leaves it alone.
pub proof fn lemma_claim_yields_to_running(p: PipelineView)
    requires
        p.phase == Phase::Claim,
    ensures
        next(p, EventView::Status(ProcessStatus::Processing)) is Some,
        next(p, EventView::Status(ProcessStatus::Processing))->0.phase == Phase::Finished,
{
}

/// The server goes on to process a file only after it has sent `Received`
/// for it: no other receipt is followed by processing.
pub proof fn lemma_processing_follows_received(p: PipelineView)
    requires
        p.phase is Reply,
        next(p, EventView::Sent) is Some,
        next(p, EventView::Sent)->0.phase != Phase::Finished,
    ensures
        receipt_of(p) is Received,
        next(p, EventView::Sent)->0.phase == Phase::Claim,
{
}

/// A file whose digest the registry holds in a state other than
/// `AwaitFromClient` is acknowledged at once: the server looks the digest
/// up, reads its status, sends `Received` and stops.  It writes nothing to
/// the registry and does not run the processing command.
pub proof fn lemma_known_file_is_acknowledged(
    file: FileSpecView,
    after: StatusAfterProcessing,
    bucket_created: bool,
    status: ProcessStatus,
)
    requires
        status != ProcessStatus::AwaitFromClient,
    ensures
        ({
            let begun = submitted(file, after);
            let looking = next(begun, EventView::BucketCreated(bucket_created))->0;
            let known = next(looking, EventView::Contains(true))->0;
            let replying = next(known, EventView::Status(status))->0;
            let ended = next(replying, EventView::Sent)->0;
            &&& request_of(begun.phase) == Request::CreateBucket
            &&& request_of(looking.phase) == Request::Contains
            &&& request_of(known.phase) == Request::ReadStatus
            &&& request_of(replying.phase) == Request::Send
            &&& receipt_of(replying) == ReceiptView::Received(file)
            &&& ended.phase == Phase::Finished
        }),
{
}

/// Removing the row of a digest leaves that digest without a row and every
/// other digest as it was; a digest still has one row at most.  Pruning
/// and cleaning remove the rows of `ToPrune` and `Done`, which is where the
/// life of a row may end.
pub proof fn lemma_status_after_remove(rows: Seq<RecordView>, hash: Seq<char>, other: Seq<char>)
    requires
        distinct_hashes(rows),
    ensures
        distinct_hashes(rows_without(rows, hash)),
        status_in(rows_without(rows, hash), other) == if other == hash {
            None
        } else {
            status_in(rows, other)
        },
        status_in(rows, hash) == Some(ProcessStatus::ToPrune) || status_in(rows, hash) == Some(
            ProcessStatus::Done,
        ) ==> may_follow(status_in(rows, hash), status_in(rows_without(rows, hash), hash)),
{
    let after = rows_without(rows, hash);
    lemma_rows_left(rows, hash);
    lemma_rows_left_distinct(rows, hash);
    if other == hash {
        if has_row(after, other) {
            let k = choose|k: int| 0 <= k < after.len() && (#[trigger] after[k]).hash == other;
            assert(after[k].hash != hash);
        }
    } else if has_row(rows, other) {
        let i = choose|i: int| 0 <= i < rows.len() && (#[trigger] rows[i]).hash == other;
        lemma_status_of_row(rows, i);
        let k = choose|k: int| 0 <= k < after.len() && after[k] == rows[i];
        assert(after[k].hash == other);
        lemma_status_of_row(after, k);
    } else {
        if has_row(after, other) {
            let k = choose|k: int| 0 <= k < after.len() && (#[trigger] after[k]).hash == other;
            let i = choose|i: int| 0 <= i < rows.len() && rows[i] == after[k];
            assert(rows[i].hash == other);
        }
    }
}

/// What is left when the rows of a digest are taken out are the rows of
/// the other digests, each of them.
proof fn lemma_rows_left(rows: Seq<RecordView>, hash: Seq<char>)
    ensures
        forall|k: int|
            0 <= k < rows_without(rows, hash).len() ==> (#[trigger] rows_without(rows, hash)[k]).hash
                != hash && exists|i: int| 0 <= i < rows.len() && rows[i] == rows_without(rows, hash)[k],
        forall|i: int|
            0 <= i < rows.len() && rows[i].hash != hash ==> exists|k: int|
                0 <= k < rows_without(rows, hash).len() && rows_without(rows, hash)[k]
                    == #[trigger] rows[i],
    decreases rows.len(),
{
    reveal(Seq::filter);
    let pred = |r: RecordView| r.hash != hash;
    let after = rows.filter(pred);
    if rows.len() > 0 {
        let front = rows.drop_last();
        let sub = front.filter(pred);
        lemma_rows_left(front, hash);
        assert forall|k: int| 0 <= k < after.len() implies (#[trigger] after[k]).hash != hash
            && exists|i: int| 0 <= i < rows.len() && rows[i] == after[k] by {
            if k < sub.len() {
                assert(after[k] == sub[k]);
                let i = choose|i: int| 0 <= i < front.len() && front[i] == sub[k];
                assert(rows[i] == after[k]);
            } else {
                assert(rows[rows.len() - 1] == after[k]);
            }
        }
        assert forall|i: int| 0 <= i < rows.len() && rows[i].hash != hash implies exists|k: int|
            0 <= k < after.len() && after[k] == #[trigger] rows[i] by {
            if i < front.len() {
                assert(front[i] == rows[i]);
                let k = choose|k: int| 0 <= k < sub.len() && sub[k] == front[i];
                assert(after[k] == rows[i]);
            } else {
                assert(after[after.len() - 1] == rows[i]);
            }
        }
    }
}

/// Taking rows out of a table with one row per digest leaves such a table.
proof fn lemma_rows_left_distinct(rows: Seq<RecordView>, hash: Seq<char>)
    requires
        distinct_hashes(rows),
    ensures
        distinct_hashes(rows_without(rows, hash)),
    decreases rows.len(),
{
    reveal(Seq::filter);
    let pred = |r: RecordView| r.hash != hash;
    let after = rows.filter(pred);
    if rows.len() > 0 {
        let front = rows.drop_last();
        let sub = front.filter(pred);
        assert(distinct_hashes(front)) by {
            assert forall|i: int, j: int| 0 <= i < j < front.len() implies (#[trigger] front[i]).hash
                != (#[trigger] front[j]).hash by {
                assert(rows[i].hash != rows[j].hash);
            }
        }
        lemma_rows_left_distinct(front, hash);
        lemma_rows_left(front, hash);
        assert forall|k: int, l: int| 0 <= k < l < after.len() implies (#[trigger] after[k]).hash != (
        #[trigger] after[l]).hash by {
            if l < sub.len() {
                assert(sub[k].hash != sub[l].hash);
            } else {
                let a = choose|a: int| 0 <= a < front.len() && front[a] == sub[k];
                assert(rows[a].hash != rows[rows.len() - 1].hash);
            }
        }
    }
}

/// The rows found in a state are rows of the table, and are in that
/// state.
pub proof fn lemma_rows_in_state(rows: Seq<RecordView>, status: ProcessStatus)
    ensures
        forall|k: int|
            0 <= k < rows_in_state(rows, status).len() ==> (#[trigger] rows_in_state(
                rows,
                status,
            )[k]).status == status && exists|i: int|
                0 <= i < rows.len() && rows[i] == rows_in_state(rows, status)[k],
    decreases rows.len(),
{
    reveal(Seq::filter);
    let pred = |r: RecordView| r.status == status;
    let found = rows.filter(pred);
    if rows.len() > 0 {
        let front = rows.drop_last();
        let sub = front.filter(pred);
        lemma_rows_in_state(front, status);
        assert forall|k: int| 0 <= k < found.len() implies (#[trigger] found[k]).status == status
            && exists|i: int| 0 <= i < rows.len() && rows[i] == found[k] by {
            if k < sub.len() {
                assert(found[k] == sub[k]);
                let i = choose|i: int| 0 <= i < front.len() && front[i] == sub[k];
                assert(rows[i] == found[k]);
            } else {
                assert(rows[rows.len() - 1] == found[k]);
            }
        }
    }
}

/// Each course that the retry loop starts for the rows it found in the
/// state `Failed` starts in agreement with the registry, so that it takes
/// its row from `Failed` to `Processing` and on.
pub proof fn lemma_retried_courses_agree(
    rows: Seq<RecordView>,
    after: StatusAfterProcessing,
    k: int,
)
    requires
        distinct_hashes(rows),
        0 <= k < rows_in_state(rows, ProcessStatus::Failed).len(),
    ensures
        agrees(rows, retried(rows_in_state(rows, ProcessStatus::Failed)[k].spec(), after)),
{
    lemma_rows_in_state(rows, ProcessStatus::Failed);
    let row = rows_in_state(rows, ProcessStatus::Failed)[k];
    let i = choose|i: int| 0 <= i < rows.len() && rows[i] == row;
    lemma_status_of_row(rows, i);
}

/// In a table with one row per digest at most, the rows of any digest, put
/// together, are one or none.
pub proof fn lemma_one_row_per_digest(rows: Seq<RecordView>, hash: Seq<char>)
    requires
        distinct_hashes(rows),
    ensures
        rows.filter(|r: RecordView| r.hash == hash).len() <= 1,
        rows.filter(|r: RecordView| r.hash == hash).len() == 1 <==> has_row(rows, hash),
    decreases rows.len(),
{
    reveal(Seq::filter);
    let pred = |r: RecordView| r.hash == hash;
    if rows.len() > 0 {
        let front = rows.drop_last();
        assert(distinct_hashes(front)) by {
            assert forall|i: int, j: int| 0 <= i < j < front.len() implies (#[trigger] front[i]).hash
                != (#[trigger] front[j]).hash by {
                assert(rows[i].hash != rows[j].hash);
            }
        }
        lemma_one_row_per_digest(front, hash);
        if has_row(front, hash) {
            let i = choose|i: int| 0 <= i < front.len() && (#[trigger] front[i]).hash == hash;
            assert(rows[i].hash == hash);
            assert(rows[i].hash != rows[rows.len() - 1].hash);
        }
        if has_row(rows, hash) && !has_row(front, hash) {
            let i = choose|i: int| 0 <= i < rows.len() && (#[trigger] rows[i]).hash == hash;
            if i < front.len() {
                assert(front[i].hash == hash);
            }
        }
        if pred(rows.last()) {
            assert(rows[rows.len() - 1].hash == hash);
        }
    }
}

} // verus!
