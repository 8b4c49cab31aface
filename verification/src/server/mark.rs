//! Setting the status of a file by hand.

use crate::server::database::ProcessStatus;
use vstd::prelude::*;

verus! {

/// A status that an operator may give to any file.
#[derive(Clone, Copy, Debug, PartialEq, Eq, Structural)]
pub enum MarkStatus {
    Done,
    Failed,
    ToPrune,
}

/// Whether an operator may give the status `to` to a file, whatever its
/// status is.
pub open spec fn may_be_marked(to: ProcessStatus) -> bool {
    to == ProcessStatus::Done || to == ProcessStatus::Failed || to == ProcessStatus::ToPrune
}

impl From<MarkStatus> for ProcessStatus {
    fn from(value: MarkStatus) -> (status: Self) {
        match value {
            MarkStatus::Done => ProcessStatus::Done,
            MarkStatus::Failed => ProcessStatus::Failed,
            MarkStatus::ToPrune => ProcessStatus::ToPrune,
        }
    }
}

impl vstd::std_specs::convert::FromSpecImpl<MarkStatus> for ProcessStatus {
    open spec fn obeys_from_spec() -> bool {
        true
    }

    open spec fn from_spec(value: MarkStatus) -> Self {
        match value {
            MarkStatus::Done => ProcessStatus::Done,
            MarkStatus::Failed => ProcessStatus::Failed,
            MarkStatus::ToPrune => ProcessStatus::ToPrune,
        }
    }
}

/// An operator's mark leads to `Done`, `Failed` or `ToPrune`, and each of
/// these can be reached by a mark; to no other status can a file be marked.
pub proof fn lemma_marks_reach_the_settled_states(to: ProcessStatus)
    ensures
        may_be_marked(to) <==> exists|mark: MarkStatus|
            #[trigger] <ProcessStatus as vstd::std_specs::convert::FromSpec<MarkStatus>>::from_spec(mark) == to,
{
    if may_be_marked(to) {
        let mark = match to {
            ProcessStatus::Done => MarkStatus::Done,
            ProcessStatus::Failed => MarkStatus::Failed,
            _ => MarkStatus::ToPrune,
        };
        assert(<ProcessStatus as vstd::std_specs::convert::FromSpec<MarkStatus>>::from_spec(mark) == to);
    }
}

} // verus!
