use vstd::prelude::*;
use crate::error::ReshardingError;
use crate::layout::{ShardLayout, ShardLayoutView, SplitShardEvent, SplitShardEventView};

verus! {

/// A shared flag that asks background resharding work to stop.
#[derive(Clone, Copy, Debug)]
pub struct ReshardingHandle {
    pub cancelled: bool,
}

impl ReshardingHandle {
    pub fn new() -> (r: ReshardingHandle)
        ensures
            !r.cancelled,
    {
        ReshardingHandle { cancelled: false }
    }

    pub fn stop(&mut self)
        ensures
            final(self).cancelled,
    {
        self.cancelled = true;
    }

    pub fn is_cancelled(&self) -> (r: bool)
        ensures
            r == self.cancelled,
    {
        self.cancelled
    }
}

/// Where the flat-storage part of a split stands.
#[derive(Debug)]
pub enum FlatStorageStatus {
    /// No split was handed over.
    Idle,
    /// A committed split, with the layout it leads to, is being carried into
    /// flat storage; the children are not yet observable there.
    InProgress(SplitShardEvent, ShardLayout),
    /// The split is fully observable in flat storage.
    Done(SplitShardEvent),
}

pub enum FlatStorageStatusView {
    Idle,
    InProgress(SplitShardEventView, ShardLayoutView),
    Done(SplitShardEventView),
}

impl View for FlatStorageStatus {
    type V = FlatStorageStatusView;

    open spec fn view(&self) -> FlatStorageStatusView {
        match self {
            FlatStorageStatus::Idle => FlatStorageStatusView::Idle,
            FlatStorageStatus::InProgress(e, l) => FlatStorageStatusView::InProgress(e@, l@),
            FlatStorageStatus::Done(e) => FlatStorageStatusView::Done(e@),
        }
    }
}

/// Accepts the hand-off of a split whose in-memory part is committed; the
/// flat-storage work itself runs in the background.
#[derive(Debug)]
pub struct FlatStorageResharder {
    pub status: FlatStorageStatus,
}

/// What a hand-off does: it starts a split when none is in progress, does
/// nothing when that same split is already in progress or done, and is
/// refused while another split is in progress.
pub open spec fn handoff(
    current: FlatStorageStatusView,
    event: SplitShardEventView,
    next_layout: ShardLayoutView,
) -> Result<FlatStorageStatusView, ReshardingError> {
    match current {
        FlatStorageStatusView::Idle => Ok(FlatStorageStatusView::InProgress(event, next_layout)),
        FlatStorageStatusView::InProgress(e, _) => if e == event {
            Ok(current)
        } else {
            Err(ReshardingError::FlatStorageStartFailed)
        },
        FlatStorageStatusView::Done(e) => if e == event {
            Ok(current)
        } else {
            Ok(FlatStorageStatusView::InProgress(event, next_layout))
        },
    }
}

/// What finishing does: the split in progress becomes done unless the work
/// was cancelled, in which case it stays in progress, not yet observable.
pub open spec fn finish(current: FlatStorageStatusView, event: SplitShardEventView, cancelled: bool) -> Result<
    FlatStorageStatusView,
    ReshardingError,
> {
    match current {
        FlatStorageStatusView::InProgress(e, _) => if e != event {
            Err(ReshardingError::FlatStorageNotInProgress)
        } else if cancelled {
            Err(ReshardingError::FlatStorageCancelled)
        } else {
            Ok(FlatStorageStatusView::Done(event))
        },
        _ => Err(ReshardingError::FlatStorageNotInProgress),
    }
}

impl FlatStorageResharder {
    pub fn new() -> (r: FlatStorageResharder)
        ensures
            r.status@ == FlatStorageStatusView::Idle,
    {
        FlatStorageResharder { status: FlatStorageStatus::Idle }
    }

    /// Hands a split and the layout it leads to over to the background work.
    pub fn start_resharding(&mut self, event: &SplitShardEvent, next_layout: &ShardLayout) -> (r: Result<(), ReshardingError>)
        ensures
            match handoff(old(self).status@, event@, next_layout@) {
                Ok(next) => r is Ok && final(self).status@ == next,
                Err(e) => r == Err::<(), ReshardingError>(e) && final(self).status@ == old(
                    self,
                ).status@,
            },
    {
        let start = match &self.status {
            FlatStorageStatus::Idle => true,
            FlatStorageStatus::InProgress(e, _) => {
                if e.same_as(event) {
                    return Ok(());
                }
                return Err(ReshardingError::FlatStorageStartFailed);
            },
            FlatStorageStatus::Done(e) => !e.same_as(event),
        };
        if start {
            self.status = FlatStorageStatus::InProgress(event.duplicate(), next_layout.duplicate());
        }
        Ok(())
    }

    /// Marks the split in progress as fully carried into flat storage, unless
    /// `handle` asks the work to stop.
    pub fn finish_resharding(&mut self, event: &SplitShardEvent, handle: &ReshardingHandle) -> (r: Result<(), ReshardingError>)
        ensures
            match finish(old(self).status@, event@, handle.cancelled) {
                Ok(next) => r is Ok && final(self).status@ == next,
                Err(e) => r == Err::<(), ReshardingError>(e) && final(self).status@ == old(
                    self,
                ).status@,
            },
    {
        let matches = match &self.status {
            FlatStorageStatus::InProgress(e, _) => e.same_as(event),
            _ => false,
        };
        if !matches {
            return Err(ReshardingError::FlatStorageNotInProgress);
        }
        if handle.is_cancelled() {
            return Err(ReshardingError::FlatStorageCancelled);
        }
        self.status = FlatStorageStatus::Done(event.duplicate());
        Ok(())
    }
}

/// Cancellation never makes a split partly observable: a cancelled finish
/// leaves the status as it was, and a split becomes done only from being in
/// progress, uncancelled.
pub proof fn lemma_cancellation_safe(current: FlatStorageStatusView, event: SplitShardEventView, cancelled: bool)
    ensures
        cancelled ==> finish(current, event, cancelled) is Err,
        finish(current, event, cancelled) is Ok ==> !cancelled && (current is InProgress
            && current->InProgress_0 == event) && finish(current, event, cancelled)->Ok_0
            == FlatStorageStatusView::Done(event),
{
}

} // verus!
