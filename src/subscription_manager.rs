//! The decisions of the operator loop: the single owner of the watched
//! observations. Each operation is applied in the order it arrived; what a
//! collaborator (task router, metadata client, region info provider)
//! answered is handed in as a plain value, and what is to be done next
//! (dispatch a scan, retry later, report a fatal error) is handed back.
use crate::backoff::{backoff_for_start_observe, backoff_secs, TRY_START_OBSERVE_MAX_RETRY_TIME};
use crate::error::{root_cause, Error};
use crate::region::{epoch_dominates, EpochOrder, ObserveHandle, Region, RegionView};
use crate::tracker::{ObservationRecord, ObserveState, RecordView, SubscriptionTracker};
use vstd::prelude::*;

verus! {

/// A request for the initial scan of a region.
#[derive(Debug)]
pub struct ScanCmd {
    pub region: Region,
    pub handle: ObserveHandle,
    pub last_checkpoint: u64,
}

/// What the task router and the metadata client answered while an
/// observation was being started.
#[derive(Debug)]
pub enum CheckpointLookup {
    /// No task covers the region's key range.
    NoTask,
    /// The task's last checkpoint of the region could not be fetched.
    Failed(Error),
    /// The task's last persisted checkpoint of the region.
    Found(u64),
}

/// A start that failed and is to be retried: after `delay_secs` seconds the
/// operation `NotifyFailToStartObserve` goes back to the mailbox with these
/// fields.
#[derive(Debug)]
pub struct RetryStart {
    pub region: Region,
    pub handle: ObserveHandle,
    pub err: Error,
    pub has_failed_for: u8,
    pub delay_secs: u64,
}

/// What to do once the checkpoint of a starting observation is known.
#[derive(Debug)]
pub enum StartAction {
    /// No task covers the region: the command was stale.
    Abandon,
    /// Send `NotifyFailToStartObserve` back after a delay.
    RetryLater(RetryStart),
    /// Hand the scan to the scan pool.
    Scan(ScanCmd),
}

/// What the region info provider answered about a region.
#[derive(Debug)]
pub enum RegionLookup {
    /// The region is not on this store.
    Absent,
    /// The region is on this store; `is_leader` tells whether this store
    /// leads it.
    Found { is_leader: bool },
    /// The provider could not be asked or did not answer.
    Failed(Error),
}

/// Why a retry was dropped.
#[derive(Clone, Copy, Debug, PartialEq, Eq, Structural)]
pub enum SkipReason {
    RegionAbsent,
    NotLeader,
    StaleCommand,
}

/// An error that fails the task owning the key range
/// `[start_key, end_key)`.
#[derive(Debug)]
pub struct FatalError {
    pub start_key: Vec<u8>,
    pub end_key: Vec<u8>,
    pub err: Error,
}

/// What to do with a `NotifyFailToStartObserve`.
#[derive(Debug)]
pub enum RetryAction {
    /// The command is stale or needless; drop it.
    Skip(SkipReason),
    /// Report a fatal error for the region's key range.
    Fatal(FatalError),
    /// The observation started again under `handle`: fetch its checkpoint
    /// and continue with `on_checkpoint_lookup`, passing `has_failed_for`.
    Restart { handle: ObserveHandle, has_failed_for: u8 },
}

/// What `RefreshResolver` did.
#[derive(Clone, Copy, Debug, PartialEq, Eq, Structural)]
pub enum RefreshAction {
    /// The watched record took the new region in place.
    Updated,
    /// The old record was cleared and the region starts again under the
    /// handle: look up the owning task and its checkpoint and continue with
    /// `on_refresh_checkpoint_lookup`.
    Rebootstrap(ObserveHandle),
    /// Nothing was watched for the region, or the watched epoch is newer.
    Ignored,
}

impl ScanCmd {
    /// The error that fails the task owning the scanned region once the
    /// scan's retries are spent with `err`.
    pub fn fatal_error(&self, err: Error) -> (r: FatalError)
        ensures
            r.start_key@ == self.region.start_key@,
            r.end_key@ == self.region.end_key@,
            (r.err matches Error::Contextual { context, inner_error } && context@
                == "retry time exceeds"@ && *inner_error == err),
    {
        FatalError {
            start_key: self.region.start_key.clone(),
            end_key: self.region.end_key.clone(),
            err: err.context("retry time exceeds".to_owned()),
        }
    }
}

/// The state of the operator: the watched records and the id of the next
/// handle it gives out.
pub struct ManagerView {
    pub records: Map<u64, RecordView>,
    pub next_handle: u64,
}

/// Every watched record holds a handle given out before: a new handle
/// differs from all of them.
pub open spec fn handles_issued(s: ManagerView) -> bool {
    forall|id: u64| #[trigger] s.records.contains_key(id) ==> s.records[id].handle.id < s.next_handle
}

/// One step of the operator, with what the collaborators answered.
pub enum ObserveEvent {
    Start { region: RegionView },
    CheckpointKnown { region: RegionView, handle: ObserveHandle, checkpoint: Option<u64> },
    Stop { region_id: u64 },
    Destroy { region: RegionView },
    RefreshResolver { region: RegionView },
    RefreshCheckpointKnown {
        region: RegionView,
        handle: ObserveHandle,
        task_found: bool,
        checkpoint: Option<u64>,
    },
    Retry { region: RegionView, handle: ObserveHandle, has_failed_for: u8, is_leader: bool },
    ScanFinished { region_id: u64, handle: ObserveHandle },
}

pub open spec fn pending_record(
    region: RegionView,
    handle: ObserveHandle,
    checkpoint: Option<u64>,
) -> RecordView {
    RecordView { region, handle, state: ObserveState::Pending, checkpoint }
}

/// `Start`: a pending record under a fresh handle.
pub open spec fn start_step(s: ManagerView, region: RegionView) -> ManagerView {
    ManagerView {
        records: s.records.insert(
            region.id,
            pending_record(region, ObserveHandle { id: s.next_handle }, None),
        ),
        next_handle: (s.next_handle + 1) as u64,
    }
}

/// The checkpoint of a starting observation is known: the record holds it.
pub open spec fn checkpoint_step(
    s: ManagerView,
    region: RegionView,
    handle: ObserveHandle,
    checkpoint: Option<u64>,
) -> ManagerView {
    match checkpoint {
        Some(ts) => ManagerView {
            records: s.records.insert(region.id, pending_record(region, handle, Some(ts))),
            ..s
        },
        None => s,
    }
}

/// `Destroy`: removes the record only if the operation's epoch is at least
/// the watched one.
pub open spec fn destroy_step(s: ManagerView, region: RegionView) -> ManagerView {
    if s.records.contains_key(region.id) && epoch_dominates(
        region.epoch,
        s.records[region.id].region.epoch,
    ) {
        ManagerView { records: s.records.remove(region.id), ..s }
    } else {
        s
    }
}

/// The watched record can take `region` in place: the key range did not
/// change and the membership did not go back.
pub open spec fn mergeable(old: RecordView, region: RegionView) -> bool {
    region.epoch.version == old.region.epoch.version && region.epoch.conf_ver
        >= old.region.epoch.conf_ver
}

/// `RefreshResolver`: merge in place; or, if the epoch is at least the
/// watched one, clear the record and take a fresh handle for the new
/// attempt; or leave things as they are.
pub open spec fn refresh_step(s: ManagerView, region: RegionView) -> ManagerView {
    if !s.records.contains_key(region.id) {
        s
    } else if mergeable(s.records[region.id], region) {
        ManagerView {
            records: s.records.insert(region.id, RecordView { region, ..s.records[region.id] }),
            ..s
        }
    } else if epoch_dominates(region.epoch, s.records[region.id].region.epoch) {
        ManagerView { records: s.records.remove(region.id), next_handle: (s.next_handle + 1) as u64 }
    } else {
        s
    }
}

/// A re-bootstrap learned whether a task owns the region and, if so, its
/// checkpoint: with a task, the region is pending again under the new
/// handle (holding the checkpoint if it was fetched); without one, it stays
/// cleared.
pub open spec fn refresh_checkpoint_step(
    s: ManagerView,
    region: RegionView,
    handle: ObserveHandle,
    task_found: bool,
    checkpoint: Option<u64>,
) -> ManagerView {
    if task_found {
        ManagerView {
            records: s.records.insert(region.id, pending_record(region, handle, checkpoint)),
            ..s
        }
    } else {
        s
    }
}

/// A retry goes on when this store leads the region, the watched record (if
/// any) is of the same attempt, and the retry budget is not spent.
pub open spec fn retry_goes_on(
    s: ManagerView,
    region: RegionView,
    handle: ObserveHandle,
    has_failed_for: u8,
    is_leader: bool,
) -> bool {
    &&& is_leader
    &&& !(s.records.contains_key(region.id) && s.records[region.id].handle != handle)
    &&& has_failed_for <= TRY_START_OBSERVE_MAX_RETRY_TIME
}

pub open spec fn scan_finished_step(s: ManagerView, region_id: u64, handle: ObserveHandle) -> ManagerView {
    if s.records.contains_key(region_id) && s.records[region_id].handle == handle {
        ManagerView {
            records: s.records.insert(
                region_id,
                RecordView { state: ObserveState::Observing, ..s.records[region_id] },
            ),
            ..s
        }
    } else {
        s
    }
}

/// The state after one step.
pub open spec fn step(s: ManagerView, e: ObserveEvent) -> ManagerView {
    match e {
        ObserveEvent::Start { region } => start_step(s, region),
        ObserveEvent::CheckpointKnown { region, handle, checkpoint } => checkpoint_step(
            s,
            region,
            handle,
            checkpoint,
        ),
        ObserveEvent::Stop { region_id } => ManagerView {
            records: s.records.remove(region_id),
            ..s
        },
        ObserveEvent::Destroy { region } => destroy_step(s, region),
        ObserveEvent::RefreshResolver { region } => refresh_step(s, region),
        ObserveEvent::RefreshCheckpointKnown {
            region,
            handle,
            task_found,
            checkpoint,
        } => refresh_checkpoint_step(s, region, handle, task_found, checkpoint),
        ObserveEvent::Retry { region, handle, has_failed_for, is_leader } => if retry_goes_on(
            s,
            region,
            handle,
            has_failed_for,
            is_leader,
        ) {
            start_step(s, region)
        } else {
            s
        },
        ObserveEvent::ScanFinished { region_id, handle } => scan_finished_step(
            s,
            region_id,
            handle,
        ),
    }
}

/// The state after the steps of `events`, in order.
pub open spec fn run(s: ManagerView, events: Seq<ObserveEvent>) -> ManagerView
    decreases events.len(),
{
    if events.len() == 0 {
        s
    } else {
        step(run(s, events.drop_last()), events.last())
    }
}

/// The watched state is a function of the operations in the order they
/// arrived: running two batches one after the other is running their
/// concatenation.
pub proof fn lemma_run_in_arrival_order(
    s: ManagerView,
    first: Seq<ObserveEvent>,
    then: Seq<ObserveEvent>,
)
    ensures
        run(s, first + then) == run(run(s, first), then),
    decreases then.len(),
{
    if then.len() == 0 {
        assert(first + then =~= first);
    } else {
        lemma_run_in_arrival_order(s, first, then.drop_last());
        assert((first + then).drop_last() =~= first + then.drop_last());
        assert((first + then).last() == then.last());
    }
}

/// Stopping a region that is not watched changes nothing, and stopping twice
/// is stopping once.
pub proof fn lemma_stop_idempotent(s: ManagerView, region_id: u64)
    ensures
        !s.records.contains_key(region_id) ==> step(s, ObserveEvent::Stop { region_id }) == s,
        step(step(s, ObserveEvent::Stop { region_id }), ObserveEvent::Stop { region_id })
            == step(s, ObserveEvent::Stop { region_id }),
{
    assert(!s.records.contains_key(region_id) ==> s.records.remove(region_id) =~= s.records);
    assert(s.records.remove(region_id).remove(region_id) =~= s.records.remove(region_id));
}

/// After `RefreshResolver` with a newer epoch, a `Destroy` that carries an
/// older epoch leaves the region watched: whether the refresh took the new
/// region in place, or restarted it and the restart found its task.
pub proof fn lemma_destroy_after_refresh_keeps_newer(
    s: ManagerView,
    newer: RegionView,
    older: RegionView,
    handle: ObserveHandle,
    checkpoint: Option<u64>,
)
    requires
        newer.id == older.id,
        epoch_dominates(newer.epoch, older.epoch),
        newer.epoch != older.epoch,
    ensures
        ({
            let refreshed = step(s, ObserveEvent::RefreshResolver { region: newer });
            refreshed.records.contains_key(newer.id) ==> step(
                refreshed,
                ObserveEvent::Destroy { region: older },
            ) == refreshed
        }),
        ({
            let restarted = step(
                s,
                ObserveEvent::RefreshCheckpointKnown {
                    region: newer,
                    handle,
                    task_found: true,
                    checkpoint,
                },
            );
            &&& restarted.records.contains_key(newer.id)
            &&& step(restarted, ObserveEvent::Destroy { region: older }) == restarted
        }),
{
}

/// An operation for the operator, with what the collaborators answered.
#[derive(Debug)]
pub enum OperatorInput {
    Start { region: Region },
    CheckpointLookedUp {
        region: Region,
        handle: ObserveHandle,
        has_failed_for: u8,
        lookup: CheckpointLookup,
    },
    Stop { region: Region },
    Destroy { region: Region },
    RefreshResolver { region: Region },
    RefreshCheckpointLookedUp { region: Region, handle: ObserveHandle, lookup: CheckpointLookup },
    Retry { region: Region, handle: ObserveHandle, has_failed_for: u8, lookup: RegionLookup },
    ScanFinished { region_id: u64, handle: ObserveHandle },
}

pub open spec fn found_checkpoint(lookup: CheckpointLookup) -> Option<u64> {
    match lookup {
        CheckpointLookup::Found(ts) => Some(ts),
        _ => None,
    }
}

/// The step an input stands for.
pub open spec fn input_event(input: OperatorInput) -> ObserveEvent {
    match input {
        OperatorInput::Start { region } => ObserveEvent::Start { region: region@ },
        OperatorInput::CheckpointLookedUp { region, handle, lookup, .. } =>
            ObserveEvent::CheckpointKnown {
            region: region@,
            handle,
            checkpoint: found_checkpoint(lookup),
        },
        OperatorInput::Stop { region } => ObserveEvent::Stop { region_id: region.id },
        OperatorInput::Destroy { region } => ObserveEvent::Destroy { region: region@ },
        OperatorInput::RefreshResolver { region } => ObserveEvent::RefreshResolver {
            region: region@,
        },
        OperatorInput::RefreshCheckpointLookedUp { region, handle, lookup } =>
            ObserveEvent::RefreshCheckpointKnown {
            region: region@,
            handle,
            task_found: !(lookup is NoTask),
            checkpoint: found_checkpoint(lookup),
        },
        OperatorInput::Retry { region, handle, has_failed_for, lookup } => ObserveEvent::Retry {
            region: region@,
            handle,
            has_failed_for,
            is_leader: lookup == (RegionLookup::Found { is_leader: true }),
        },
        OperatorInput::ScanFinished { region_id, handle } => ObserveEvent::ScanFinished {
            region_id,
            handle,
        },
    }
}

/// The operator can take `input` in state `s`: a handle can still be given
/// out, and an answer or a retry names a handle that was given out.
pub open spec fn input_ready(s: ManagerView, input: OperatorInput) -> bool {
    &&& s.next_handle < u64::MAX
    &&& match input {
        OperatorInput::CheckpointLookedUp { handle, .. } => handle.id < s.next_handle,
        OperatorInput::RefreshCheckpointLookedUp { handle, .. } => handle.id < s.next_handle,
        OperatorInput::Retry { handle, .. } => handle.id < s.next_handle,
        _ => true,
    }
}

/// The operator loop's state.
pub struct RegionSubscriptionManager {
    subs: SubscriptionTracker,
    next_handle: u64,
}

impl View for RegionSubscriptionManager {
    type V = ManagerView;

    closed spec fn view(&self) -> ManagerView {
        ManagerView { records: self.subs@, next_handle: self.next_handle }
    }
}

impl RegionSubscriptionManager {
    pub closed spec fn wf(&self) -> bool {
        self.subs.wf() && handles_issued(self@)
    }

    pub fn new() -> (r: RegionSubscriptionManager)
        ensures
            r.wf(),
            r@.records == Map::<u64, RecordView>::empty(),
            r@.next_handle == 0,
    {
        RegionSubscriptionManager { subs: SubscriptionTracker::new(), next_handle: 0 }
    }

    /// The watched records hold only handles given out before.
    pub proof fn lemma_handles_issued(&self)
        requires
            self.wf(),
        ensures
            handles_issued(self@),
    {
    }

    /// Whether a fresh handle can still be given out.
    pub fn can_issue_handle(&self) -> (r: bool)
        ensures
            r == (self@.next_handle < u64::MAX),
    {
        self.next_handle < u64::MAX
    }

    /// Whether `handle` was given out by this operator.
    pub fn issued(&self, handle: ObserveHandle) -> (r: bool)
        ensures
            r == (handle.id < self@.next_handle),
    {
        handle.id < self.next_handle
    }

    fn new_handle(&mut self) -> (r: ObserveHandle)
        requires
            old(self).next_handle < u64::MAX,
        ensures
            r.id == old(self).next_handle,
            final(self).next_handle == old(self).next_handle + 1,
            final(self).subs == old(self).subs,
    {
        let r = ObserveHandle { id: self.next_handle };
        self.next_handle = self.next_handle + 1;
        r
    }

    /// `Start`: watches the region as pending under a fresh handle, which it
    /// returns. Fetch the owning task's checkpoint next and hand the answer
    /// to `on_checkpoint_lookup`.
    pub fn start_observe(&mut self, region: &Region) -> (r: ObserveHandle)
        requires
            old(self).wf(),
            old(self)@.next_handle < u64::MAX,
        ensures
            final(self).wf(),
            final(self)@ == step(old(self)@, ObserveEvent::Start { region: region@ }),
            r.id == old(self)@.next_handle,
            forall|id: u64| #[trigger]
                old(self)@.records.contains_key(id) ==> old(self)@.records[id].handle != r,
    {
        let handle = self.new_handle();
        let rec = ObservationRecord {
            region: region.duplicate(),
            handle,
            state: ObserveState::Pending,
            checkpoint: None,
        };
        self.subs.insert(rec);
        handle
    }

    /// Continues a start once the task router and the metadata client have
    /// answered: with a checkpoint, the record holds it and the scan is
    /// dispatched; on a failure, a retry is scheduled after the backoff of
    /// `has_failed_for`, with one more failure counted; with no task the
    /// command is abandoned.
    pub fn on_checkpoint_lookup(
        &mut self,
        region: Region,
        handle: ObserveHandle,
        has_failed_for: u8,
        lookup: CheckpointLookup,
    ) -> (r: StartAction)
        requires
            old(self).wf(),
            handle.id < old(self)@.next_handle,
        ensures
            final(self).wf(),
            final(self)@ == step(
                old(self)@,
                ObserveEvent::CheckpointKnown {
                    region: region@,
                    handle,
                    checkpoint: found_checkpoint(lookup),
                },
            ),
            match lookup {
                CheckpointLookup::NoTask => r is Abandon,
                CheckpointLookup::Failed(e) => r == StartAction::RetryLater(
                    RetryStart {
                        region,
                        handle,
                        err: e,
                        has_failed_for: if has_failed_for < u8::MAX {
                            (has_failed_for + 1) as u8
                        } else {
                            u8::MAX
                        },
                        delay_secs: backoff_secs(has_failed_for as nat) as u64,
                    },
                ),
                CheckpointLookup::Found(ts) => match r {
                    StartAction::Scan(cmd) => cmd.region@ == region@ && cmd.handle == handle
                        && cmd.last_checkpoint == ts,
                    _ => false,
                },
            },
    {
        match lookup {
            CheckpointLookup::NoTask => StartAction::Abandon,
            CheckpointLookup::Failed(err) => {
                let delay_secs = backoff_for_start_observe(has_failed_for);
                let next = if has_failed_for < u8::MAX {
                    has_failed_for + 1
                } else {
                    u8::MAX
                };
                StartAction::RetryLater(
                    RetryStart { region, handle, err, has_failed_for: next, delay_secs },
                )
            },
            CheckpointLookup::Found(ts) => {
                let rec = ObservationRecord {
                    region: region.duplicate(),
                    handle,
                    state: ObserveState::Pending,
                    checkpoint: Some(ts),
                };
                self.subs.insert(rec);
                StartAction::Scan(ScanCmd { region, handle, last_checkpoint: ts })
            },
        }
    }

    /// Continues a re-bootstrap once the task router and the metadata client
    /// have answered. With no task the region stays cleared. With a task the
    /// region is pending again under the new handle; with its checkpoint the
    /// scan is dispatched, and if the checkpoint could not be fetched the
    /// failure is reported back at once, as the first failure of the attempt.
    pub fn on_refresh_checkpoint_lookup(
        &mut self,
        region: Region,
        handle: ObserveHandle,
        lookup: CheckpointLookup,
    ) -> (r: StartAction)
        requires
            old(self).wf(),
            handle.id < old(self)@.next_handle,
        ensures
            final(self).wf(),
            final(self)@ == step(
                old(self)@,
                ObserveEvent::RefreshCheckpointKnown {
                    region: region@,
                    handle,
                    task_found: !(lookup is NoTask),
                    checkpoint: found_checkpoint(lookup),
                },
            ),
            match lookup {
                CheckpointLookup::NoTask => r is Abandon,
                CheckpointLookup::Failed(e) => r == StartAction::RetryLater(
                    RetryStart { region, handle, err: e, has_failed_for: 0, delay_secs: 0 },
                ),
                CheckpointLookup::Found(ts) => match r {
                    StartAction::Scan(cmd) => cmd.region@ == region@ && cmd.handle == handle
                        && cmd.last_checkpoint == ts,
                    _ => false,
                },
            },
    {
        match lookup {
            CheckpointLookup::NoTask => StartAction::Abandon,
            CheckpointLookup::Failed(err) => {
                let rec = ObservationRecord {
                    region: region.duplicate(),
                    handle,
                    state: ObserveState::Pending,
                    checkpoint: None,
                };
                self.subs.insert(rec);
                StartAction::RetryLater(
                    RetryStart { region, handle, err, has_failed_for: 0, delay_secs: 0 },
                )
            },
            CheckpointLookup::Found(ts) => {
                let rec = ObservationRecord {
                    region: region.duplicate(),
                    handle,
                    state: ObserveState::Pending,
                    checkpoint: Some(ts),
                };
                self.subs.insert(rec);
                StartAction::Scan(ScanCmd { region, handle, last_checkpoint: ts })
            },
        }
    }

    /// `Stop`: forgets the region, whatever its epoch; returns whether it was
    /// watched.
    pub fn stop(&mut self, region: &Region) -> (r: bool)
        requires
            old(self).wf(),
        ensures
            final(self).wf(),
            final(self)@ == step(old(self)@, ObserveEvent::Stop { region_id: region.id }),
            r == old(self)@.records.contains_key(region.id),
    {
        self.subs.remove(region.id)
    }

    /// `Destroy`: forgets the region only if the operation's epoch is at least
    /// the watched one; returns whether it did.
    pub fn destroy(&mut self, region: &Region) -> (r: bool)
        requires
            old(self).wf(),
        ensures
            final(self).wf(),
            final(self)@ == step(old(self)@, ObserveEvent::Destroy { region: region@ }),
            r == (old(self)@.records.contains_key(region.id) && epoch_dominates(
                region.epoch,
                old(self)@.records[region.id].region.epoch,
            )),
    {
        let guard_holds = match self.subs.get(region.id) {
            Some(rec) => matches!(
                region.epoch.compare(&rec.region.epoch),
                EpochOrder::Same | EpochOrder::Newer
            ),
            None => false,
        };
        if guard_holds {
            self.subs.remove(region.id);
        }
        guard_holds
    }

    /// `RefreshResolver`: takes the new region into the watched record when
    /// the key range is unchanged; else, when the new epoch is at least the
    /// watched one, clears the record and gives out a fresh handle for the
    /// new attempt, to be continued with `on_refresh_checkpoint_lookup`.
    pub fn refresh_resolver(&mut self, region: &Region) -> (r: RefreshAction)
        requires
            old(self).wf(),
            old(self)@.next_handle < u64::MAX,
        ensures
            final(self).wf(),
            final(self)@ == step(old(self)@, ObserveEvent::RefreshResolver { region: region@ }),
            ({
                let t = old(self)@.records;
                let id = region.id;
                match r {
                    RefreshAction::Updated => t.contains_key(id) && mergeable(t[id], region@),
                    RefreshAction::Rebootstrap(h) => t.contains_key(id) && !mergeable(
                        t[id],
                        region@,
                    ) && epoch_dominates(region.epoch, t[id].region.epoch) && h.id == old(
                        self,
                    )@.next_handle && (forall|k: u64| #[trigger]
                        t.contains_key(k) ==> t[k].handle != h),
                    RefreshAction::Ignored => !t.contains_key(id) || (!mergeable(t[id], region@)
                        && !epoch_dominates(region.epoch, t[id].region.epoch)),
                }
            }),
    {
        let decision = match self.subs.get(region.id) {
            None => None,
            Some(rec) => {
                let old_epoch = rec.region.epoch;
                if region.epoch.version == old_epoch.version && region.epoch.conf_ver
                    >= old_epoch.conf_ver {
                    Some((true, rec.handle, rec.state, rec.checkpoint))
                } else if matches!(
                    region.epoch.compare(&old_epoch),
                    EpochOrder::Same | EpochOrder::Newer
                ) {
                    Some((false, rec.handle, rec.state, rec.checkpoint))
                } else {
                    None
                }
            },
        };
        match decision {
            None => RefreshAction::Ignored,
            Some((true, handle, state, checkpoint)) => {
                let rec = ObservationRecord { region: region.duplicate(), handle, state, checkpoint };
                self.subs.insert(rec);
                RefreshAction::Updated
            },
            Some((false, _, _, _)) => {
                self.subs.remove(region.id);
                let h = self.new_handle();
                RefreshAction::Rebootstrap(h)
            },
        }
    }

    /// `NotifyFailToStartObserve`, once the region info provider has
    /// answered. A failed lookup, or a spent retry budget, is fatal for the
    /// region's key range. A region that is absent or not led here, or a
    /// command of an older attempt, is skipped. Otherwise the observation
    /// starts again under a fresh handle. (A canceled observation is dropped
    /// before the lookup: see `Error::is_observe_canceled`.)
    pub fn retry_observe(
        &mut self,
        region: Region,
        handle: ObserveHandle,
        has_failed_for: u8,
        lookup: RegionLookup,
    ) -> (r: RetryAction)
        requires
            old(self).wf(),
            old(self)@.next_handle < u64::MAX,
            handle.id < old(self)@.next_handle,
        ensures
            final(self).wf(),
            final(self)@ == step(
                old(self)@,
                ObserveEvent::Retry {
                    region: region@,
                    handle,
                    has_failed_for,
                    is_leader: lookup == (RegionLookup::Found { is_leader: true }),
                },
            ),
            ({
                let t = old(self)@.records;
                let stale = t.contains_key(region.id) && t[region.id].handle != handle;
                match lookup {
                    RegionLookup::Failed(e) => match r {
                        RetryAction::Fatal(f) => f.start_key@ == region.start_key@ && f.end_key@
                            == region.end_key@ && (f.err matches Error::Contextual {
                            inner_error,
                            ..
                        } && *inner_error == e),
                        _ => false,
                    },
                    RegionLookup::Absent => r == RetryAction::Skip(SkipReason::RegionAbsent),
                    RegionLookup::Found { is_leader } => if !is_leader {
                        r == RetryAction::Skip(SkipReason::NotLeader)
                    } else if stale {
                        r == RetryAction::Skip(SkipReason::StaleCommand)
                    } else if has_failed_for > TRY_START_OBSERVE_MAX_RETRY_TIME {
                        match r {
                            RetryAction::Fatal(f) => f.start_key@ == region.start_key@
                                && f.end_key@ == region.end_key@ && f.err is Contextual
                                && root_cause(f.err) is Other,
                            _ => false,
                        }
                    } else {
                        &&& r == RetryAction::Restart {
                            handle: ObserveHandle { id: old(self)@.next_handle },
                            has_failed_for,
                        }
                        &&& handle.id != old(self)@.next_handle
                        &&& forall|k: u64| #[trigger]
                            t.contains_key(k) ==> t[k].handle.id != old(self)@.next_handle
                    },
                }
            }),
    {
        let is_leader = match lookup {
            RegionLookup::Found { is_leader } => is_leader,
            _ => false,
        };
        proof {
            assert(is_leader == (lookup == (RegionLookup::Found { is_leader: true })));
        }
        match lookup {
            RegionLookup::Failed(e) => {
                return RetryAction::Fatal(
                    FatalError {
                        start_key: region.start_key,
                        end_key: region.end_key,
                        err: e.context("retry meet error".to_owned()),
                    },
                );
            },
            RegionLookup::Absent => {
                return RetryAction::Skip(SkipReason::RegionAbsent);
            },
            RegionLookup::Found { .. } => {},
        }
        if !is_leader {
            return RetryAction::Skip(SkipReason::NotLeader);
        }
        let stale = match self.subs.get(region.id) {
            Some(rec) => rec.handle != handle,
            None => false,
        };
        if stale {
            return RetryAction::Skip(SkipReason::StaleCommand);
        }
        if has_failed_for > TRY_START_OBSERVE_MAX_RETRY_TIME {
            let cause = Error::Other("retry time exceeds".to_owned());
            return RetryAction::Fatal(
                FatalError {
                    start_key: region.start_key,
                    end_key: region.end_key,
                    err: cause.context("retry meet error".to_owned()),
                },
            );
        }
        let h = self.start_observe(&region);
        RetryAction::Restart { handle: h, has_failed_for }
    }

    /// The initial scan of a region finished under `handle`: the record, if
    /// it is of that attempt, becomes observing. Returns whether it did.
    pub fn on_scan_finished(&mut self, region_id: u64, handle: ObserveHandle) -> (r: bool)
        requires
            old(self).wf(),
        ensures
            final(self).wf(),
            final(self)@ == step(old(self)@, ObserveEvent::ScanFinished { region_id, handle }),
            r == (old(self)@.records.contains_key(region_id) && old(self)@.records[region_id].handle
                == handle),
    {
        self.subs.mark_observing(region_id, handle)
    }

    /// The ids of the watched regions, each once.
    pub fn current_regions(&self) -> (r: Vec<u64>)
        requires
            self.wf(),
        ensures
            r@.no_duplicates(),
            forall|id: u64| r@.contains(id) <==> self@.records.contains_key(id),
    {
        self.subs.current_regions()
    }

    /// The record of region `region_id`, if it is watched.
    pub fn record_of(&self, region_id: u64) -> (r: Option<&ObservationRecord>)
        requires
            self.wf(),
        ensures
            match r {
                Some(rec) => self@.records.contains_key(region_id) && self@.records[region_id]
                    == rec@,
                None => !self@.records.contains_key(region_id),
            },
    {
        self.subs.get(region_id)
    }

    /// Handles the operations of `inputs` one at a time, in arrival order,
    /// and returns how many it handled: all of them, unless it reached one
    /// it cannot take (no handle left to give out, or an answer naming a
    /// handle never given out). The state left is the steps of the handled
    /// operations applied in order, so equal states that handle the same
    /// operations with the same answers end equal.
    pub fn replay(&mut self, inputs: Vec<OperatorInput>) -> (n: usize)
        requires
            old(self).wf(),
        ensures
            final(self).wf(),
            n <= inputs@.len(),
            final(self)@ == run(old(self)@, inputs@.take(n as int).map_values(|i: OperatorInput| input_event(i))),
            n < inputs@.len() ==> !input_ready(final(self)@, inputs@[n as int]),
    {
        let ghost all = inputs@;
        let total = inputs.len();
        let mut rest = inputs;
        let mut n: usize = 0;
        proof {
            assert(all.take(0).map_values(|i: OperatorInput| input_event(i)) =~= Seq::<ObserveEvent>::empty());
            assert(all.skip(0) =~= all);
        }
        while rest.len() > 0
            invariant_except_break
                self.wf(),
                n <= all.len(),
                all.len() == total,
                rest@ == all.skip(n as int),
                self@ == run(old(self)@, all.take(n as int).map_values(|i: OperatorInput| input_event(i))),
            ensures
                self.wf(),
                n <= all.len(),
                self@ == run(old(self)@, all.take(n as int).map_values(|i: OperatorInput| input_event(i))),
                n < all.len() ==> !input_ready(self@, all[n as int]),
            decreases rest@.len(),
        {
            let ready = self.next_handle < u64::MAX && match &rest[0] {
                OperatorInput::CheckpointLookedUp { handle, .. } => handle.id < self.next_handle,
                OperatorInput::RefreshCheckpointLookedUp { handle, .. } => handle.id < self.next_handle,
                OperatorInput::Retry { handle, .. } => handle.id < self.next_handle,
                _ => true,
            };
            if !ready {
                break;
            }
            let input = rest.remove(0);
            let ghost before = self@;
            proof {
                assert(input == all[n as int]);
            }
            match input {
                OperatorInput::Start { region } => {
                    self.start_observe(&region);
                },
                OperatorInput::CheckpointLookedUp { region, handle, has_failed_for, lookup } => {
                    self.on_checkpoint_lookup(region, handle, has_failed_for, lookup);
                },
                OperatorInput::Stop { region } => {
                    self.stop(&region);
                },
                OperatorInput::Destroy { region } => {
                    self.destroy(&region);
                },
                OperatorInput::RefreshResolver { region } => {
                    self.refresh_resolver(&region);
                },
                OperatorInput::RefreshCheckpointLookedUp { region, handle, lookup } => {
                    self.on_refresh_checkpoint_lookup(region, handle, lookup);
                },
                OperatorInput::Retry { region, handle, has_failed_for, lookup } => {
                    self.retry_observe(region, handle, has_failed_for, lookup);
                },
                OperatorInput::ScanFinished { region_id, handle } => {
                    self.on_scan_finished(region_id, handle);
                },
            }
            proof {
                let evs = all.take(n + 1).map_values(|i: OperatorInput| input_event(i));
                assert(evs.drop_last() =~= all.take(n as int).map_values(|i: OperatorInput| input_event(i)));
                assert(evs.last() == input_event(all[n as int]));
                assert(self@ == step(before, input_event(all[n as int])));
                assert(rest@ =~= all.skip(n + 1));
            }
            assert(n < total);
            n = n + 1;
        }
        proof {
            if n < all.len() {
            } else {
                assert(all.take(n as int) =~= all);
            }
        }
        n
    }
}

} // verus!
