//! The synchronization of the copies of a source object for one `ObjectSync`:
//! stale copies are deleted, the expected ones are tracked in the status, and
//! then they are written.
use crate::api;
use crate::api::DestinationStatus;
use crate::conditions;
use crate::destination_order;
use crate::destinations;
use crate::errors;
use crate::errors::ControllerError;
use crate::meta;
use crate::meta::{DynamicObject, ObjectMeta};
use crate::object_sync_modifications;
use crate::object_sync_modifications::ObjectSyncModifications;
use crate::outside;
use crate::resource_controller;
use crate::resource_controller::ResourceControllerImpl;
use crate::text;
use crate::text::Text;
use crate::upsert_destinations;
use crate::upsert_destinations::UpsertOutcome;
use vstd::prelude::*;

verus! {

/// What the synchronization waits for.
pub enum ReconcilePhase {
    /// The deletion of the stale copies.
    DeleteStale { expected: Vec<DestinationStatus>, stale: Vec<DestinationStatus> },
    /// The write of the status that tracks the expected copies.
    Track { remnants: Vec<DestinationStatus>, removed: bool },
    /// The writing of the copies.
    Upsert {
        destinations: Vec<DestinationStatus>,
        remnants: Vec<DestinationStatus>,
        removed: bool,
    },
    /// The write of the status that reports on the copies.
    Report,
    /// Nothing: the synchronization has come to its end.
    Finished(Result<(), ControllerError>),
}

/// The model of [`ReconcilePhase`].
pub enum ReconcilePhaseView {
    DeleteStale {
        expected: Seq<api::DestinationStatusView>,
        stale: Seq<api::DestinationStatusView>,
    },
    Track { remnants: Seq<api::DestinationStatusView>, removed: bool },
    Upsert {
        destinations: Seq<api::DestinationStatusView>,
        remnants: Seq<api::DestinationStatusView>,
        removed: bool,
    },
    Report,
    Finished(Result<(), errors::ControllerErrorView>),
}

impl View for ReconcilePhase {
    type V = ReconcilePhaseView;

    open spec fn view(&self) -> ReconcilePhaseView {
        match self {
            ReconcilePhase::DeleteStale { expected, stale } => ReconcilePhaseView::DeleteStale {
                expected: text::views(expected@),
                stale: text::views(stale@),
            },
            ReconcilePhase::Track { remnants, removed } => ReconcilePhaseView::Track {
                remnants: text::views(remnants@),
                removed: *removed,
            },
            ReconcilePhase::Upsert { destinations, remnants, removed } => ReconcilePhaseView::Upsert {
                destinations: text::views(destinations@),
                remnants: text::views(remnants@),
                removed: *removed,
            },
            ReconcilePhase::Report => ReconcilePhaseView::Report,
            ReconcilePhase::Finished(r) => ReconcilePhaseView::Finished(text::view_res(*r)),
        }
    }
}

/// What was done.
pub enum ReconcileReply {
    /// The stale copies were deleted, but for the ones that are handed back.
    StaleDeleted(Result<Vec<DestinationStatus>, ControllerError>),
    /// The status was written.
    StatusReplaced(Result<(), ControllerError>),
    /// The copies were written.
    Upserted(UpsertOutcome),
}

/// The model of [`ReconcileReply`].
pub enum ReconcileReplyView {
    StaleDeleted(Result<Seq<api::DestinationStatusView>, errors::ControllerErrorView>),
    StatusReplaced(Result<(), errors::ControllerErrorView>),
    Upserted(upsert_destinations::UpsertOutcomeView),
}

/// The view of what a deletion hands back.
pub open spec fn deletion_view(r: Result<Vec<DestinationStatus>, ControllerError>) -> Result<
    Seq<api::DestinationStatusView>,
    errors::ControllerErrorView,
> {
    match r {
        Ok(d) => Ok(text::views(d@)),
        Err(e) => Err(e@),
    }
}

impl View for ReconcileReply {
    type V = ReconcileReplyView;

    open spec fn view(&self) -> ReconcileReplyView {
        match self {
            ReconcileReply::StaleDeleted(r) => ReconcileReplyView::StaleDeleted(deletion_view(*r)),
            ReconcileReply::StatusReplaced(r) => ReconcileReplyView::StatusReplaced(
                text::view_res(*r),
            ),
            ReconcileReply::Upserted(outcome) => ReconcileReplyView::Upserted(outcome@),
        }
    }
}

/// What is to be done next.
pub enum ReconcileAction {
    /// Delete the copies.
    DeleteDestinations(Vec<DestinationStatus>),
    /// Write the status of the object, where it was modified.
    ReplaceStatus,
    /// Write the copies.
    UpsertDestinations {
        source: DynamicObject,
        destinations: Vec<DestinationStatus>,
        remnants: Vec<DestinationStatus>,
    },
    /// Nothing more.
    Done(Result<(), ControllerError>),
}

/// The model of [`ReconcileAction`].
pub enum ReconcileActionView {
    DeleteDestinations(Seq<api::DestinationStatusView>),
    ReplaceStatus,
    UpsertDestinations {
        source: meta::DynamicObjectView,
        destinations: Seq<api::DestinationStatusView>,
        remnants: Seq<api::DestinationStatusView>,
    },
    Done(Result<(), errors::ControllerErrorView>),
}

impl View for ReconcileAction {
    type V = ReconcileActionView;

    open spec fn view(&self) -> ReconcileActionView {
        match self {
            ReconcileAction::DeleteDestinations(d) => ReconcileActionView::DeleteDestinations(
                text::views(d@),
            ),
            ReconcileAction::ReplaceStatus => ReconcileActionView::ReplaceStatus,
            ReconcileAction::UpsertDestinations {
                source,
                destinations,
                remnants,
            } => ReconcileActionView::UpsertDestinations {
                source: source@,
                destinations: text::views(destinations@),
                remnants: text::views(remnants@),
            },
            ReconcileAction::Done(r) => ReconcileActionView::Done(text::view_res(*r)),
        }
    }
}

/// The synchronization of the copies of one source object under way.
pub struct ReconcileSource {
    source: DynamicObject,
    phase: ReconcilePhase,
}

/// The model of [`ReconcileSource`].
#[verifier::ext_equal]
pub struct ReconcileSourceView {
    /// The source object.
    pub source: meta::DynamicObjectView,
    /// What the synchronization waits for.
    pub phase: ReconcilePhaseView,
}

impl View for ReconcileSource {
    type V = ReconcileSourceView;

    closed spec fn view(&self) -> ReconcileSourceView {
        ReconcileSourceView { source: self.source@, phase: self.phase@ }
    }
}

impl ReconcileSourceView {
    /// The synchronization of the copies of `source`, not begun: the tracked
    /// copies are split into the expected and the stale ones.
    pub open spec fn start(
        c: resource_controller::ResourceControllerImplView,
        event: api::ObjectSyncView,
        source: meta::DynamicObjectView,
        namespaces: Seq<meta::ObjectMetaView>,
    ) -> ReconcileSourceView {
        let known = match event.status_destinations() {
            Some(d) => d,
            None => Seq::empty(),
        };
        let wanted = destinations::unsynced(destinations::expected(event, namespaces), c.gvk);
        ReconcileSourceView {
            source,
            phase: ReconcilePhaseView::DeleteStale {
                expected: destinations::planned(wanted, known),
                stale: destinations::stale(known, wanted),
            },
        }
    }

    /// The synchronization waits for `phase`.
    pub open spec fn await_phase(self, phase: ReconcilePhaseView) -> ReconcileSourceView {
        ReconcileSourceView { phase, ..self }
    }

    /// The synchronization has come to its end.
    pub open spec fn finish(self, result: Result<(), errors::ControllerErrorView>) -> ReconcileSourceView {
        self.await_phase(ReconcilePhaseView::Finished(result))
    }

    /// What follows on `reply`, and what becomes of the object:
    /// - once the stale copies are deleted, the expected ones and those that
    ///   could not be deleted are tracked, in a fixed order;
    /// - the copies are written only after the status that tracks them was, so
    ///   that they are known to the garbage collection;
    /// - where copies are expected, or one was written or deleted, the status
    ///   reports at `time` how many are in sync.
    pub open spec fn step(
        self,
        event: object_sync_modifications::ObjectSyncModificationsView,
        reply: ReconcileReplyView,
        time: Text,
    ) -> (ReconcileSourceView, object_sync_modifications::ObjectSyncModificationsView) {
        match (self.phase, reply) {
            (
                ReconcilePhaseView::DeleteStale { expected, stale },
                ReconcileReplyView::StaleDeleted(r),
            ) => match r {
                Ok(remnants) => (
                    self.await_phase(
                        ReconcilePhaseView::Track {
                            remnants,
                            removed: remnants.len() < stale.len(),
                        },
                    ),
                    event.with_destinations(destination_order::sorted(expected + remnants)),
                ),
                Err(e) => (self.finish(Err(e)), event),
            },
            (
                ReconcilePhaseView::Track { remnants, removed },
                ReconcileReplyView::StatusReplaced(r),
            ) => match r {
                Ok(_) => match event.modified.status_destinations() {
                    Some(destinations) => (
                        self.await_phase(
                            ReconcilePhaseView::Upsert { destinations, remnants, removed },
                        ),
                        event,
                    ),
                    None => (self.finish(Ok(())), event),
                },
                Err(e) => (self.finish(Err(e)), event),
            },
            (
                ReconcilePhaseView::Upsert { removed, .. },
                ReconcileReplyView::Upserted(outcome),
            ) => {
                let tracking = event.with_destinations(outcome.destinations);
                if outcome.changed || removed || outcome.expected > 0 {
                    (
                        self.await_phase(ReconcilePhaseView::Report),
                        tracking.with_condition(
                            conditions::in_sync(outcome.observed, outcome.expected),
                            time,
                        ),
                    )
                } else {
                    (self.finish(Ok(())), tracking)
                }
            },
            (ReconcilePhaseView::Report, ReconcileReplyView::StatusReplaced(r)) => (
                self.finish(r),
                event,
            ),
            _ => (self, event),
        }
    }

    /// What is to be done next.
    pub open spec fn action(self) -> ReconcileActionView {
        match self.phase {
            ReconcilePhaseView::DeleteStale {
                stale,
                ..
            } => ReconcileActionView::DeleteDestinations(stale),
            ReconcilePhaseView::Track { .. } => ReconcileActionView::ReplaceStatus,
            ReconcilePhaseView::Upsert {
                destinations,
                remnants,
                ..
            } => ReconcileActionView::UpsertDestinations {
                source: self.source,
                destinations,
                remnants,
            },
            ReconcilePhaseView::Report => ReconcileActionView::ReplaceStatus,
            ReconcilePhaseView::Finished(r) => ReconcileActionView::Done(r),
        }
    }
}

/// A copy of the list.
pub(crate) fn copy_list(list: &Vec<DestinationStatus>) -> (res: Vec<DestinationStatus>)
    ensures
        text::views(res@) == text::views(list@),
{
    let res = list.clone();
    assert(text::views(res@) =~= text::views(list@));
    res
}

impl ReconcileSource {
    /// The synchronization of the copies of `source`, not begun.
    pub fn new(
        controller: &ResourceControllerImpl,
        event: &ObjectSyncModifications,
        source: DynamicObject,
        namespaces: &Vec<ObjectMeta>,
    ) -> (res: Self)
        ensures
            res@ == ReconcileSourceView::start(
                controller@,
                event@.modified,
                source@,
                text::views(namespaces@),
            ),
    {
        let plan = controller.plan(&event.modified, namespaces);
        ReconcileSource {
            source,
            phase: ReconcilePhase::DeleteStale { expected: plan.expected, stale: plan.stale },
        }
    }

    /// Takes over what was done, at the current time.
    pub fn step(&mut self, event: &mut ObjectSyncModifications, reply: ReconcileReply)
        ensures
            exists|time: Text|
                outside::is_utc_time(time) && (final(self)@, final(event)@) == #[trigger] old(
                    self,
                )@.step(old(event)@, reply@, time),
    {
        let time = outside::utc_now_rfc3339();
        self.step_at(event, reply, time);
    }

    /// Takes over what was done at `time`. An answer that is not waited for
    /// changes nothing.
    pub fn step_at(
        &mut self,
        event: &mut ObjectSyncModifications,
        reply: ReconcileReply,
        time: String,
    )
        ensures
            (final(self)@, final(event)@) == old(self)@.step(old(event)@, reply@, time@),
    {
        match (&self.phase, reply) {
            (
                ReconcilePhase::DeleteStale { expected, stale },
                ReconcileReply::StaleDeleted(r),
            ) => match r {
                Ok(remnants) => {
                    let removed: bool = remnants.len() < stale.len();
                    let mut tracking = copy_list(expected);
                    let mut copies = copy_list(&remnants);
                    let ghost before = text::views(tracking@);
                    let ghost more = text::views(copies@);
                    tracking.append(&mut copies);
                    assert(text::views(tracking@) =~= before + more);
                    event.modified.update_destinations(
                        destination_order::sort_destinations(tracking),
                    );
                    self.phase = ReconcilePhase::Track { remnants, removed };
                },
                Err(e) => {
                    self.phase = ReconcilePhase::Finished(Err(e));
                },
            },
            (
                ReconcilePhase::Track { remnants, removed },
                ReconcileReply::StatusReplaced(r),
            ) => match r {
                Ok(_) => match event.modified.status_destinations() {
                    Some(destinations) => {
                        self.phase = ReconcilePhase::Upsert {
                            destinations: copy_list(destinations),
                            remnants: copy_list(remnants),
                            removed: *removed,
                        };
                    },
                    None => {
                        self.phase = ReconcilePhase::Finished(Ok(()));
                    },
                },
                Err(e) => {
                    self.phase = ReconcilePhase::Finished(Err(e));
                },
            },
            (ReconcilePhase::Upsert { removed, .. }, ReconcileReply::Upserted(outcome)) => {
                let report: bool = outcome.changed || *removed || outcome.expected > 0;
                event.modified.update_destinations(outcome.destinations);
                if report {
                    event.modified.update_condition_at(
                        conditions::in_sync_condition(outcome.observed, outcome.expected),
                        time,
                    );
                    self.phase = ReconcilePhase::Report;
                } else {
                    self.phase = ReconcilePhase::Finished(Ok(()));
                }
            },
            (ReconcilePhase::Report, ReconcileReply::StatusReplaced(r)) => {
                self.phase = ReconcilePhase::Finished(r);
            },
            _ => (),
        }
    }

    /// What is to be done next.
    pub fn action(&self) -> (res: ReconcileAction)
        ensures
            res@ == self@.action(),
    {
        match &self.phase {
            ReconcilePhase::DeleteStale { stale, .. } => ReconcileAction::DeleteDestinations(
                copy_list(stale),
            ),
            ReconcilePhase::Track { .. } => ReconcileAction::ReplaceStatus,
            ReconcilePhase::Upsert {
                destinations,
                remnants,
                ..
            } => ReconcileAction::UpsertDestinations {
                source: self.source.clone(),
                destinations: copy_list(destinations),
                remnants: copy_list(remnants),
            },
            ReconcilePhase::Report => ReconcileAction::ReplaceStatus,
            ReconcilePhase::Finished(r) => ReconcileAction::Done(
                match r {
                    Ok(_) => Ok(()),
                    Err(e) => Err(e.clone()),
                },
            ),
        }
    }
}

/// Once the stale copies are deleted, the status is written next, and in it
/// every expected copy is tracked, as is every copy that could not be deleted,
/// and nothing else.
pub proof fn law_copies_are_tracked_first(
    s: ReconcileSourceView,
    event: object_sync_modifications::ObjectSyncModificationsView,
    remnants: Seq<api::DestinationStatusView>,
    time: Text,
)
    requires
        s.phase is DeleteStale,
    ensures
        ({
            let (after, object) = s.step(event, ReconcileReplyView::StaleDeleted(Ok(remnants)), time);
            &&& after.action() == ReconcileActionView::ReplaceStatus
            &&& object.modified.status_destinations() matches Some(listed)
            &&& listed.len() == s.phase->expected.len() + remnants.len()
            &&& destination_order::ascending(listed)
            &&& forall|d: api::DestinationStatusView|
                #![trigger listed.contains(d)]
                listed.contains(d) <==> s.phase->expected.contains(d) || remnants.contains(d)
        }),
{
    let expected = s.phase->expected;
    let all = expected + remnants;
    let listed = destination_order::sorted(all);
    destination_order::law_sorting_orders(all);
    assert forall|d: api::DestinationStatusView|
        #![trigger listed.contains(d)]
        listed.contains(d) <==> expected.contains(d) || remnants.contains(d) by {
        destination_order::law_sorting_keeps(all, d);
        text::lemma_concat_contains(expected, remnants, d);
    }
    if all.len() > 0 {
        destination_order::law_sorting_keeps(all, all[0]);
    }
}

/// Copies are written only after the status that tracks them was written without
/// an error, and only those that the stored status tracks. So no copy is ever
/// written that the garbage collection does not know.
pub proof fn law_only_tracked_copies_are_written(
    s: ReconcileSourceView,
    event: object_sync_modifications::ObjectSyncModificationsView,
    reply: ReconcileReplyView,
    time: Text,
)
    requires
        !(s.phase is Upsert),
        s.step(event, reply, time).0.phase is Upsert,
    ensures
        s.phase is Track,
        reply matches ReconcileReplyView::StatusReplaced(Ok(_)),
        s.step(event, reply, time).1 == event,
        event.modified.status_destinations() == Some(
            s.step(event, reply, time).0.phase->Upsert_destinations,
        ),
{
}

/// How many answers are ahead at most.
pub open spec fn reconcile_measure(s: ReconcileSourceView) -> int {
    match s.phase {
        ReconcilePhaseView::DeleteStale { .. } => 4,
        ReconcilePhaseView::Track { .. } => 3,
        ReconcilePhaseView::Upsert { .. } => 2,
        ReconcilePhaseView::Report => 1,
        ReconcilePhaseView::Finished(_) => 0,
    }
}

/// Every answer that changes anything brings the end nearer, and an error ends
/// the synchronization with that error.
pub proof fn law_reconcile_makes_progress(
    s: ReconcileSourceView,
    event: object_sync_modifications::ObjectSyncModificationsView,
    reply: ReconcileReplyView,
    time: Text,
)
    ensures
        ({
            let after = s.step(event, reply, time).0;
            &&& after == s || reconcile_measure(after) < reconcile_measure(s)
            &&& after == s ==> s.step(event, reply, time).1 == event
            &&& after != s ==> (reply matches ReconcileReplyView::StaleDeleted(Err(e))
                ==> after.action() == ReconcileActionView::Done(Err(e)))
            &&& after != s ==> (reply matches ReconcileReplyView::StatusReplaced(Err(e))
                ==> after.action() == ReconcileActionView::Done(Err(e)))
        }),
{
}

/// The synchronization never touches what the user asked for: only the status of
/// the object changes.
pub proof fn law_reconcile_changes_status_only(
    s: ReconcileSourceView,
    event: object_sync_modifications::ObjectSyncModificationsView,
    reply: ReconcileReplyView,
    time: Text,
)
    ensures
        s.step(event, reply, time).1.original == event.original,
        s.step(event, reply, time).1.modified.spec == event.modified.spec,
        s.step(event, reply, time).1.modified.metadata == event.modified.metadata,
{
}

/// Where the status reports after a synchronization that all is in sync, then
/// every copy that is expected was synchronized from the source as it is, as long
/// as the server stored the status that it was sent.
pub proof fn law_in_sync_covers_every_expected_copy(
    c: resource_controller::ResourceControllerImplView,
    event: object_sync_modifications::ObjectSyncModificationsView,
    source: meta::DynamicObjectView,
    namespaces: Seq<meta::ObjectMetaView>,
    remnants: Seq<api::DestinationStatusView>,
    time: Text,
    replies: Seq<upsert_destinations::UpsertReplyView>,
    outcome: upsert_destinations::UpsertOutcomeView,
    e: destinations::ExpectedDestinationView,
)
    requires
        ({
            let s = ReconcileSourceView::start(c, event.modified, source, namespaces);
            let stored = s.step(event, ReconcileReplyView::StaleDeleted(Ok(remnants)), time).1;
            upsert_destinations::UpsertDestinationsView::start(
                source,
                stored.modified.status_destinations()->0,
                remnants,
            ).run(replies).action() == upsert_destinations::UpsertActionView::Done(outcome)
        }),
        outcome.observed == outcome.expected,
        destinations::expected(event.modified, namespaces).contains(e),
    ensures
        exists|d: api::DestinationStatusView| #[trigger]
            outcome.destinations.contains(d) && d.same_destination(e.unsynced(c.gvk))
                && upsert_destinations::settled(d, api::ObjectRevisionView::of(source.metadata)),
{
    let s = ReconcileSourceView::start(c, event.modified, source, namespaces);
    let stored = s.step(event, ReconcileReplyView::StaleDeleted(Ok(remnants)), time).1;
    let listed = stored.modified.status_destinations()->0;
    let all = destinations::expected(event.modified, namespaces);
    let wanted = destinations::unsynced(all, c.gvk);
    let planned = s.phase->expected;
    let k = choose|k: int| 0 <= k < all.len() && all[k] == e;
    assert(planned[k].same_destination(wanted[k]));
    law_copies_are_tracked_first(s, event, remnants, time);
    assert(planned.contains(planned[k]));
    assert(listed.contains(planned[k]));
    let i = choose|i: int| 0 <= i < listed.len() && listed[i] == planned[k];
    upsert_destinations::law_upsert_keeps_destinations(source, listed, remnants, replies, i);
    upsert_destinations::law_in_sync_means_in_sync(source, listed, remnants, replies, outcome, i);
    assert(outcome.destinations.contains(outcome.destinations[i]));
}

/// Whether `d` is the copy `w`, but for the revisions that are known of it.
pub open spec fn is_copy(d: api::DestinationStatusView, w: api::DestinationStatusView) -> bool {
    d == w.with_versions_of(d)
}

/// Whether the copy `w` is tracked.
pub open spec fn is_tracked(
    known: Seq<api::DestinationStatusView>,
    w: api::DestinationStatusView,
) -> bool {
    exists|j: int| 0 <= j < known.len() && is_copy(#[trigger] known[j], w)
}

/// Whether `d` is one of the wanted copies.
pub open spec fn is_wanted(
    wanted: Seq<api::DestinationStatusView>,
    d: api::DestinationStatusView,
) -> bool {
    exists|i: int| 0 <= i < wanted.len() && is_copy(d, #[trigger] wanted[i])
}

/// Whether the status tracks exactly the wanted copies, in order of their places.
pub open spec fn tracks_exactly(
    known: Seq<api::DestinationStatusView>,
    wanted: Seq<api::DestinationStatusView>,
) -> bool {
    &&& destination_order::ascending(known)
    &&& destination_order::distinct_places(known)
    &&& forall|i: int| 0 <= i < wanted.len() ==> #[trigger] is_tracked(known, wanted[i])
    &&& forall|j: int| 0 <= j < known.len() ==> #[trigger] is_wanted(wanted, known[j])
}

/// Two entries at the same place are the same entry.
proof fn lemma_one_place(known: Seq<api::DestinationStatusView>, k: int, j: int)
    requires
        destination_order::distinct_places(known),
        0 <= k < known.len(),
        0 <= j < known.len(),
        known[k].same_place(known[j]),
    ensures
        k == j,
{
    if k < j {
        assert(!known[k].same_place(known[j]));
    } else if j < k {
        assert(!known[j].same_place(known[k]));
    }
}

/// A status that tracks exactly the wanted copies stays as it is in the next
/// synchronization: nothing is stale, and the same is tracked in the same order, so
/// that no write is necessary.
pub proof fn law_tracking_is_stable(
    known: Seq<api::DestinationStatusView>,
    wanted: Seq<api::DestinationStatusView>,
)
    requires
        destination_order::distinct_places(wanted),
        tracks_exactly(known, wanted),
    ensures
        destinations::stale(known, wanted).len() == 0,
        destination_order::sorted(destinations::planned(wanted, known)) == known,
{
    let planned = destinations::planned(wanted, known);
    assert forall|i: int| 0 <= i < planned.len() implies known.contains(#[trigger] planned[i])
        && planned[i].same_place(wanted[i]) by {
        lemma_planned_again(known, wanted, i);
    }
    assert forall|d: api::DestinationStatusView| planned.contains(d) <==> known.contains(d) by {
        if known.contains(d) {
            let j = choose|j: int| 0 <= j < known.len() && known[j] == d;
            assert(is_wanted(wanted, known[j]));
            let i = choose|i: int| 0 <= i < wanted.len() && is_copy(d, #[trigger] wanted[i]);
            let k = choose|k: int| 0 <= k < known.len() && known[k] == planned[i];
            lemma_one_place(known, k, j);
            assert(planned[i] == d);
        }
    }
    assert forall|i: int, j: int| 0 <= i < j < planned.len() implies !(
    #[trigger] planned[i]).same_place(#[trigger] planned[j]) by {
        assert(!wanted[i].same_place(wanted[j]));
    }
    destination_order::law_sorting_is_deterministic(planned, known);
    destination_order::law_sorting_is_idempotent(known);
    let left = destinations::stale(known, wanted);
    if left.len() > 0 {
        let d = left[0];
        assert(left.contains(d));
        destinations::law_stale_is_not_expected(known, wanted, d);
        let j = choose|j: int| 0 <= j < known.len() && known[j] == d;
        assert(is_wanted(wanted, known[j]));
        let i = choose|i: int| 0 <= i < wanted.len() && is_copy(d, #[trigger] wanted[i]);
        assert(d.same_destination(wanted[i]));
    }
}

proof fn lemma_planned_again(
    known: Seq<api::DestinationStatusView>,
    wanted: Seq<api::DestinationStatusView>,
    i: int,
)
    requires
        destination_order::distinct_places(wanted),
        tracks_exactly(known, wanted),
        0 <= i < wanted.len(),
    ensures
        known.contains(destinations::planned(wanted, known)[i]),
        destinations::planned(wanted, known)[i].same_place(wanted[i]),
{
    let w = wanted[i];
    assert forall|j: int| 0 <= j < i implies !(#[trigger] wanted[j]).same_destination(w) by {
        assert(!wanted[j].same_place(wanted[i]));
    }
    destinations::law_plan_keeps_what_is_known(wanted, known, i);
    destinations::lemma_first_same(known, w);
    assert(is_tracked(known, wanted[i]));
    let j = choose|j: int| 0 <= j < known.len() && is_copy(#[trigger] known[j], w);
    assert(known[j].same_destination(w));
    if let Some(s) = destinations::first_same(known, w) {
        let k = choose|k: int| 0 <= k < known.len() && known[k] == s;
        lemma_one_place(known, k, j);
        assert(known.contains(known[j]));
    }
}

/// A state that is tracked and reported already changes nothing, so that no status
/// is written for it.
pub proof fn law_reported_state_is_not_reported_again(
    s: ReconcileSourceView,
    event: object_sync_modifications::ObjectSyncModificationsView,
    outcome: upsert_destinations::UpsertOutcomeView,
    time: Text,
)
    requires
        s.phase is Upsert,
        event.modified.status_destinations() == Some(outcome.destinations),
        event.modified.status is Some,
        api::condition_of_type(
            api::known_conditions(event.modified.status_or_unset().conditions),
            conditions::IN_SYNC@,
        ) matches Some(c) && api::says_the_same(
            c,
            conditions::in_sync(outcome.observed, outcome.expected),
        ),
    ensures
        s.step(event, ReconcileReplyView::Upserted(outcome), time).1 == event,
{
    let status = event.modified.status_or_unset();
    api::law_unchanged_condition_keeps_its_time(
        status,
        conditions::in_sync(outcome.observed, outcome.expected),
        time,
    );
    assert(status.with_destinations(outcome.destinations) == status);
    assert(event.with_destinations(outcome.destinations) == event);
}

/// The synchronization begins with the copies that are tracked and no longer
/// expected. Those that are expected are planned, each with the name, namespace and
/// strategy that is expected, of the kind of the controller.
pub proof fn law_synchronization_begins_with_a_plan(
    c: resource_controller::ResourceControllerImplView,
    event: api::ObjectSyncView,
    source: meta::DynamicObjectView,
    namespaces: Seq<meta::ObjectMetaView>,
    d: api::DestinationStatusView,
    i: int,
)
    ensures
        ({
            let s = ReconcileSourceView::start(c, event, source, namespaces);
            let wanted = destinations::expected(event, namespaces);
            &&& s.source == source
            &&& s.phase matches ReconcilePhaseView::DeleteStale { expected, stale } && {
                &&& s.action() == ReconcileActionView::DeleteDestinations(stale)
                &&& expected.len() == wanted.len()
                &&& 0 <= i < wanted.len() ==> {
                    &&& expected[i].name == wanted[i].name
                    &&& expected[i].namespace == wanted[i].namespace
                    &&& expected[i].strategy == wanted[i].strategy
                    &&& expected[i].group == c.gvk.group
                    &&& expected[i].version == c.gvk.version
                    &&& expected[i].kind == c.gvk.kind
                    &&& event.status is None || event.status->0.destinations is None
                        ==> expected[i].synced_version is None && expected[i].source_version is None
                    &&& event.status matches Some(t) ==> (t.destinations matches Some(known)
                        ==> expected == destinations::planned(
                        destinations::unsynced(wanted, c.gvk),
                        known,
                    ))
                }
                &&& stale.contains(d) <==> (event.status matches Some(t) && (
                t.destinations matches Some(known) && known.contains(d) && forall|j: int|
                    0 <= j < wanted.len() ==> !destinations::is_of_copy(
                        d,
                        #[trigger] wanted[j],
                        c.gvk,
                    )))
            }
        }),
{
    let wanted = destinations::expected(event, namespaces);
    let known = match event.status_destinations() {
        Some(d) => d,
        None => Seq::empty(),
    };
    if 0 <= i < wanted.len() {
        destinations::law_plan_takes_revisions_over(wanted, c.gvk, known, i, 0);
    }
    destinations::law_stale_copies_are_not_expected(known, wanted, c.gvk, d);
}

/// Once the stale copies are deleted, the status tracks the expected ones and those
/// that remain, and no other, in the order of namespaces and names. Nothing else of
/// the object changes. An error ends the synchronization, with nothing changed.
pub proof fn law_expected_and_remaining_are_tracked(
    source: meta::DynamicObjectView,
    expected: Seq<api::DestinationStatusView>,
    stale: Seq<api::DestinationStatusView>,
    event: object_sync_modifications::ObjectSyncModificationsView,
    remnants: Seq<api::DestinationStatusView>,
    e: errors::ControllerErrorView,
    time: Text,
)
    ensures
        ({
            let s = ReconcileSourceView {
                source,
                phase: ReconcilePhaseView::DeleteStale { expected, stale },
            };
            let (next, after) = s.step(event, ReconcileReplyView::StaleDeleted(Ok(remnants)), time);
            let (failing, unchanged) = s.step(
                event,
                ReconcileReplyView::StaleDeleted(Err(e)),
                time,
            );
            &&& next.source == source
            &&& next.phase == (ReconcilePhaseView::Track {
                remnants,
                removed: remnants.len() < stale.len(),
            })
            &&& next.action() == ReconcileActionView::ReplaceStatus
            &&& after.original == event.original
            &&& after.modified.metadata == event.modified.metadata
            &&& after.modified.spec == event.modified.spec
            &&& after.modified.status matches Some(t) && t.destinations == Some(
                destination_order::sorted(expected + remnants),
            ) && t.conditions == match event.modified.status {
                Some(u) => u.conditions,
                None => None,
            }
            &&& failing.action() == ReconcileActionView::Done(Err(e))
            &&& unchanged == event
        }),
{
}

/// The copies that are written are those that the stored status tracks, of this
/// source, but for the ones that could not be deleted. They are written only after
/// the status was, and not at all where that failed.
pub proof fn law_copies_are_written_after_the_status(
    source: meta::DynamicObjectView,
    remnants: Seq<api::DestinationStatusView>,
    removed: bool,
    event: object_sync_modifications::ObjectSyncModificationsView,
    e: errors::ControllerErrorView,
    time: Text,
)
    ensures
        ({
            let s = ReconcileSourceView {
                source,
                phase: ReconcilePhaseView::Track { remnants, removed },
            };
            let (next, after) = s.step(event, ReconcileReplyView::StatusReplaced(Ok(())), time);
            let (failing, unchanged) = s.step(
                event,
                ReconcileReplyView::StatusReplaced(Err(e)),
                time,
            );
            &&& after == event
            &&& unchanged == event
            &&& failing.action() == ReconcileActionView::Done(Err(e))
            &&& match event.modified.status {
                Some(t) => match t.destinations {
                    Some(destinations) => next.action() == (
                    ReconcileActionView::UpsertDestinations { source, destinations, remnants })
                        && next.phase == (ReconcilePhaseView::Upsert {
                        destinations,
                        remnants,
                        removed,
                    }),
                    None => next.action() == ReconcileActionView::Done(Ok(())),
                },
                None => next.action() == ReconcileActionView::Done(Ok(())),
            }
        }),
{
}

/// After the copies were written, the status tracks them as they were handed back,
/// and reports how many of how many are in sync, where there are any, or one was
/// written, or one was deleted. The write of the status is the end.
pub proof fn law_written_copies_are_reported(
    s: ReconcileSourceView,
    event: object_sync_modifications::ObjectSyncModificationsView,
    outcome: upsert_destinations::UpsertOutcomeView,
    written: Result<(), errors::ControllerErrorView>,
    time: Text,
    later: Text,
)
    requires
        s.phase is Upsert,
    ensures
        ({
            let (next, after) = s.step(event, ReconcileReplyView::Upserted(outcome), time);
            let (end, last) = next.step(after, ReconcileReplyView::StatusReplaced(written), later);
            let before = match event.modified.status {
                Some(u) => u.conditions,
                None => None,
            };
            &&& after.original == event.original
            &&& after.modified.metadata == event.modified.metadata
            &&& after.modified.spec == event.modified.spec
            &&& after.modified.status matches Some(t) && t.destinations == Some(
                outcome.destinations,
            ) && if outcome.changed || s.phase->Upsert_removed || outcome.expected > 0 {
                &&& next.action() == ReconcileActionView::ReplaceStatus
                &&& t.conditions == Some(
                    api::record_condition(
                        before,
                        conditions::in_sync(outcome.observed, outcome.expected),
                        time,
                    ),
                )
                &&& end.action() == ReconcileActionView::Done(written)
                &&& last == after
            } else {
                &&& next.action() == ReconcileActionView::Done(Ok(()))
                &&& t.conditions == before
            }
        }),
{
}

/// A reply that nothing waits for changes nothing.
pub proof fn law_synchronization_waits_for_its_reply(
    s: ReconcileSourceView,
    event: object_sync_modifications::ObjectSyncModificationsView,
    reply: ReconcileReplyView,
    time: Text,
)
    ensures
        match s.phase {
            ReconcilePhaseView::DeleteStale { .. } => reply is StaleDeleted,
            ReconcilePhaseView::Track { .. } => reply is StatusReplaced,
            ReconcilePhaseView::Upsert { .. } => reply is Upserted,
            ReconcilePhaseView::Report => reply is StatusReplaced,
            ReconcilePhaseView::Finished(_) => false,
        } || s.step(event, reply, time) == (s, event),
{
}

/// The calls do what the laws on them say.
pub proof fn law_synchronization_of_a_source(
    c: &ResourceControllerImpl,
    m: &ObjectSyncModifications,
    source: DynamicObject,
    namespaces: &Vec<ObjectMeta>,
    started: ReconcileSource,
    s: &mut ReconcileSource,
    event: &mut ObjectSyncModifications,
    reply: ReconcileReply,
    time: String,
    t: &ReconcileSource,
    action: ReconcileAction,
)
    requires
        call_ensures(ReconcileSource::new, (c, m, source, namespaces), started),
        call_ensures(ReconcileSource::step_at, (s, event, reply, time), ()),
        call_ensures(ReconcileSource::action, (t,), action),
    ensures
        started@ == ReconcileSourceView::start(
            c@,
            m.modified@,
            source@,
            text::views(namespaces@),
        ),
        (final(s)@, final(event)@) == old(s)@.step(old(event)@, reply@, time@),
        action@ == t@.action(),
{
}

/// A step at the time of the call is the step at one time.
pub proof fn law_synchronization_takes_the_time(
    s: &mut ReconcileSource,
    event: &mut ObjectSyncModifications,
    reply: ReconcileReply,
)
    requires
        call_ensures(ReconcileSource::step, (s, event, reply), ()),
    ensures
        exists|time: Text|
            outside::is_utc_time(time) && (final(s)@, final(event)@) == #[trigger] old(s)@.step(
                old(event)@,
                reply@,
                time,
            ),
{
}

} // verus!
