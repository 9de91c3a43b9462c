//! What follows for one `ObjectSync` on the deletion of its source object: all
//! tracked copies are deleted.
use crate::api;
use crate::api::DestinationStatus;
use crate::conditions;
use crate::errors;
use crate::errors::ControllerError;
use crate::object_sync_modifications;
use crate::object_sync_modifications::ObjectSyncModifications;
use crate::outside;
use crate::reconcile_source;
use crate::text;
use crate::text::Text;
use vstd::prelude::*;

verus! {

/// What is waited for.
pub enum SourceDeletedPhase {
    /// The deletion of the tracked copies.
    Delete(Vec<DestinationStatus>),
    /// The write of the status that reports on the deletion.
    Report {
        /// How many of the copies could not be deleted.
        remaining: usize,
    },
    /// Nothing: all is done.
    Finished {
        /// What came of it.
        result: Result<(), ControllerError>,
        /// How many of the copies are left.
        remaining: usize,
    },
}

/// The model of [`SourceDeletedPhase`].
pub enum SourceDeletedPhaseView {
    Delete(Seq<api::DestinationStatusView>),
    Report { remaining: nat },
    Finished { result: Result<(), errors::ControllerErrorView>, remaining: nat },
}

impl View for SourceDeletedPhase {
    type V = SourceDeletedPhaseView;

    open spec fn view(&self) -> SourceDeletedPhaseView {
        match self {
            SourceDeletedPhase::Delete(d) => SourceDeletedPhaseView::Delete(text::views(d@)),
            SourceDeletedPhase::Report { remaining } => SourceDeletedPhaseView::Report {
                remaining: *remaining as nat,
            },
            SourceDeletedPhase::Finished { result, remaining } => SourceDeletedPhaseView::Finished {
                result: text::view_res(*result),
                remaining: *remaining as nat,
            },
        }
    }
}

/// What was done.
pub enum SourceDeletedReply {
    /// The copies were deleted, but for the ones that are handed back.
    Deleted(Result<Vec<DestinationStatus>, ControllerError>),
    /// The status was written.
    StatusReplaced(Result<(), ControllerError>),
}

/// The model of [`SourceDeletedReply`].
pub enum SourceDeletedReplyView {
    Deleted(Result<Seq<api::DestinationStatusView>, errors::ControllerErrorView>),
    StatusReplaced(Result<(), errors::ControllerErrorView>),
}

impl View for SourceDeletedReply {
    type V = SourceDeletedReplyView;

    open spec fn view(&self) -> SourceDeletedReplyView {
        match self {
            SourceDeletedReply::Deleted(r) => SourceDeletedReplyView::Deleted(
                reconcile_source::deletion_view(*r),
            ),
            SourceDeletedReply::StatusReplaced(r) => SourceDeletedReplyView::StatusReplaced(
                text::view_res(*r),
            ),
        }
    }
}

/// What is to be done next.
pub enum SourceDeletedAction {
    /// Delete the copies.
    DeleteDestinations(Vec<DestinationStatus>),
    /// Write the status of the object, where it was modified.
    ReplaceStatus,
    /// Nothing more.
    Done {
        /// What came of it.
        result: Result<(), ControllerError>,
        /// How many of the copies are left.
        remaining: usize,
    },
}

/// The model of [`SourceDeletedAction`].
pub enum SourceDeletedActionView {
    DeleteDestinations(Seq<api::DestinationStatusView>),
    ReplaceStatus,
    Done { result: Result<(), errors::ControllerErrorView>, remaining: nat },
}

impl View for SourceDeletedAction {
    type V = SourceDeletedActionView;

    open spec fn view(&self) -> SourceDeletedActionView {
        match self {
            SourceDeletedAction::DeleteDestinations(d) => SourceDeletedActionView::DeleteDestinations(
                text::views(d@),
            ),
            SourceDeletedAction::ReplaceStatus => SourceDeletedActionView::ReplaceStatus,
            SourceDeletedAction::Done { result, remaining } => SourceDeletedActionView::Done {
                result: text::view_res(*result),
                remaining: *remaining as nat,
            },
        }
    }
}

/// The deletion of the copies of a deleted source under way.
pub struct SourceDeleted {
    phase: SourceDeletedPhase,
}

/// The model of [`SourceDeleted`].
#[verifier::ext_equal]
pub struct SourceDeletedView {
    /// What is waited for.
    pub phase: SourceDeletedPhaseView,
}

impl View for SourceDeleted {
    type V = SourceDeletedView;

    closed spec fn view(&self) -> SourceDeletedView {
        SourceDeletedView { phase: self.phase@ }
    }
}

impl SourceDeletedView {
    /// The deletion of all the copies that are tracked, not begun.
    pub open spec fn start(event: api::ObjectSyncView) -> SourceDeletedView {
        SourceDeletedView {
            phase: match event.status_destinations() {
                Some(d) => SourceDeletedPhaseView::Delete(d),
                None => SourceDeletedPhaseView::Finished { result: Ok(()), remaining: 0 },
            },
        }
    }

    /// What follows on `reply`, and what becomes of the object: the copies that
    /// could not be deleted stay tracked, and the status reports on the deletion
    /// at `time`. Where the deletion fails, all the copies count as left.
    pub open spec fn step(
        self,
        event: object_sync_modifications::ObjectSyncModificationsView,
        reply: SourceDeletedReplyView,
        time: Text,
    ) -> (SourceDeletedView, object_sync_modifications::ObjectSyncModificationsView) {
        match (self.phase, reply) {
            (SourceDeletedPhaseView::Delete(all), SourceDeletedReplyView::Deleted(r)) => match r {
                Ok(remaining) => (
                    SourceDeletedView {
                        phase: SourceDeletedPhaseView::Report { remaining: remaining.len() },
                    },
                    event.with_condition(
                        conditions::removed(remaining.len(), all.len()),
                        time,
                    ).with_destinations(remaining),
                ),
                Err(e) => (
                    SourceDeletedView {
                        phase: SourceDeletedPhaseView::Finished {
                            result: Err(e),
                            remaining: all.len(),
                        },
                    },
                    event,
                ),
            },
            (
                SourceDeletedPhaseView::Report { remaining },
                SourceDeletedReplyView::StatusReplaced(r),
            ) => (
                SourceDeletedView {
                    phase: SourceDeletedPhaseView::Finished { result: r, remaining },
                },
                event,
            ),
            _ => (self, event),
        }
    }

    /// What is to be done next.
    pub open spec fn action(self) -> SourceDeletedActionView {
        match self.phase {
            SourceDeletedPhaseView::Delete(d) => SourceDeletedActionView::DeleteDestinations(d),
            SourceDeletedPhaseView::Report { .. } => SourceDeletedActionView::ReplaceStatus,
            SourceDeletedPhaseView::Finished { result, remaining } => SourceDeletedActionView::Done {
                result,
                remaining,
            },
        }
    }
}

impl SourceDeleted {
    /// The deletion of all the copies that are tracked, not begun.
    pub fn new(event: &ObjectSyncModifications) -> (res: Self)
        ensures
            res@ == SourceDeletedView::start(event@.modified),
    {
        SourceDeleted {
            phase: match event.modified.status_destinations() {
                Some(d) => SourceDeletedPhase::Delete(reconcile_source::copy_list(d)),
                None => SourceDeletedPhase::Finished { result: Ok(()), remaining: 0 },
            },
        }
    }

    /// Takes over what was done, at the current time.
    pub fn step(&mut self, event: &mut ObjectSyncModifications, reply: SourceDeletedReply)
        ensures
            exists|time: Text|
                outside::is_utc_time(time) && (final(self)@, final(event)@) == #[trigger] old(
                    self,
                )@.step(old(event)@, reply@, time),
    {
        let time = outside::utc_now_rfc3339();
        self.step_at(event, reply, time);
    }

    /// Takes over what was done at `time`. An answer that is not waited for
    /// changes nothing.
    pub fn step_at(
        &mut self,
        event: &mut ObjectSyncModifications,
        reply: SourceDeletedReply,
        time: String,
    )
        ensures
            (final(self)@, final(event)@) == old(self)@.step(old(event)@, reply@, time@),
    {
        match (&self.phase, reply) {
            (SourceDeletedPhase::Delete(all), SourceDeletedReply::Deleted(r)) => match r {
                Ok(remnants) => {
                    let remaining: usize = remnants.len();
                    event.modified.update_condition_at(
                        conditions::removed_condition(remaining, all.len()),
                        time,
                    );
                    event.modified.update_destinations(remnants);
                    self.phase = SourceDeletedPhase::Report { remaining };
                },
                Err(e) => {
                    let remaining: usize = all.len();
                    self.phase = SourceDeletedPhase::Finished { result: Err(e), remaining };
                },
            },
            (SourceDeletedPhase::Report { remaining }, SourceDeletedReply::StatusReplaced(r)) => {
                self.phase = SourceDeletedPhase::Finished { result: r, remaining: *remaining };
            },
            _ => (),
        }
    }

    /// What is to be done next.
    pub fn action(&self) -> (res: SourceDeletedAction)
        ensures
            res@ == self@.action(),
    {
        match &self.phase {
            SourceDeletedPhase::Delete(d) => SourceDeletedAction::DeleteDestinations(
                reconcile_source::copy_list(d),
            ),
            SourceDeletedPhase::Report { .. } => SourceDeletedAction::ReplaceStatus,
            SourceDeletedPhase::Finished { result, remaining } => SourceDeletedAction::Done {
                result: match result {
                    Ok(_) => Ok(()),
                    Err(e) => Err(e.clone()),
                },
                remaining: *remaining,
            },
        }
    }
}

/// On the deletion of the source, the deletion of every tracked copy is asked
/// for, a copy stays tracked exactly where it could not be deleted, and it is
/// reported how many of them are left.
pub proof fn law_deleted_source_deletes_copies(
    event: object_sync_modifications::ObjectSyncModificationsView,
    remaining: Seq<api::DestinationStatusView>,
    written: Result<(), errors::ControllerErrorView>,
    time: Text,
)
    requires
        event.modified.status_destinations() is Some,
    ensures
        ({
            let s = SourceDeletedView::start(event.modified);
            let (after, object) = s.step(event, SourceDeletedReplyView::Deleted(Ok(remaining)), time);
            &&& s.action() == SourceDeletedActionView::DeleteDestinations(
                event.modified.status_destinations()->0,
            )
            &&& after.action() == SourceDeletedActionView::ReplaceStatus
            &&& object.modified.status_destinations() == Some(remaining)
            &&& object.modified.spec == event.modified.spec
            &&& object.modified.metadata == event.modified.metadata
            &&& after.step(object, SourceDeletedReplyView::StatusReplaced(written), time).0.action()
                == SourceDeletedActionView::Done { result: written, remaining: remaining.len() }
        }),
{
}

/// On the deletion of a source the copies that the status tracks are deleted, and
/// without any there is nothing to do and nothing left.
pub proof fn law_tracked_copies_are_deleted(event: api::ObjectSyncView)
    ensures
        match event.status {
            Some(s) => match s.destinations {
                Some(d) => SourceDeletedView::start(event).action()
                    == SourceDeletedActionView::DeleteDestinations(d),
                None => SourceDeletedView::start(event).action() == (SourceDeletedActionView::Done {
                    result: Ok(()),
                    remaining: 0,
                }),
            },
            None => SourceDeletedView::start(event).action() == (SourceDeletedActionView::Done {
                result: Ok(()),
                remaining: 0,
            }),
        },
{
}

/// After the deletion the status tracks the copies that remain, and no other, and
/// reports how many of how many they are. Their number is handed back once the
/// status is written. Where the deletion failed, all count as left, and nothing is
/// reported. A reply that nothing waits for changes nothing.
pub proof fn law_remaining_copies_are_reported(
    event: object_sync_modifications::ObjectSyncModificationsView,
    tracking: Seq<api::DestinationStatusView>,
    remaining: Seq<api::DestinationStatusView>,
    e: errors::ControllerErrorView,
    written: Result<(), errors::ControllerErrorView>,
    time: Text,
    later: Text,
)
    ensures
        ({
            let s = SourceDeletedView { phase: SourceDeletedPhaseView::Delete(tracking) };
            let (next, after) = s.step(event, SourceDeletedReplyView::Deleted(Ok(remaining)), time);
            let (failing, unchanged) = s.step(event, SourceDeletedReplyView::Deleted(Err(e)), time);
            let (end, last) = next.step(
                after,
                SourceDeletedReplyView::StatusReplaced(written),
                later,
            );
            &&& next.action() == SourceDeletedActionView::ReplaceStatus
            &&& after.original == event.original
            &&& after.modified.metadata == event.modified.metadata
            &&& after.modified.spec == event.modified.spec
            &&& after.modified.status matches Some(t) && t.destinations == Some(remaining)
                && t.conditions == Some(
                api::record_condition(
                    match event.modified.status {
                        Some(u) => u.conditions,
                        None => None,
                    },
                    conditions::removed(remaining.len(), tracking.len()),
                    time,
                ),
            )
            &&& end.action() == (SourceDeletedActionView::Done {
                result: written,
                remaining: remaining.len(),
            })
            &&& last == after
            &&& failing.action() == (SourceDeletedActionView::Done {
                result: Err(e),
                remaining: tracking.len(),
            })
            &&& unchanged == event
        }),
        ({
            let s = SourceDeletedView { phase: SourceDeletedPhaseView::Delete(tracking) };
            let end = SourceDeletedView {
                phase: SourceDeletedPhaseView::Finished {
                    result: written,
                    remaining: remaining.len(),
                },
            };
            &&& s.step(event, SourceDeletedReplyView::StatusReplaced(written), time) == (s, event)
            &&& end.step(event, SourceDeletedReplyView::StatusReplaced(written), time) == (
                end,
                event,
            )
            &&& end.step(event, SourceDeletedReplyView::Deleted(Ok(remaining)), time) == (
                end,
                event,
            )
        }),
{
}

/// The calls do what the laws on them say.
pub proof fn law_deletion_of_a_source(
    m: &ObjectSyncModifications,
    started: SourceDeleted,
    s: &mut SourceDeleted,
    event: &mut ObjectSyncModifications,
    reply: SourceDeletedReply,
    time: String,
    t: &SourceDeleted,
    action: SourceDeletedAction,
)
    requires
        call_ensures(SourceDeleted::new, (m,), started),
        call_ensures(SourceDeleted::step_at, (s, event, reply, time), ()),
        call_ensures(SourceDeleted::action, (t,), action),
    ensures
        started@ == SourceDeletedView::start(m.modified@),
        (final(s)@, final(event)@) == old(s)@.step(old(event)@, reply@, time@),
        action@ == t@.action(),
{
}

/// A step at the time of the call is the step at one time.
pub proof fn law_deletion_of_a_source_takes_the_time(
    s: &mut SourceDeleted,
    event: &mut ObjectSyncModifications,
    reply: SourceDeletedReply,
)
    requires
        call_ensures(SourceDeleted::step, (s, event, reply), ()),
    ensures
        exists|time: Text|
            outside::is_utc_time(time) && (final(s)@, final(event)@) == #[trigger] old(s)@.step(
                old(event)@,
                reply@,
                time,
            ),
{
}

} // verus!
