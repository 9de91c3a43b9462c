//! The reconciliation of one `ObjectSync`: it is registered, or deleted where that
//! was asked for.
use crate::api;
use crate::conditions;
use crate::configuration;
use crate::configuration::Configuration;
use crate::errors;
use crate::errors::ControllerError;
use crate::meta;
use crate::object_sync_modifications;
use crate::object_sync_modifications::ObjectSyncModifications;
use crate::outside;
use crate::schedule::Schedule;
use crate::text;
use crate::text::Text;
use vstd::prelude::*;

verus! {

/// The seconds after which an `ObjectSync` is looked at again.
pub const RECHECK_SECONDS: u64 = 3600;

/// What is waited for.
pub enum SyncPhase {
    /// The deletion of the object.
    Delete,
    /// The registration of the object.
    Check,
    /// The write of the status that reports the error of the registration.
    Report(ControllerError),
    /// Nothing: all is done.
    Finished(Result<Schedule, ControllerError>),
}

/// The model of [`SyncPhase`].
pub enum SyncPhaseView {
    Delete,
    Check,
    Report(errors::ControllerErrorView),
    Finished(Result<Schedule, errors::ControllerErrorView>),
}

/// The view of the outcome of a reconciliation.
pub open spec fn outcome_view(r: Result<Schedule, ControllerError>) -> Result<
    Schedule,
    errors::ControllerErrorView,
> {
    match r {
        Ok(s) => Ok(s),
        Err(e) => Err(e@),
    }
}

impl View for SyncPhase {
    type V = SyncPhaseView;

    open spec fn view(&self) -> SyncPhaseView {
        match self {
            SyncPhase::Delete => SyncPhaseView::Delete,
            SyncPhase::Check => SyncPhaseView::Check,
            SyncPhase::Report(e) => SyncPhaseView::Report(e@),
            SyncPhase::Finished(r) => SyncPhaseView::Finished(outcome_view(*r)),
        }
    }
}

/// What was done.
pub enum SyncReply {
    /// The object was deleted.
    Deleted(Result<(), ControllerError>),
    /// The object was registered.
    Checked(Result<(), ControllerError>),
    /// The status was written.
    StatusReplaced(Result<(), ControllerError>),
}

/// The model of [`SyncReply`].
pub enum SyncReplyView {
    Deleted(Result<(), errors::ControllerErrorView>),
    Checked(Result<(), errors::ControllerErrorView>),
    StatusReplaced(Result<(), errors::ControllerErrorView>),
}

impl View for SyncReply {
    type V = SyncReplyView;

    open spec fn view(&self) -> SyncReplyView {
        match self {
            SyncReply::Deleted(r) => SyncReplyView::Deleted(text::view_res(*r)),
            SyncReply::Checked(r) => SyncReplyView::Checked(text::view_res(*r)),
            SyncReply::StatusReplaced(r) => SyncReplyView::StatusReplaced(text::view_res(*r)),
        }
    }
}

/// What is to be done next.
pub enum SyncAction {
    /// Delete the object.
    Delete,
    /// Register the object.
    Check,
    /// Write the status of the object, where it was modified.
    ReplaceStatus,
    /// Nothing more.
    Done(Result<Schedule, ControllerError>),
}

/// The model of [`SyncAction`].
pub enum SyncActionView {
    Delete,
    Check,
    ReplaceStatus,
    Done(Result<Schedule, errors::ControllerErrorView>),
}

impl View for SyncAction {
    type V = SyncActionView;

    open spec fn view(&self) -> SyncActionView {
        match self {
            SyncAction::Delete => SyncActionView::Delete,
            SyncAction::Check => SyncActionView::Check,
            SyncAction::ReplaceStatus => SyncActionView::ReplaceStatus,
            SyncAction::Done(r) => SyncActionView::Done(outcome_view(*r)),
        }
    }
}

/// The reconciliation of one `ObjectSync` under way.
pub struct ReconcileObjectSync {
    phase: SyncPhase,
}

/// The model of [`ReconcileObjectSync`].
#[verifier::ext_equal]
pub struct ReconcileObjectSyncView {
    /// What is waited for.
    pub phase: SyncPhaseView,
}

impl View for ReconcileObjectSync {
    type V = ReconcileObjectSyncView;

    closed spec fn view(&self) -> ReconcileObjectSyncView {
        ReconcileObjectSyncView { phase: self.phase@ }
    }
}

impl ReconcileObjectSyncView {
    /// What is waited for.
    pub open spec fn at(phase: SyncPhaseView) -> ReconcileObjectSyncView {
        ReconcileObjectSyncView { phase }
    }

    /// All is done without an error.
    pub open spec fn success() -> ReconcileObjectSyncView {
        ReconcileObjectSyncView::at(
            SyncPhaseView::Finished(Ok(Schedule::Requeue(RECHECK_SECONDS))),
        )
    }

    /// The reconciliation, not begun: an object of a namespace that is not
    /// watched is ignored.
    pub open spec fn start(
        c: configuration::ConfigurationView,
        event: object_sync_modifications::ObjectSyncModificationsView,
    ) -> ReconcileObjectSyncView {
        if !c.watches(text::or_empty(event.modified.metadata.namespace)) {
            ReconcileObjectSyncView::success()
        } else if event.modified.metadata.deletion_timestamp is Some {
            ReconcileObjectSyncView::at(SyncPhaseView::Delete)
        } else {
            ReconcileObjectSyncView::at(SyncPhaseView::Check)
        }
    }

    /// What follows on `reply` at `time`, and what becomes of the object: an
    /// error of the registration is reported in the status.
    pub open spec fn step(
        self,
        event: object_sync_modifications::ObjectSyncModificationsView,
        reply: SyncReplyView,
        time: Text,
    ) -> (ReconcileObjectSyncView, object_sync_modifications::ObjectSyncModificationsView) {
        match (self.phase, reply) {
            (SyncPhaseView::Delete, SyncReplyView::Deleted(r)) => (
                match r {
                    Ok(_) => ReconcileObjectSyncView::success(),
                    Err(e) => ReconcileObjectSyncView::at(SyncPhaseView::Finished(Err(e))),
                },
                event,
            ),
            (SyncPhaseView::Check, SyncReplyView::Checked(r)) => match r {
                Ok(_) => (ReconcileObjectSyncView::success(), event),
                Err(e) => (
                    ReconcileObjectSyncView::at(SyncPhaseView::Report(e)),
                    event.with_condition(conditions::failed(e), time),
                ),
            },
            (SyncPhaseView::Report(e), SyncReplyView::StatusReplaced(r)) => (
                ReconcileObjectSyncView::at(
                    SyncPhaseView::Finished(
                        match r {
                            Ok(_) => Err(e),
                            Err(f) => Err(f),
                        },
                    ),
                ),
                event,
            ),
            _ => (self, event),
        }
    }

    /// What is to be done next.
    pub open spec fn action(self) -> SyncActionView {
        match self.phase {
            SyncPhaseView::Delete => SyncActionView::Delete,
            SyncPhaseView::Check => SyncActionView::Check,
            SyncPhaseView::Report(_) => SyncActionView::ReplaceStatus,
            SyncPhaseView::Finished(r) => SyncActionView::Done(r),
        }
    }
}

impl ReconcileObjectSync {
    /// The reconciliation of `event`, not begun.
    pub fn new(configuration: &Configuration, event: &ObjectSyncModifications) -> (res: Self)
        ensures
            res@ == ReconcileObjectSyncView::start(configuration@, event@),
    {
        let namespace = event.modified.metadata.namespace_or_empty();
        if !configuration.watches(namespace.as_str()) {
            ReconcileObjectSync { phase: SyncPhase::Finished(Ok(Schedule::Requeue(RECHECK_SECONDS))) }
        } else if event.is_deleted() {
            ReconcileObjectSync { phase: SyncPhase::Delete }
        } else {
            ReconcileObjectSync { phase: SyncPhase::Check }
        }
    }

    /// Takes over what was done, at the current time.
    pub fn step(&mut self, event: &mut ObjectSyncModifications, reply: SyncReply)
        ensures
            exists|time: Text|
                outside::is_utc_time(time) && (final(self)@, final(event)@) == #[trigger] old(
                    self,
                )@.step(old(event)@, reply@, time),
    {
        let time = outside::utc_now_rfc3339();
        self.step_at(event, reply, time);
    }

    /// Takes over what was done at `time`. An answer that is not waited for
    /// changes nothing.
    pub fn step_at(&mut self, event: &mut ObjectSyncModifications, reply: SyncReply, time: String)
        ensures
            (final(self)@, final(event)@) == old(self)@.step(old(event)@, reply@, time@),
    {
        match (&self.phase, reply) {
            (SyncPhase::Delete, SyncReply::Deleted(r)) => {
                self.phase = SyncPhase::Finished(
                    match r {
                        Ok(_) => Ok(Schedule::Requeue(RECHECK_SECONDS)),
                        Err(e) => Err(e),
                    },
                );
            },
            (SyncPhase::Check, SyncReply::Checked(r)) => match r {
                Ok(_) => {
                    self.phase = SyncPhase::Finished(Ok(Schedule::Requeue(RECHECK_SECONDS)));
                },
                Err(e) => {
                    event.modified.update_condition_at(conditions::failed_condition(&e), time);
                    self.phase = SyncPhase::Report(e);
                },
            },
            (SyncPhase::Report(e), SyncReply::StatusReplaced(r)) => {
                self.phase = SyncPhase::Finished(
                    Err(
                        match r {
                            Ok(_) => e.clone(),
                            Err(f) => f,
                        },
                    ),
                );
            },
            _ => (),
        }
    }

    /// What is to be done next.
    pub fn action(&self) -> (res: SyncAction)
        ensures
            res@ == self@.action(),
    {
        match &self.phase {
            SyncPhase::Delete => SyncAction::Delete,
            SyncPhase::Check => SyncAction::Check,
            SyncPhase::Report(_) => SyncAction::ReplaceStatus,
            SyncPhase::Finished(r) => SyncAction::Done(
                match r {
                    Ok(s) => Ok(*s),
                    Err(e) => Err(e.clone()),
                },
            ),
        }
    }
}

/// An `ObjectSync` of a namespace that is not watched is left alone, whatever it
/// asks for.
pub proof fn law_unwatched_namespace_is_ignored(
    c: configuration::ConfigurationView,
    event: object_sync_modifications::ObjectSyncModificationsView,
)
    requires
        !c.watches(text::or_empty(event.modified.metadata.namespace)),
    ensures
        ReconcileObjectSyncView::start(c, event).action() == SyncActionView::Done(
            Ok(Schedule::Requeue(RECHECK_SECONDS)),
        ),
{
}

/// A registration that fails is reported in the status as not ready, with the
/// text of the error, and ends the reconciliation with that error once the status
/// is written.
pub proof fn law_failed_registration_is_reported(
    event: object_sync_modifications::ObjectSyncModificationsView,
    e: errors::ControllerErrorView,
    time: Text,
    later: Text,
)
    ensures
        ({
            let s = ReconcileObjectSyncView::at(SyncPhaseView::Check);
            let (reporting, object) = s.step(event, SyncReplyView::Checked(Err(e)), time);
            let (end, _) = reporting.step(object, SyncReplyView::StatusReplaced(Ok(())), later);
            &&& reporting.action() == SyncActionView::ReplaceStatus
            &&& object == event.with_condition(conditions::failed(e), time)
            &&& end.action() == SyncActionView::Done(Err(e))
        }),
{
}

/// An object of a namespace that is not watched is left alone. Any other is
/// registered, or deleted where its deletion was requested.
pub proof fn law_watched_object_is_registered_or_deleted(
    c: configuration::ConfigurationView,
    event: object_sync_modifications::ObjectSyncModificationsView,
    namespace: Text,
)
    requires
        meta::is_in(event.modified.metadata, namespace),
    ensures
        ReconcileObjectSyncView::start(c, event).action() == if !c.watches(namespace) {
            SyncActionView::Done(Ok(Schedule::Requeue(3600)))
        } else if event.modified.metadata.deletion_timestamp is Some {
            SyncActionView::Delete
        } else {
            SyncActionView::Check
        },
{
    meta::law_used_name_is_its_own(event.modified.metadata, namespace, namespace);
}

/// After a success the object is looked at again in an hour. An error is handed
/// back. An error of the registration is reported in the status first, and nothing
/// else of the object changes. A reply that nothing waits for changes nothing.
pub proof fn law_errors_of_the_registration_are_reported(
    s: ReconcileObjectSyncView,
    event: object_sync_modifications::ObjectSyncModificationsView,
    e: errors::ControllerErrorView,
    f: errors::ControllerErrorView,
    reply: SyncReplyView,
    time: Text,
    later: Text,
)
    ensures
        ({
            let deleting = ReconcileObjectSyncView::at(SyncPhaseView::Delete);
            let done = deleting.step(event, SyncReplyView::Deleted(Ok(())), time);
            let failed = deleting.step(event, SyncReplyView::Deleted(Err(e)), time);
            &&& done.0.action() == SyncActionView::Done(Ok(Schedule::Requeue(3600)))
            &&& done.1 == event
            &&& failed.0.action() == SyncActionView::Done(Err(e))
            &&& failed.1 == event
        }),
        ({
            let checking = ReconcileObjectSyncView::at(SyncPhaseView::Check);
            let done = checking.step(event, SyncReplyView::Checked(Ok(())), time);
            let (reporting, after) = checking.step(event, SyncReplyView::Checked(Err(e)), time);
            let reported = reporting.step(after, SyncReplyView::StatusReplaced(Ok(())), later);
            let unreported = reporting.step(after, SyncReplyView::StatusReplaced(Err(f)), later);
            &&& done.0.action() == SyncActionView::Done(Ok(Schedule::Requeue(3600)))
            &&& done.1 == event
            &&& reporting.action() == SyncActionView::ReplaceStatus
            &&& after.original == event.original
            &&& after.modified.metadata == event.modified.metadata
            &&& after.modified.spec == event.modified.spec
            &&& after.modified.status matches Some(t) && t.conditions == Some(
                api::record_condition(
                    match event.modified.status {
                        Some(u) => u.conditions,
                        None => None,
                    },
                    conditions::failed(e),
                    time,
                ),
            ) && t.destinations == match event.modified.status {
                Some(u) => u.destinations,
                None => None,
            }
            &&& reported.0.action() == SyncActionView::Done(Err(e))
            &&& reported.1 == after
            &&& unreported.0.action() == SyncActionView::Done(Err(f))
            &&& unreported.1 == after
        }),
        match s.phase {
            SyncPhaseView::Delete => reply is Deleted,
            SyncPhaseView::Check => reply is Checked,
            SyncPhaseView::Report(_) => reply is StatusReplaced,
            SyncPhaseView::Finished(_) => false,
        } || s.step(event, reply, time) == (s, event),
{
}

/// The calls do what the laws on them say.
pub proof fn law_reconciliation_of_an_object(
    c: &Configuration,
    m: &ObjectSyncModifications,
    started: ReconcileObjectSync,
    s: &mut ReconcileObjectSync,
    event: &mut ObjectSyncModifications,
    reply: SyncReply,
    time: String,
    t: &ReconcileObjectSync,
    action: SyncAction,
)
    requires
        call_ensures(ReconcileObjectSync::new, (c, m), started),
        call_ensures(ReconcileObjectSync::step_at, (s, event, reply, time), ()),
        call_ensures(ReconcileObjectSync::action, (t,), action),
    ensures
        started@ == ReconcileObjectSyncView::start(c@, m@),
        (final(s)@, final(event)@) == old(s)@.step(old(event)@, reply@, time@),
        action@ == t@.action(),
{
}

/// A step at the time of the call is the step at one time.
pub proof fn law_reconciliation_takes_the_time(
    s: &mut ReconcileObjectSync,
    event: &mut ObjectSyncModifications,
    reply: SyncReply,
)
    requires
        call_ensures(ReconcileObjectSync::step, (s, event, reply), ()),
    ensures
        exists|time: Text|
            outside::is_utc_time(time) && (final(s)@, final(event)@) == #[trigger] old(s)@.step(
                old(event)@,
                reply@,
                time,
            ),
{
}

} // verus!
