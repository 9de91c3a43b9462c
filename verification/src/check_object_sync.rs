//! The registration of an `ObjectSync`: it gets the finalizer, and is registered
//! with the resource controller of the kind of its source.
use crate::api;
use crate::api::Condition;
use crate::conditions;
use crate::discovery;
use crate::discovery::DiscoveredGroup;
use crate::errors;
use crate::errors::ControllerError;
use crate::meta;
use crate::meta::GroupVersionKind;
use crate::object_sync_controller;
use crate::object_sync_controller::{ControllerChange, ObjectSyncController};
use crate::object_sync_modifications;
use crate::object_sync_modifications::ObjectSyncModifications;
use crate::outside;
use crate::text;
use crate::text::Text;
use crate::utils;
use vstd::prelude::*;

verus! {

/// What is waited for.
pub enum CheckPhase {
    /// The patch that adds the finalizer.
    PatchSpec,
    /// The resources of the API group of the source.
    Discover,
    /// The change of the resource controllers. After it the condition is
    /// recorded.
    Change(ControllerChange, Condition),
    /// The write of the status with the condition.
    Report,
    /// Nothing: all is done.
    Finished(Result<(), ControllerError>),
}

/// The model of [`CheckPhase`].
pub enum CheckPhaseView {
    PatchSpec,
    Discover,
    Change(object_sync_controller::ControllerChangeView, api::ConditionView),
    Report,
    Finished(Result<(), errors::ControllerErrorView>),
}

impl View for CheckPhase {
    type V = CheckPhaseView;

    open spec fn view(&self) -> CheckPhaseView {
        match self {
            CheckPhase::PatchSpec => CheckPhaseView::PatchSpec,
            CheckPhase::Discover => CheckPhaseView::Discover,
            CheckPhase::Change(change, c) => CheckPhaseView::Change(change@, c@),
            CheckPhase::Report => CheckPhaseView::Report,
            CheckPhase::Finished(r) => CheckPhaseView::Finished(text::view_res(*r)),
        }
    }
}

/// What was done.
pub enum CheckReply {
    /// The object was patched.
    SpecPatched(Result<(), ControllerError>),
    /// The API group was read, with the resources at all of its versions.
    Discovered(Result<DiscoveredGroup, String>),
    /// The resource controllers were stopped and started.
    Changed,
    /// The status was written.
    StatusReplaced(Result<(), ControllerError>),
}

/// The model of [`CheckReply`].
pub enum CheckReplyView {
    SpecPatched(Result<(), errors::ControllerErrorView>),
    Discovered(Result<discovery::DiscoveredGroupView, Text>),
    Changed,
    StatusReplaced(Result<(), errors::ControllerErrorView>),
}

impl View for CheckReply {
    type V = CheckReplyView;

    open spec fn view(&self) -> CheckReplyView {
        match self {
            CheckReply::SpecPatched(r) => CheckReplyView::SpecPatched(text::view_res(*r)),
            CheckReply::Discovered(r) => CheckReplyView::Discovered(discovery::discovered_view(*r)),
            CheckReply::Changed => CheckReplyView::Changed,
            CheckReply::StatusReplaced(r) => CheckReplyView::StatusReplaced(text::view_res(*r)),
        }
    }
}

/// What is to be done next.
pub enum CheckAction {
    /// Patch the object, where anything but the status was modified.
    PatchSpec,
    /// Read the API group, with the resources at all of its versions.
    Discover { group: String },
    /// Stop and start resource controllers.
    Change(ControllerChange),
    /// Write the status of the object, where it was modified.
    ReplaceStatus,
    /// Nothing more.
    Done(Result<(), ControllerError>),
}

/// The model of [`CheckAction`].
pub enum CheckActionView {
    PatchSpec,
    Discover { group: Text },
    Change(object_sync_controller::ControllerChangeView),
    ReplaceStatus,
    Done(Result<(), errors::ControllerErrorView>),
}

impl View for CheckAction {
    type V = CheckActionView;

    open spec fn view(&self) -> CheckActionView {
        match self {
            CheckAction::PatchSpec => CheckActionView::PatchSpec,
            CheckAction::Discover { group } => CheckActionView::Discover { group: group@ },
            CheckAction::Change(change) => CheckActionView::Change(change@),
            CheckAction::ReplaceStatus => CheckActionView::ReplaceStatus,
            CheckAction::Done(r) => CheckActionView::Done(text::view_res(*r)),
        }
    }
}

/// The registration of an `ObjectSync` under way.
pub struct CheckObjectSync {
    phase: CheckPhase,
}

/// The model of [`CheckObjectSync`].
#[verifier::ext_equal]
pub struct CheckObjectSyncView {
    /// What is waited for.
    pub phase: CheckPhaseView,
}

impl View for CheckObjectSync {
    type V = CheckObjectSyncView;

    closed spec fn view(&self) -> CheckObjectSyncView {
        CheckObjectSyncView { phase: self.phase@ }
    }
}

/// What a step of a registration leads to.
#[verifier::ext_equal]
pub struct CheckStep {
    pub check: CheckObjectSyncView,
    pub instances: Seq<object_sync_controller::ObjectSyncInstanceView>,
    pub event: object_sync_modifications::ObjectSyncModificationsView,
}

impl CheckObjectSyncView {
    /// What is waited for.
    pub open spec fn at(phase: CheckPhaseView) -> CheckObjectSyncView {
        CheckObjectSyncView { phase }
    }

    /// The registration, not begun: an object without the finalizer is patched
    /// first.
    pub open spec fn start(
        event: object_sync_modifications::ObjectSyncModificationsView,
    ) -> CheckObjectSyncView {
        CheckObjectSyncView::at(
            if event.has_finalizer() {
                CheckPhaseView::Discover
            } else {
                CheckPhaseView::PatchSpec
            },
        )
    }

    /// The registration of `event` for the kind `gvk` at `time`, given the
    /// registrations there are: a new one is added, one for another kind is moved,
    /// and one for the same kind stays. The status says so, also where it said
    /// otherwise of a registration that stays.
    pub open spec fn register(
        instances: Seq<object_sync_controller::ObjectSyncInstanceView>,
        event: object_sync_modifications::ObjectSyncModificationsView,
        gvk: meta::GroupVersionKindView,
        time: Text,
    ) -> CheckStep {
        let change = object_sync_controller::change_by(instances, event, gvk);
        let added = object_sync_controller::added(instances, event, gvk);
        match object_sync_controller::instance(instances, event.id().text()) {
            Some(x) => if x.gvk == gvk {
                if conditions::is_ready(event.modified) {
                    CheckStep {
                        check: CheckObjectSyncView::at(CheckPhaseView::Finished(Ok(()))),
                        instances,
                        event,
                    }
                } else {
                    CheckStep {
                        check: CheckObjectSyncView::at(CheckPhaseView::Report),
                        instances,
                        event: event.with_condition(conditions::registered(gvk), time),
                    }
                }
            } else {
                CheckStep {
                    check: CheckObjectSyncView::at(
                        CheckPhaseView::Change(change, conditions::moved(x.gvk, gvk)),
                    ),
                    instances: added,
                    event,
                }
            },
            None => CheckStep {
                check: CheckObjectSyncView::at(
                    CheckPhaseView::Change(change, conditions::registered(gvk)),
                ),
                instances: added,
                event,
            },
        }
    }

    /// What follows on `reply` at `time`, and what becomes of the registrations
    /// and of the object.
    pub open spec fn step(
        self,
        instances: Seq<object_sync_controller::ObjectSyncInstanceView>,
        event: object_sync_modifications::ObjectSyncModificationsView,
        reply: CheckReplyView,
        time: Text,
    ) -> CheckStep {
        match (self.phase, reply) {
            (CheckPhaseView::PatchSpec, CheckReplyView::SpecPatched(r)) => CheckStep {
                check: CheckObjectSyncView::at(
                    match r {
                        Ok(_) => CheckPhaseView::Discover,
                        Err(e) => CheckPhaseView::Finished(
                            Err(errors::ControllerErrorView::Any(e.message())),
                        ),
                    },
                ),
                instances,
                event,
            },
            (
                CheckPhaseView::Discover,
                CheckReplyView::Discovered(r),
            ) => match discovery::gvk_of(event.modified.spec.source, r) {
                Ok(gvk) => CheckObjectSyncView::register(instances, event, gvk, time),
                Err(e) => CheckStep {
                    check: CheckObjectSyncView::at(CheckPhaseView::Finished(Err(e))),
                    instances,
                    event,
                },
            },
            (CheckPhaseView::Change(_, condition), CheckReplyView::Changed) => CheckStep {
                check: CheckObjectSyncView::at(CheckPhaseView::Report),
                instances,
                event: event.with_condition(condition, time),
            },
            (CheckPhaseView::Report, CheckReplyView::StatusReplaced(r)) => CheckStep {
                check: CheckObjectSyncView::at(CheckPhaseView::Finished(r)),
                instances,
                event,
            },
            _ => CheckStep { check: self, instances, event },
        }
    }

    /// What is to be done next.
    pub open spec fn action(self, event: api::ObjectSyncView) -> CheckActionView {
        match self.phase {
            CheckPhaseView::PatchSpec => CheckActionView::PatchSpec,
            CheckPhaseView::Discover => CheckActionView::Discover {
                group: event.spec.source.group,
            },
            CheckPhaseView::Change(change, _) => CheckActionView::Change(change),
            CheckPhaseView::Report => CheckActionView::ReplaceStatus,
            CheckPhaseView::Finished(r) => CheckActionView::Done(r),
        }
    }
}

impl CheckObjectSync {
    /// Begins the registration: makes sure that the finalizer is in place.
    pub fn new(event: &mut ObjectSyncModifications) -> (res: Self)
        ensures
            res@ == CheckObjectSyncView::start(old(event)@),
            final(event)@ == old(event)@.plus_finalizer(),
    {
        if ObjectSyncController::add_finalizer_if_missing(event) {
            CheckObjectSync { phase: CheckPhase::PatchSpec }
        } else {
            CheckObjectSync { phase: CheckPhase::Discover }
        }
    }

    fn register(
        controller: &mut ObjectSyncController,
        event: &mut ObjectSyncModifications,
        gvk: GroupVersionKind,
        time: String,
    ) -> (res: Self)
        requires
            old(controller)@.wf(),
        ensures
            final(controller)@.wf(),
            final(controller)@.configuration == old(controller)@.configuration,
            (CheckStep {
                check: res@,
                instances: final(controller)@.instances,
                event: final(event)@,
            }) == CheckObjectSyncView::register(
                old(controller)@.instances,
                old(event)@,
                gvk@,
                time@,
            ),
    {
        let id = event.id().to_string();
        match controller.registered_gvk(id.as_str()) {
            Some(known) => {
                if known.same(&gvk) {
                    if conditions::ready(&event.modified) {
                        CheckObjectSync { phase: CheckPhase::Finished(Ok(())) }
                    } else {
                        event.modified.update_condition_at(
                            conditions::registered_condition(&gvk),
                            time,
                        );
                        CheckObjectSync { phase: CheckPhase::Report }
                    }
                } else {
                    let condition = conditions::moved_condition(&known, &gvk);
                    let change = controller.add(event, gvk);
                    CheckObjectSync { phase: CheckPhase::Change(change, condition) }
                }
            },
            None => {
                let condition = conditions::registered_condition(&gvk);
                let change = controller.add(event, gvk);
                CheckObjectSync { phase: CheckPhase::Change(change, condition) }
            },
        }
    }

    /// Takes over what was done, at the current time.
    pub fn step(
        &mut self,
        controller: &mut ObjectSyncController,
        event: &mut ObjectSyncModifications,
        reply: CheckReply,
    )
        requires
            old(controller)@.wf(),
        ensures
            final(controller)@.wf(),
            final(controller)@.configuration == old(controller)@.configuration,
            exists|time: Text|
                outside::is_utc_time(time) && (CheckStep {
                    check: final(self)@,
                    instances: final(controller)@.instances,
                    event: final(event)@,
                }) == #[trigger] old(self)@.step(
                    old(controller)@.instances,
                    old(event)@,
                    reply@,
                    time,
                ),
    {
        let time = outside::utc_now_rfc3339();
        self.step_at(controller, event, reply, time);
    }

    /// Takes over what was done at `time`. An answer that is not waited for
    /// changes nothing.
    pub fn step_at(
        &mut self,
        controller: &mut ObjectSyncController,
        event: &mut ObjectSyncModifications,
        reply: CheckReply,
        time: String,
    )
        requires
            old(controller)@.wf(),
        ensures
            final(controller)@.wf(),
            final(controller)@.configuration == old(controller)@.configuration,
            (CheckStep {
                check: final(self)@,
                instances: final(controller)@.instances,
                event: final(event)@,
            }) == old(self)@.step(old(controller)@.instances, old(event)@, reply@, time@),
    {
        match (&self.phase, reply) {
            (CheckPhase::PatchSpec, CheckReply::SpecPatched(r)) => {
                self.phase = match r {
                    Ok(_) => CheckPhase::Discover,
                    Err(e) => CheckPhase::Finished(Err(ControllerError::Any(e.message()))),
                };
            },
            (
                CheckPhase::Discover,
                CheckReply::Discovered(r),
            ) => match discovery::get_gvk(&event.modified.spec.source, r) {
                Ok(gvk) => {
                    *self = CheckObjectSync::register(controller, event, gvk, time);
                },
                Err(e) => {
                    self.phase = CheckPhase::Finished(Err(e));
                },
            },
            (CheckPhase::Change(_, condition), CheckReply::Changed) => {
                event.modified.update_condition_at(condition.clone(), time);
                self.phase = CheckPhase::Report;
            },
            (CheckPhase::Report, CheckReply::StatusReplaced(r)) => {
                self.phase = CheckPhase::Finished(r);
            },
            _ => (),
        }
    }

    /// What is to be done next.
    pub fn action(&self, event: &ObjectSyncModifications) -> (res: CheckAction)
        ensures
            res@ == self@.action(event@.modified),
    {
        match &self.phase {
            CheckPhase::PatchSpec => CheckAction::PatchSpec,
            CheckPhase::Discover => CheckAction::Discover {
                group: event.modified.spec.source.group.clone(),
            },
            CheckPhase::Change(change, _) => CheckAction::Change(change.clone()),
            CheckPhase::Report => CheckAction::ReplaceStatus,
            CheckPhase::Finished(r) => CheckAction::Done(
                match r {
                    Ok(_) => Ok(()),
                    Err(e) => Err(e.clone()),
                },
            ),
        }
    }
}

/// Once the kind of the source is known, the `ObjectSync` is registered for it,
/// and for no other kind.
pub proof fn law_registered_for_kind_of_source(
    instances: Seq<object_sync_controller::ObjectSyncInstanceView>,
    event: object_sync_modifications::ObjectSyncModificationsView,
    gvk: meta::GroupVersionKindView,
    time: Text,
)
    ensures
        ({
            let after = CheckObjectSyncView::register(instances, event, gvk, time).instances;
            let id = event.id().text();
            &&& object_sync_controller::instance(after, id) matches Some(x)
            &&& x.gvk == gvk
        }),
{
    object_sync_controller::law_added_is_registered(instances, event, gvk);
}

/// The object once the condition that a registration leads to is recorded.
pub open spec fn told(
    step: CheckStep,
    time: Text,
) -> object_sync_modifications::ObjectSyncModificationsView {
    match step.check.phase {
        CheckPhaseView::Change(_, condition) => step.event.with_condition(condition, time),
        _ => step.event,
    }
}

/// An `ObjectSync` whose kind is known is told to be ready, also where an earlier
/// failure was recorded.
pub proof fn law_registered_is_ready(
    instances: Seq<object_sync_controller::ObjectSyncInstanceView>,
    event: object_sync_modifications::ObjectSyncModificationsView,
    gvk: meta::GroupVersionKindView,
    time: Text,
    told_at: Text,
)
    ensures
        conditions::is_ready(
            told(CheckObjectSyncView::register(instances, event, gvk, time), told_at).modified,
        ),
{
    let known = event.modified.status_or_unset().conditions;
    let id = event.id().text();
    api::law_recorded_condition_is_there(known, conditions::registered(gvk), time);
    api::law_recorded_condition_is_there(known, conditions::registered(gvk), told_at);
    if let Some(x) = object_sync_controller::instance(instances, id) {
        api::law_recorded_condition_is_there(known, conditions::moved(x.gvk, gvk), told_at);
    }
}

/// Registering again for the same kind changes nothing: neither the registrations
/// nor the object, so that no status is written.
pub proof fn law_registering_again_changes_nothing(
    instances: Seq<object_sync_controller::ObjectSyncInstanceView>,
    event: object_sync_modifications::ObjectSyncModificationsView,
    gvk: meta::GroupVersionKindView,
    time: Text,
    told_at: Text,
    later: Text,
)
    ensures
        ({
            let once = CheckObjectSyncView::register(instances, event, gvk, time);
            let object = told(once, told_at);
            let again = CheckObjectSyncView::register(once.instances, object, gvk, later);
            &&& again.instances == once.instances
            &&& again.event == object
            &&& again.check.phase matches CheckPhaseView::Finished(Ok(_))
        }),
{
    law_registered_for_kind_of_source(instances, event, gvk, time);
    law_registered_is_ready(instances, event, gvk, time, told_at);
}

/// One answer within a whole check, with the registrations and the object as they
/// are handed over at that time. A write may have replaced the object by the one
/// that the server stored, and other objects may have been registered.
pub struct CheckTurn {
    pub reply: CheckReplyView,
    pub time: Text,
    pub instances: Seq<object_sync_controller::ObjectSyncInstanceView>,
    pub event: object_sync_modifications::ObjectSyncModificationsView,
}

impl CheckStep {
    /// A check that has just begun.
    pub open spec fn begin(
        instances: Seq<object_sync_controller::ObjectSyncInstanceView>,
        event: object_sync_modifications::ObjectSyncModificationsView,
    ) -> CheckStep {
        CheckStep {
            check: CheckObjectSyncView::start(event),
            instances,
            event: event.plus_finalizer(),
        }
    }

    /// What is to be done next.
    pub open spec fn action(self) -> CheckActionView {
        self.check.action(self.event.modified)
    }

    /// Where the answers lead.
    pub open spec fn run(self, turns: Seq<CheckTurn>) -> CheckStep
        decreases turns.len(),
    {
        if turns.len() == 0 {
            self
        } else {
            let turn = turns.last();
            self.run(turns.drop_last()).check.step(
                turn.instances,
                turn.event,
                turn.reply,
                turn.time,
            )
        }
    }

    /// Whether the turn hands over what the check has left: the same object, with
    /// the finalizer and the conditions, and its own registration.
    pub open spec fn carries_over(self, turn: CheckTurn) -> bool {
        let id = self.event.id().text();
        &&& turn.event.id() == self.event.id()
        &&& self.event.has_finalizer() ==> turn.event.has_finalizer()
        &&& turn.event.modified.status_or_unset().conditions
            == self.event.modified.status_or_unset().conditions
        &&& object_sync_controller::instance(turn.instances, id)
            == object_sync_controller::instance(self.instances, id)
    }

    /// Whether every turn hands over what the one before has left.
    pub open spec fn is_undisturbed(self, turns: Seq<CheckTurn>) -> bool
        decreases turns.len(),
    {
        turns.len() > 0 ==> {
            &&& self.is_undisturbed(turns.drop_last())
            &&& self.run(turns.drop_last()).carries_over(turns.last())
        }
    }

    /// The kind of the source that the check has found on the way.
    pub open spec fn found_kind(self, turns: Seq<CheckTurn>) -> Option<meta::GroupVersionKindView>
        decreases turns.len(),
    {
        if turns.len() == 0 {
            None
        } else {
            let turn = turns.last();
            match (self.run(turns.drop_last()).check.phase, turn.reply) {
                (
                    CheckPhaseView::Discover,
                    CheckReplyView::Discovered(r),
                ) => match discovery::gvk_of(turn.event.modified.spec.source, r) {
                    Ok(gvk) => Some(gvk),
                    Err(_) => None,
                },
                _ => self.found_kind(turns.drop_last()),
            }
        }
    }

    /// What holds on the way, given the kind that was found.
    spec fn is_on_the_way(self, found: Option<meta::GroupVersionKindView>) -> bool {
        let id = self.event.id().text();
        let registered = found matches Some(gvk) && (object_sync_controller::instance(
            self.instances,
            id,
        ) matches Some(x) && x.gvk == gvk);
        &&& self.event.has_finalizer()
        &&& match self.check.phase {
            CheckPhaseView::PatchSpec => true,
            CheckPhaseView::Discover => true,
            CheckPhaseView::Change(_, c) => registered && c.type_ == conditions::READY@
                && c.status == "True"@,
            CheckPhaseView::Report => registered && conditions::is_ready(self.event.modified),
            CheckPhaseView::Finished(Ok(_)) => registered && conditions::is_ready(
                self.event.modified,
            ),
            CheckPhaseView::Finished(Err(_)) => true,
        }
    }
}

proof fn lemma_check_step(
    s: CheckStep,
    found: Option<meta::GroupVersionKindView>,
    turn: CheckTurn,
    next: Option<meta::GroupVersionKindView>,
)
    requires
        s.is_on_the_way(found),
        s.carries_over(turn),
        next == match (s.check.phase, turn.reply) {
            (
                CheckPhaseView::Discover,
                CheckReplyView::Discovered(r),
            ) => match discovery::gvk_of(turn.event.modified.spec.source, r) {
                Ok(gvk) => Some(gvk),
                Err(_) => None,
            },
            _ => found,
        },
    ensures
        s.check.step(turn.instances, turn.event, turn.reply, turn.time).is_on_the_way(next),
{
    let known = turn.event.modified.status_or_unset().conditions;
    match (s.check.phase, turn.reply) {
        (CheckPhaseView::Discover, CheckReplyView::Discovered(r)) => {
            if let Ok(gvk) = discovery::gvk_of(turn.event.modified.spec.source, r) {
                law_registered_for_kind_of_source(turn.instances, turn.event, gvk, turn.time);
                api::law_recorded_condition_is_there(
                    known,
                    conditions::registered(gvk),
                    turn.time,
                );
            }
        },
        (CheckPhaseView::Change(_, c), CheckReplyView::Changed) => {
            api::law_recorded_condition_is_there(known, c, turn.time);
        },
        _ => {},
    }
}

proof fn lemma_check_run(first: CheckStep, turns: Seq<CheckTurn>)
    requires
        first.is_on_the_way(None),
        first.is_undisturbed(turns),
    ensures
        first.run(turns).is_on_the_way(first.found_kind(turns)),
    decreases turns.len(),
{
    if turns.len() > 0 {
        let earlier = turns.drop_last();
        lemma_check_run(first, earlier);
        lemma_check_step(
            first.run(earlier),
            first.found_kind(earlier),
            turns.last(),
            first.found_kind(turns),
        );
    }
}

/// A check that has answered `Ok` leaves an object with the finalizer, which is
/// told to be ready, and registered for the kind that was found.
pub proof fn law_checked_object_is_registered(
    instances: Seq<object_sync_controller::ObjectSyncInstanceView>,
    event: object_sync_modifications::ObjectSyncModificationsView,
    turns: Seq<CheckTurn>,
)
    requires
        CheckStep::begin(instances, event).is_undisturbed(turns),
        CheckStep::begin(instances, event).run(turns).action() matches CheckActionView::Done(Ok(_)),
    ensures
        ({
            let first = CheckStep::begin(instances, event);
            let end = first.run(turns);
            &&& end.event.has_finalizer()
            &&& conditions::is_ready(end.event.modified)
            &&& first.found_kind(turns) matches Some(gvk)
            &&& object_sync_controller::instance(end.instances, end.event.id().text()) matches Some(x)
            &&& x.gvk == gvk
        }),
{
    object_sync_controller::law_finalizer_round_trip(event);
    lemma_check_run(CheckStep::begin(instances, event), turns);
}

/// After a check that has answered `Ok`, a second one that finds the same kind
/// answers `Ok` as soon as it has found it: it asks for no patch and for no write
/// of the status, and changes neither the object nor the registrations.
pub proof fn law_second_check_changes_nothing(
    instances: Seq<object_sync_controller::ObjectSyncInstanceView>,
    event: object_sync_modifications::ObjectSyncModificationsView,
    turns: Seq<CheckTurn>,
    again: CheckTurn,
    discovered: Result<discovery::DiscoveredGroupView, Text>,
)
    requires
        CheckStep::begin(instances, event).is_undisturbed(turns),
        CheckStep::begin(instances, event).run(turns).action() matches CheckActionView::Done(Ok(_)),
        CheckStep::begin(instances, event).run(turns).carries_over(again),
        again.reply == CheckReplyView::Discovered(discovered),
        discovery::gvk_of(again.event.modified.spec.source, discovered) == Ok::<
            meta::GroupVersionKindView,
            errors::ControllerErrorView,
        >(CheckStep::begin(instances, event).found_kind(turns)->0),
    ensures
        ({
            let second = CheckStep::begin(again.instances, again.event);
            let end = second.run(seq![again]);
            &&& second.event == again.event
            &&& second.action() is Discover
            &&& end.action() matches CheckActionView::Done(Ok(_))
            &&& end.event == again.event
            &&& end.instances == again.instances
        }),
{
    law_checked_object_is_registered(instances, event, turns);
    let second = CheckStep::begin(again.instances, again.event);
    assert(seq![again].drop_last() =~= Seq::empty());
    assert(second.run(Seq::empty()) == second);
}

/// The controller of a kind is shared by all the `ObjectSync` objects that are
/// registered for the kind: it is started for the first of them, also where the
/// last one has left before, and stopped when the last one leaves.
pub proof fn law_controller_is_shared_while_it_is_used(
    instances: Seq<object_sync_controller::ObjectSyncInstanceView>,
    event: object_sync_modifications::ObjectSyncModificationsView,
    gvk: meta::GroupVersionKindView,
    time: Text,
)
    ensures
        ({
            let step = CheckObjectSyncView::register(instances, event, gvk, time);
            &&& object_sync_controller::uses(step.instances, gvk)
            &&& match step.check.phase {
                CheckPhaseView::Change(change, _) => {
                    &&& change.gvk == gvk
                    &&& change.started <==> !object_sync_controller::uses(instances, gvk)
                    &&& change.stopped matches Some(g) ==> object_sync_controller::uses(
                        instances,
                        g,
                    ) && !object_sync_controller::uses(step.instances, g)
                    &&& object_sync_controller::instance(
                        instances,
                        event.id().text(),
                    ) matches Some(x) ==> (change.stopped == Some(x.gvk)
                        || object_sync_controller::uses(step.instances, x.gvk))
                },
                _ => step.instances == instances,
            }
        }),
{
    let id = event.id().text();
    object_sync_controller::lemma_instance(instances, id);
    object_sync_controller::lemma_added_uses(instances, event, gvk);
}

/// The registration of an object begins with the finalizer of the syncer, by a patch
/// where the object lacks it. Then the API group of its source is read. An error of
/// the patch ends the registration.
pub proof fn law_registration_begins_with_the_finalizer(
    instances: Seq<object_sync_controller::ObjectSyncInstanceView>,
    event: object_sync_modifications::ObjectSyncModificationsView,
    e: errors::ControllerErrorView,
    time: Text,
)
    ensures
        ({
            let s = CheckObjectSyncView::start(event);
            let group = event.modified.spec.source.group;
            let patching = CheckObjectSyncView::at(CheckPhaseView::PatchSpec);
            let next = patching.step(instances, event, CheckReplyView::SpecPatched(Ok(())), time);
            let failed = patching.step(instances, event, CheckReplyView::SpecPatched(Err(e)), time);
            &&& s.action(event.modified) == if meta::carries(
                event.modified.metadata,
                "sync.rustrial.org/rustrial-object-syncer"@,
            ) {
                CheckActionView::Discover { group }
            } else {
                CheckActionView::PatchSpec
            }
            &&& s == patching || s == CheckObjectSyncView::at(CheckPhaseView::Discover)
            &&& next.check == CheckObjectSyncView::at(CheckPhaseView::Discover)
            &&& next.check.action(event.modified) == (CheckActionView::Discover { group })
            &&& next.instances == instances
            &&& next.event == event
            &&& failed.check.action(event.modified) == CheckActionView::Done(
                Err(errors::ControllerErrorView::Any(e.message())),
            )
            &&& failed.instances == instances
            &&& failed.event == event
        }),
{
}

/// Whether the `i`-th registration is the one of the object, the first under its
/// name.
pub open spec fn is_registered_at(
    instances: Seq<object_sync_controller::ObjectSyncInstanceView>,
    event: object_sync_modifications::ObjectSyncModificationsView,
    i: int,
) -> bool {
    let id = utils::NamespacedNameView::of(event.modified.metadata).text();
    &&& 0 <= i < instances.len()
    &&& instances[i].id == id
    &&& forall|j: int| 0 <= j < i ==> (#[trigger] instances[j]).id != id
}

/// Once the API group is read, the object is registered for the kind of its source.
/// It is added where it is not registered, and where it is registered for another
/// kind, with a change of the resource controllers, and the status will say so. One
/// that is registered for this kind stays, and the status is mended where it does
/// not say that the object is ready. An error ends the registration, with nothing
/// changed.
pub proof fn law_object_is_registered_for_the_kind(
    instances: Seq<object_sync_controller::ObjectSyncInstanceView>,
    event: object_sync_modifications::ObjectSyncModificationsView,
    discovered: Result<discovery::DiscoveredGroupView, Text>,
    i: int,
    time: Text,
)
    ensures
        ({
            let s = CheckObjectSyncView::at(CheckPhaseView::Discover);
            let next = s.step(instances, event, CheckReplyView::Discovered(discovered), time);
            match discovery::gvk_of(event.modified.spec.source, discovered) {
                Ok(gvk) => {
                    let change = CheckActionView::Change(
                        object_sync_controller::change_by(instances, event, gvk),
                    );
                    let added = object_sync_controller::added(instances, event, gvk);
                    let is_unknown = forall|j: int|
                        0 <= j < instances.len() ==> (#[trigger] instances[j]).id
                            != utils::NamespacedNameView::of(event.modified.metadata).text();
                    &&& is_unknown || is_registered_at(instances, event, i) && instances[i].gvk
                        != gvk ==> next.check.action(event.modified) == change && next.instances
                        == added && next.event == event
                    &&& is_unknown ==> (next.check.phase matches CheckPhaseView::Change(_, c) && c
                        == conditions::registered(gvk))
                    &&& is_registered_at(instances, event, i) && instances[i].gvk != gvk ==> (
                    next.check.phase matches CheckPhaseView::Change(_, c) && c == conditions::moved(
                        instances[i].gvk,
                        gvk,
                    ))
                    &&& is_registered_at(instances, event, i) && instances[i].gvk == gvk ==> {
                        &&& next.instances == instances
                        &&& if conditions::is_ready(event.modified) {
                            next.event == event && next.check.action(event.modified)
                                == CheckActionView::Done(Ok(()))
                        } else {
                            &&& next.check.action(event.modified) == CheckActionView::ReplaceStatus
                            &&& next.event.original == event.original
                            &&& next.event.modified == event.modified.with_condition(
                                conditions::registered(gvk),
                                time,
                            )
                        }
                    }
                },
                Err(e) => {
                    &&& next.check.action(event.modified) == CheckActionView::Done(Err(e))
                    &&& next.instances == instances
                    &&& next.event == event
                },
            }
        }),
{
    object_sync_controller::lemma_instance_at(instances, event.id().text());
    let id = event.id().text();
    if is_registered_at(instances, event, i) {
        assert(instances[i].id == id);
        let k = choose|k: int|
            0 <= k < instances.len() && (#[trigger] instances[k])
                == object_sync_controller::instance(instances, id)->0 && instances[k].id == id
                && forall|j: int| 0 <= j < k ==> (#[trigger] instances[j]).id != id;
        assert(k == i) by {
            if k < i {
                assert(instances[k].id != id);
            } else if i < k {
                assert(instances[i].id != id);
            }
        }
    }
}

/// Once the resource controllers have changed, the condition is recorded and the
/// status written, and the write is the end. A reply that nothing waits for changes
/// nothing.
pub proof fn law_registration_ends_with_the_status(
    s: CheckObjectSyncView,
    instances: Seq<object_sync_controller::ObjectSyncInstanceView>,
    event: object_sync_modifications::ObjectSyncModificationsView,
    change: object_sync_controller::ControllerChangeView,
    condition: api::ConditionView,
    written: Result<(), errors::ControllerErrorView>,
    reply: CheckReplyView,
    time: Text,
)
    ensures
        ({
            let changing = CheckObjectSyncView::at(CheckPhaseView::Change(change, condition));
            let next = changing.step(instances, event, CheckReplyView::Changed, time);
            let reporting = CheckObjectSyncView::at(CheckPhaseView::Report);
            let end = reporting.step(
                instances,
                event,
                CheckReplyView::StatusReplaced(written),
                time,
            );
            &&& changing.action(event.modified) == CheckActionView::Change(change)
            &&& next.check == reporting
            &&& next.instances == instances
            &&& next.event.original == event.original
            &&& next.event.modified == event.modified.with_condition(condition, time)
            &&& reporting.action(event.modified) == CheckActionView::ReplaceStatus
            &&& end.check.action(event.modified) == CheckActionView::Done(written)
            &&& end.instances == instances
            &&& end.event == event
        }),
        match s.phase {
            CheckPhaseView::PatchSpec => reply is SpecPatched,
            CheckPhaseView::Discover => reply is Discovered,
            CheckPhaseView::Change(_, _) => reply is Changed,
            CheckPhaseView::Report => reply is StatusReplaced,
            CheckPhaseView::Finished(_) => false,
        } || s.step(instances, event, reply, time) == (CheckStep { check: s, instances, event }),
{
}

/// The calls do what the laws on them say.
pub proof fn law_registration_by_calls(
    m: &mut ObjectSyncModifications,
    started: CheckObjectSync,
    s: &mut CheckObjectSync,
    controller: &mut ObjectSyncController,
    event: &mut ObjectSyncModifications,
    reply: CheckReply,
    time: String,
    t: &CheckObjectSync,
    n: &ObjectSyncModifications,
    action: CheckAction,
)
    requires
        call_ensures(CheckObjectSync::new, (m,), started),
        call_ensures(CheckObjectSync::step_at, (s, controller, event, reply, time), ()),
        call_ensures(CheckObjectSync::action, (t, n), action),
    ensures
        started@ == CheckObjectSyncView::start(old(m)@),
        final(m)@ == old(m)@.plus_finalizer(),
        final(controller)@.configuration == old(controller)@.configuration,
        (CheckStep {
            check: final(s)@,
            instances: final(controller)@.instances,
            event: final(event)@,
        }) == old(s)@.step(old(controller)@.instances, old(event)@, reply@, time@),
        action@ == t@.action(n.modified@),
        action matches CheckAction::Discover { group } ==> group@ == n.modified.spec.source.group@,
{
    let v = action@;
}

/// A step at the time of the call is the step at one time.
pub proof fn law_registration_takes_the_time(
    s: &mut CheckObjectSync,
    controller: &mut ObjectSyncController,
    event: &mut ObjectSyncModifications,
    reply: CheckReply,
)
    requires
        call_ensures(CheckObjectSync::step, (s, controller, event, reply), ()),
    ensures
        exists|time: Text|
            outside::is_utc_time(time) && (CheckStep {
                check: final(s)@,
                instances: final(controller)@.instances,
                event: final(event)@,
            }) == #[trigger] old(s)@.step(
                old(controller)@.instances,
                old(event)@,
                reply@,
                time,
            ),
{
}

} // verus!
