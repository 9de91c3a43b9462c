//! What follows on the deletion of an `ObjectSync`: it is no longer registered,
//! all tracked copies are deleted, and then the source and the `ObjectSync` itself
//! lose the finalizer.
use crate::api;
use crate::api::DestinationStatus;
use crate::discovery;
use crate::discovery::DiscoveredGroup;
use crate::errors;
use crate::errors::{ControllerError, KubeError};
use crate::meta;
use crate::meta::{ApiResource, DynamicObject, GroupVersionKind};
use crate::object_sync_controller;
use crate::object_sync_controller::ObjectSyncController;
use crate::object_sync_modifications;
use crate::object_sync_modifications::ObjectSyncModifications;
use crate::reconcile_source;
use crate::request;
use crate::request::{JsonPatch, FINALIZER};
use crate::sources;
use crate::text;
use crate::text::Text;
use crate::utils;
use crate::utils::SourceRef;
use vstd::prelude::*;
use vstd::string::*;

verus! {

/// What is waited for.
pub enum DeletionPhase {
    /// The end of the resource controller of a kind that is no longer used.
    Stop(GroupVersionKind),
    /// The deletion of the tracked copies.
    Delete(Vec<DestinationStatus>),
    /// The write of the status that tracks the copies that could not be deleted.
    Report(usize),
    /// The resources of the API group of the source.
    Discover,
    /// The source.
    GetSource(GroupVersionKind),
    /// The patch that takes the finalizer off the source.
    PatchSource(GroupVersionKind, JsonPatch),
    /// The patch that takes the finalizer off the object itself.
    PatchSpec,
    /// Nothing: all is done.
    Finished(Result<(), ControllerError>),
}

/// The model of [`DeletionPhase`].
pub enum DeletionPhaseView {
    Stop(meta::GroupVersionKindView),
    Delete(Seq<api::DestinationStatusView>),
    Report(nat),
    Discover,
    GetSource(meta::GroupVersionKindView),
    PatchSource(meta::GroupVersionKindView, request::JsonPatchView),
    PatchSpec,
    Finished(Result<(), errors::ControllerErrorView>),
}

impl View for DeletionPhase {
    type V = DeletionPhaseView;

    open spec fn view(&self) -> DeletionPhaseView {
        match self {
            DeletionPhase::Stop(gvk) => DeletionPhaseView::Stop(gvk@),
            DeletionPhase::Delete(d) => DeletionPhaseView::Delete(text::views(d@)),
            DeletionPhase::Report(n) => DeletionPhaseView::Report(*n as nat),
            DeletionPhase::Discover => DeletionPhaseView::Discover,
            DeletionPhase::GetSource(gvk) => DeletionPhaseView::GetSource(gvk@),
            DeletionPhase::PatchSource(gvk, p) => DeletionPhaseView::PatchSource(gvk@, p@),
            DeletionPhase::PatchSpec => DeletionPhaseView::PatchSpec,
            DeletionPhase::Finished(r) => DeletionPhaseView::Finished(text::view_res(*r)),
        }
    }
}

/// What was done.
pub enum DeletionReply {
    /// The resource controller was stopped.
    Stopped,
    /// The copies were deleted, but for the ones that are handed back.
    Deleted(Result<Vec<DestinationStatus>, ControllerError>),
    /// The status was written.
    StatusReplaced(Result<(), ControllerError>),
    /// The API group was read, with the resources at all of its versions.
    Discovered(Result<DiscoveredGroup, String>),
    /// The source was read.
    GotSource(Result<DynamicObject, KubeError>),
    /// The source was patched.
    SourcePatched(Result<(), KubeError>),
    /// The object itself was patched.
    SpecPatched(Result<(), ControllerError>),
}

/// The model of [`DeletionReply`].
pub enum DeletionReplyView {
    Stopped,
    Deleted(Result<Seq<api::DestinationStatusView>, errors::ControllerErrorView>),
    StatusReplaced(Result<(), errors::ControllerErrorView>),
    Discovered(Result<discovery::DiscoveredGroupView, Text>),
    GotSource(Result<meta::DynamicObjectView, errors::KubeErrorView>),
    SourcePatched(Result<(), errors::KubeErrorView>),
    SpecPatched(Result<(), errors::ControllerErrorView>),
}

impl View for DeletionReply {
    type V = DeletionReplyView;

    open spec fn view(&self) -> DeletionReplyView {
        match self {
            DeletionReply::Stopped => DeletionReplyView::Stopped,
            DeletionReply::Deleted(r) => DeletionReplyView::Deleted(
                reconcile_source::deletion_view(*r),
            ),
            DeletionReply::StatusReplaced(r) => DeletionReplyView::StatusReplaced(text::view_res(*r)),
            DeletionReply::Discovered(r) => DeletionReplyView::Discovered(
                discovery::discovered_view(*r),
            ),
            DeletionReply::GotSource(r) => DeletionReplyView::GotSource(text::view_res(*r)),
            DeletionReply::SourcePatched(r) => DeletionReplyView::SourcePatched(text::view_res(*r)),
            DeletionReply::SpecPatched(r) => DeletionReplyView::SpecPatched(text::view_res(*r)),
        }
    }
}

/// What is to be done next.
pub enum DeletionAction {
    /// Stop the resource controller of the kind.
    Stop(GroupVersionKind),
    /// Delete the copies.
    DeleteDestinations(Vec<DestinationStatus>),
    /// Write the status of the object, where it was modified.
    ReplaceStatus,
    /// Read the API group, with the resources at all of its versions.
    Discover { group: String },
    /// Read the source.
    GetSource { resource: ApiResource, namespace: String, name: String },
    /// Patch the source.
    PatchSource { resource: ApiResource, namespace: String, patch: JsonPatch },
    /// Patch the object itself, where anything but the status was modified.
    PatchSpec,
    /// Nothing more.
    Done(Result<(), ControllerError>),
}

/// The model of [`DeletionAction`].
pub enum DeletionActionView {
    Stop(meta::GroupVersionKindView),
    DeleteDestinations(Seq<api::DestinationStatusView>),
    ReplaceStatus,
    Discover { group: Text },
    GetSource { resource: meta::ApiResourceView, namespace: Text, name: Text },
    PatchSource {
        resource: meta::ApiResourceView,
        namespace: Text,
        patch: request::JsonPatchView,
    },
    PatchSpec,
    Done(Result<(), errors::ControllerErrorView>),
}

impl View for DeletionAction {
    type V = DeletionActionView;

    open spec fn view(&self) -> DeletionActionView {
        match self {
            DeletionAction::Stop(gvk) => DeletionActionView::Stop(gvk@),
            DeletionAction::DeleteDestinations(d) => DeletionActionView::DeleteDestinations(
                text::views(d@),
            ),
            DeletionAction::ReplaceStatus => DeletionActionView::ReplaceStatus,
            DeletionAction::Discover { group } => DeletionActionView::Discover { group: group@ },
            DeletionAction::GetSource {
                resource,
                namespace,
                name,
            } => DeletionActionView::GetSource {
                resource: resource@,
                namespace: namespace@,
                name: name@,
            },
            DeletionAction::PatchSource {
                resource,
                namespace,
                patch,
            } => DeletionActionView::PatchSource {
                resource: resource@,
                namespace: namespace@,
                patch: patch@,
            },
            DeletionAction::PatchSpec => DeletionActionView::PatchSpec,
            DeletionAction::Done(r) => DeletionActionView::Done(text::view_res(*r)),
        }
    }
}

/// The deletion of an `ObjectSync` under way.
pub struct DeleteObjectSync {
    phase: DeletionPhase,
}

/// The model of [`DeleteObjectSync`].
#[verifier::ext_equal]
pub struct DeleteObjectSyncView {
    /// What is waited for.
    pub phase: DeletionPhaseView,
}

impl View for DeleteObjectSync {
    type V = DeleteObjectSyncView;

    closed spec fn view(&self) -> DeleteObjectSyncView {
        DeleteObjectSyncView { phase: self.phase@ }
    }
}

/// The error of a deletion that left copies behind.
pub open spec fn removal_error(remaining: nat, id: Text) -> errors::ControllerErrorView {
    errors::ControllerErrorView::DestinationRemovalError(
        "failed to remove "@ + text::decimal(remaining) + " destinations of "@ + id,
    )
}

/// Whether the API can be asked for objects of the kind of the source.
pub open spec fn source_has_plural(o: api::ObjectSyncView) -> bool {
    meta::GroupVersionKindView {
        group: o.spec.source.group,
        version: text::or_empty(o.spec.source.version),
        kind: o.spec.source.kind,
    }.has_plural()
}

impl DeleteObjectSyncView {
    /// What is waited for.
    pub open spec fn at(phase: DeletionPhaseView) -> DeleteObjectSyncView {
        DeleteObjectSyncView { phase }
    }

    /// All is done.
    pub open spec fn finish(result: Result<(), errors::ControllerErrorView>) -> DeleteObjectSyncView {
        DeleteObjectSyncView::at(DeletionPhaseView::Finished(result))
    }

    /// The deletion, once it is no longer registered: the tracked copies come
    /// first.
    pub open spec fn begin(event: api::ObjectSyncView) -> DeleteObjectSyncView {
        DeleteObjectSyncView::at(
            match event.status_destinations() {
                Some(d) => DeletionPhaseView::Delete(d),
                None => DeletionPhaseView::Discover,
            },
        )
    }

    /// The deletion, where the resource controller of the kind `stopped` is no
    /// longer used.
    pub open spec fn start(
        event: api::ObjectSyncView,
        stopped: Option<meta::GroupVersionKindView>,
    ) -> DeleteObjectSyncView {
        match stopped {
            Some(gvk) => DeleteObjectSyncView::at(DeletionPhaseView::Stop(gvk)),
            None => DeleteObjectSyncView::begin(event),
        }
    }

    /// What holds at every step: the API can be asked for the source.
    pub open spec fn wf(self) -> bool {
        match self.phase {
            DeletionPhaseView::GetSource(gvk) => gvk.has_plural(),
            DeletionPhaseView::PatchSource(gvk, _) => gvk.has_plural(),
            _ => true,
        }
    }

    /// The object itself loses the finalizer.
    pub open spec fn release(
        event: object_sync_modifications::ObjectSyncModificationsView,
    ) -> (DeleteObjectSyncView, object_sync_modifications::ObjectSyncModificationsView) {
        (
            if event.has_finalizer() {
                DeleteObjectSyncView::at(DeletionPhaseView::PatchSpec)
            } else {
                DeleteObjectSyncView::finish(Ok(()))
            },
            event.without_finalizer(),
        )
    }

    /// What follows on `reply`, and what becomes of the object:
    /// - copies that could not be deleted stay tracked, and end the deletion with
    ///   an error;
    /// - the source loses the finalizer, where it is still there;
    /// - the object itself loses the finalizer at last.
    pub open spec fn step(
        self,
        event: object_sync_modifications::ObjectSyncModificationsView,
        reply: DeletionReplyView,
    ) -> (DeleteObjectSyncView, object_sync_modifications::ObjectSyncModificationsView) {
        match (self.phase, reply) {
            (DeletionPhaseView::Stop(_), DeletionReplyView::Stopped) => (
                DeleteObjectSyncView::begin(event.modified),
                event,
            ),
            (DeletionPhaseView::Delete(_), DeletionReplyView::Deleted(r)) => match r {
                Ok(remaining) => if remaining.len() > 0 {
                    (
                        DeleteObjectSyncView::at(DeletionPhaseView::Report(remaining.len())),
                        event.with_destinations(remaining),
                    )
                } else {
                    (DeleteObjectSyncView::at(DeletionPhaseView::Discover), event)
                },
                Err(e) => (DeleteObjectSyncView::finish(Err(e)), event),
            },
            (DeletionPhaseView::Report(remaining), DeletionReplyView::StatusReplaced(r)) => (
                DeleteObjectSyncView::finish(
                    match r {
                        Ok(_) => Err(removal_error(remaining, event.id().text())),
                        Err(e) => Err(e),
                    },
                ),
                event,
            ),
            (
                DeletionPhaseView::Discover,
                DeletionReplyView::Discovered(r),
            ) => match discovery::gvk_of(event.modified.spec.source, r) {
                Ok(gvk) => (DeleteObjectSyncView::at(DeletionPhaseView::GetSource(gvk)), event),
                Err(e) => (DeleteObjectSyncView::finish(Err(e)), event),
            },
            (DeletionPhaseView::GetSource(gvk), DeletionReplyView::GotSource(r)) => match r {
                Ok(source) => match utils::finalizer_removal(source.ensure_gvk(gvk), FINALIZER@) {
                    Ok(Some(patch)) => (
                        DeleteObjectSyncView::at(DeletionPhaseView::PatchSource(gvk, patch)),
                        event,
                    ),
                    Ok(None) => DeleteObjectSyncView::release(event),
                    Err(e) => (DeleteObjectSyncView::finish(Err(e)), event),
                },
                Err(e) => if e.not_found() {
                    DeleteObjectSyncView::release(event)
                } else {
                    (
                        DeleteObjectSyncView::finish(Err(errors::ControllerErrorView::KubeApi(e))),
                        event,
                    )
                },
            },
            (
                DeletionPhaseView::PatchSource(_, _),
                DeletionReplyView::SourcePatched(r),
            ) => match utils::removal_outcome(r) {
                Ok(_) => DeleteObjectSyncView::release(event),
                Err(e) => (DeleteObjectSyncView::finish(Err(e)), event),
            },
            (DeletionPhaseView::PatchSpec, DeletionReplyView::SpecPatched(r)) => (
                DeleteObjectSyncView::finish(
                    match r {
                        Ok(_) => Ok(()),
                        Err(e) => Err(errors::ControllerErrorView::Any(e.message())),
                    },
                ),
                event,
            ),
            _ => (self, event),
        }
    }

    /// What is to be done next.
    pub open spec fn action(self, event: api::ObjectSyncView) -> DeletionActionView {
        let source = utils::NamespacedNameView::source_of(event);
        match self.phase {
            DeletionPhaseView::Stop(gvk) => DeletionActionView::Stop(gvk),
            DeletionPhaseView::Delete(d) => DeletionActionView::DeleteDestinations(d),
            DeletionPhaseView::Report(_) => DeletionActionView::ReplaceStatus,
            DeletionPhaseView::Discover => DeletionActionView::Discover {
                group: event.spec.source.group,
            },
            DeletionPhaseView::GetSource(gvk) => DeletionActionView::GetSource {
                resource: gvk.api_resource(),
                namespace: source.namespace,
                name: source.name,
            },
            DeletionPhaseView::PatchSource(gvk, patch) => DeletionActionView::PatchSource {
                resource: gvk.api_resource(),
                namespace: source.namespace,
                patch,
            },
            DeletionPhaseView::PatchSpec => DeletionActionView::PatchSpec,
            DeletionPhaseView::Finished(r) => DeletionActionView::Done(r),
        }
    }
}

impl DeleteObjectSync {
    /// Takes the registration of `event` back, and begins the deletion.
    pub fn new(controller: &mut ObjectSyncController, event: &ObjectSyncModifications) -> (res: Self)
        requires
            old(controller)@.wf(),
        ensures
            final(controller)@.wf(),
            final(controller)@.configuration == old(controller)@.configuration,
            final(controller)@.instances == old(controller)@.without(event@.id().text()),
            res@ == DeleteObjectSyncView::start(
                event@.modified,
                match old(controller)@.registered(event@.id().text()) {
                    Some(x) => if object_sync_controller::uses(
                        final(controller)@.instances,
                        x.gvk,
                    ) {
                        None
                    } else {
                        Some(x.gvk)
                    },
                    None => None,
                },
            ),
            res@.wf(),
    {
        match controller.remove(event) {
            Some(removed) => {
                if removed.stopped {
                    DeleteObjectSync { phase: DeletionPhase::Stop(removed.gvk) }
                } else {
                    DeleteObjectSync::begin(event)
                }
            },
            None => DeleteObjectSync::begin(event),
        }
    }

    fn begin(event: &ObjectSyncModifications) -> (res: Self)
        ensures
            res@ == DeleteObjectSyncView::begin(event@.modified),
    {
        DeleteObjectSync {
            phase: match event.modified.status_destinations() {
                Some(d) => DeletionPhase::Delete(reconcile_source::copy_list(d)),
                None => DeletionPhase::Discover,
            },
        }
    }

    fn release(&mut self, event: &mut ObjectSyncModifications)
        ensures
            (final(self)@, final(event)@) == DeleteObjectSyncView::release(old(event)@),
    {
        self.phase = if ObjectSyncController::remove_finalizer(event) {
            DeletionPhase::PatchSpec
        } else {
            DeletionPhase::Finished(Ok(()))
        };
    }

    /// Takes over what was done. An answer that is not waited for changes
    /// nothing.
    pub fn step(&mut self, event: &mut ObjectSyncModifications, reply: DeletionReply)
        requires
            old(self)@.wf(),
            reply@ is Discovered ==> source_has_plural(old(event)@.modified),
        ensures
            (final(self)@, final(event)@) == old(self)@.step(old(event)@, reply@),
            final(self)@.wf(),
    {
        match (&self.phase, reply) {
            (DeletionPhase::Stop(_), DeletionReply::Stopped) => {
                *self = DeleteObjectSync::begin(event);
            },
            (DeletionPhase::Delete(_), DeletionReply::Deleted(r)) => match r {
                Ok(remaining) => {
                    let n: usize = remaining.len();
                    if n > 0 {
                        event.modified.update_destinations(remaining);
                        self.phase = DeletionPhase::Report(n);
                    } else {
                        self.phase = DeletionPhase::Discover;
                    }
                },
                Err(e) => {
                    self.phase = DeletionPhase::Finished(Err(e));
                },
            },
            (DeletionPhase::Report(n), DeletionReply::StatusReplaced(r)) => {
                let result: Result<(), ControllerError> = match r {
                    Ok(_) => {
                        let mut message = "failed to remove ".to_string();
                        message.append(text::decimal_text(*n as u64).as_str());
                        message.append(" destinations of ");
                        message.append(event.id().to_string().as_str());
                        Err(ControllerError::DestinationRemovalError(message))
                    },
                    Err(e) => Err(e),
                };
                self.phase = DeletionPhase::Finished(result);
            },
            (DeletionPhase::Discover, DeletionReply::Discovered(r)) => {
                proof {
                    if let Ok(group) = discovery::discovered_view(r) {
                        discovery::law_only_namespaced_kinds(event@.modified.spec.source, group);
                    }
                }
                self.phase = match discovery::get_gvk(&event.modified.spec.source, r) {
                    Ok(gvk) => DeletionPhase::GetSource(gvk),
                    Err(e) => DeletionPhase::Finished(Err(e)),
                };
            },
            (DeletionPhase::GetSource(gvk), DeletionReply::GotSource(r)) => match r {
                Ok(source) => {
                    let mut source = utils::ensure_gvk(source, gvk);
                    let gvk = gvk.clone();
                    match utils::remove_finalizer(&mut source, FINALIZER) {
                        Ok(Some(patch)) => {
                            self.phase = DeletionPhase::PatchSource(gvk, patch);
                        },
                        Ok(None) => {
                            self.release(event);
                        },
                        Err(e) => {
                            self.phase = DeletionPhase::Finished(Err(e));
                        },
                    }
                },
                Err(e) => {
                    if e.is_not_found() {
                        self.release(event);
                    } else {
                        self.phase = DeletionPhase::Finished(Err(ControllerError::KubeApi(e)));
                    }
                },
            },
            (
                DeletionPhase::PatchSource(_, _),
                DeletionReply::SourcePatched(r),
            ) => match utils::finalizer_removed(r) {
                Ok(_) => {
                    self.release(event);
                },
                Err(e) => {
                    self.phase = DeletionPhase::Finished(Err(e));
                },
            },
            (DeletionPhase::PatchSpec, DeletionReply::SpecPatched(r)) => {
                self.phase = DeletionPhase::Finished(
                    match r {
                        Ok(_) => Ok(()),
                        Err(e) => Err(ControllerError::Any(e.message())),
                    },
                );
            },
            _ => (),
        }
    }

    /// What is to be done next.
    pub fn action(&self, event: &ObjectSyncModifications) -> (res: DeletionAction)
        requires
            self@.wf(),
        ensures
            res@ == self@.action(event@.modified),
    {
        let source = SourceRef::from(event).0;
        match &self.phase {
            DeletionPhase::Stop(gvk) => DeletionAction::Stop(gvk.clone()),
            DeletionPhase::Delete(d) => DeletionAction::DeleteDestinations(
                reconcile_source::copy_list(d),
            ),
            DeletionPhase::Report(_) => DeletionAction::ReplaceStatus,
            DeletionPhase::Discover => DeletionAction::Discover {
                group: event.modified.spec.source.group.clone(),
            },
            DeletionPhase::GetSource(gvk) => DeletionAction::GetSource {
                resource: ApiResource::from_gvk(gvk),
                namespace: source.namespace,
                name: source.name,
            },
            DeletionPhase::PatchSource(gvk, patch) => DeletionAction::PatchSource {
                resource: ApiResource::from_gvk(gvk),
                namespace: source.namespace,
                patch: patch.clone(),
            },
            DeletionPhase::PatchSpec => DeletionAction::PatchSpec,
            DeletionPhase::Finished(r) => DeletionAction::Done(
                match r {
                    Ok(_) => Ok(()),
                    Err(e) => Err(e.clone()),
                },
            ),
        }
    }
}

/// On the deletion of an `ObjectSync`, the deletion of every tracked copy is asked
/// for before anything else is done.
pub proof fn law_deleted_object_sync_deletes_copies(event: api::ObjectSyncView)
    requires
        event.status_destinations() is Some,
    ensures
        DeleteObjectSyncView::begin(event).action(event) == DeletionActionView::DeleteDestinations(
            event.status_destinations()->0,
        ),
{
}

/// The finalizers stay, and the deletion fails, as long as a copy could not be
/// deleted: only once there are none left does it go on.
pub proof fn law_finalizers_stay_until_copies_are_gone(
    s: DeleteObjectSyncView,
    event: object_sync_modifications::ObjectSyncModificationsView,
    remaining: Seq<api::DestinationStatusView>,
)
    requires
        s.phase is Delete,
        remaining.len() > 0,
    ensures
        ({
            let (reporting, tracking) = s.step(event, DeletionReplyView::Deleted(Ok(remaining)));
            let (end, object) = reporting.step(tracking, DeletionReplyView::StatusReplaced(Ok(())));
            &&& reporting.action(tracking.modified) == DeletionActionView::ReplaceStatus
            &&& tracking.modified.status_destinations() == Some(remaining)
            &&& end.action(object.modified) == DeletionActionView::Done(
                Err(removal_error(remaining.len(), event.id().text())),
            )
            &&& object.modified.metadata == event.modified.metadata
        }),
{
}

/// The only ways past the deletion of the copies are that none is left, or that
/// none was tracked.
pub proof fn law_nothing_is_released_before_copies_are_gone(
    s: DeleteObjectSyncView,
    event: object_sync_modifications::ObjectSyncModificationsView,
    reply: DeletionReplyView,
)
    requires
        s.phase is Stop || s.phase is Delete || s.phase is Report,
    ensures
        ({
            let after = s.step(event, reply).0.phase;
            ||| after is Stop
            ||| after is Delete
            ||| after is Report
            ||| after matches DeletionPhaseView::Finished(Err(_))
            ||| after is Discover && s.phase is Delete && (reply matches DeletionReplyView::Deleted(
                Ok(remaining),
            ) && remaining.len() == 0)
            ||| after is Discover && s.phase is Stop && event.modified.status_destinations() is None
        }),
{
}

/// How many answers are ahead at most.
pub open spec fn deletion_measure(s: DeleteObjectSyncView) -> int {
    match s.phase {
        DeletionPhaseView::Stop(_) => 7,
        DeletionPhaseView::Delete(_) => 6,
        DeletionPhaseView::Report(_) => 5,
        DeletionPhaseView::Discover => 4,
        DeletionPhaseView::GetSource(_) => 3,
        DeletionPhaseView::PatchSource(_, _) => 2,
        DeletionPhaseView::PatchSpec => 1,
        DeletionPhaseView::Finished(_) => 0,
    }
}

/// Every answer that changes anything brings the end nearer.
pub proof fn law_deletion_makes_progress(
    s: DeleteObjectSyncView,
    event: object_sync_modifications::ObjectSyncModificationsView,
    reply: DeletionReplyView,
)
    ensures
        s.step(event, reply) == (s, event) || deletion_measure(s.step(event, reply).0)
            < deletion_measure(s),
{
}

/// Whether `after` differs from `before` in the finalizers of the modified object
/// alone: it has no longer the one of the syncer, and still all others.
pub open spec fn is_without_finalizer(
    before: object_sync_modifications::ObjectSyncModificationsView,
    after: object_sync_modifications::ObjectSyncModificationsView,
) -> bool {
    let ours = "sync.rustrial.org/rustrial-object-syncer"@;
    let b = before.modified.metadata;
    let a = after.modified.metadata;
    &&& after.original == before.original
    &&& after.modified.spec == before.modified.spec
    &&& after.modified.status == before.modified.status
    &&& (meta::ObjectMetaView { finalizers: None, ..a }) == (meta::ObjectMetaView {
        finalizers: None,
        ..b
    })
    &&& !meta::carries(a, ours)
    &&& forall|f: Text| f != ours ==> (#[trigger] meta::carries(a, f) <==> meta::carries(b, f))
}

/// Whether the source is done with: the object itself loses the finalizer, by a
/// patch where it has it, and that is the end where it has not.
pub open spec fn is_released(
    before: object_sync_modifications::ObjectSyncModificationsView,
    next: DeleteObjectSyncView,
    after: object_sync_modifications::ObjectSyncModificationsView,
) -> bool {
    let ours = "sync.rustrial.org/rustrial-object-syncer"@;
    &&& is_without_finalizer(before, after)
    &&& next.action(after.modified) == if meta::carries(before.modified.metadata, ours) {
        DeletionActionView::PatchSpec
    } else {
        DeletionActionView::Done(Ok(()))
    }
}

proof fn lemma_released(event: object_sync_modifications::ObjectSyncModificationsView)
    ensures
        ({
            let (next, after) = DeleteObjectSyncView::release(event);
            is_released(event, next, after)
        }),
{
    let ours = FINALIZER@;
    let list = event.modified.metadata.finalizer_list();
    utils::lemma_without_contains(list, ours, ours);
    let after = event.without_finalizer().modified.metadata;
    assert forall|f: Text| f != ours implies (#[trigger] meta::carries(after, f) <==> meta::carries(
        event.modified.metadata,
        f,
    )) by {
        utils::lemma_without_contains(list, ours, f);
    }
}

/// The source is read and patched where it is: under the name that the reference
/// gives, in the namespace that it gives, and only where it gives none in that of
/// the object itself. That is the object that was registered for.
pub proof fn law_the_source_itself_is_released(
    event: api::ObjectSyncView,
    gvk: meta::GroupVersionKindView,
    p: request::JsonPatchView,
)
    ensures
        DeleteObjectSyncView::at(DeletionPhaseView::GetSource(gvk)).action(event) matches DeletionActionView::GetSource {
            resource,
            namespace,
            name,
        } && {
            &&& name == event.spec.source.name
            &&& event.spec.source.namespace matches Some(ns) ==> namespace == ns
            &&& event.spec.source.namespace is None ==> (event.metadata.namespace matches Some(ns)
                ==> namespace == ns)
            &&& api::has_source_in(event, namespace)
            &&& namespace == sources::registration(event).0.namespace
            &&& name == sources::registration(event).0.name
            &&& resource.group == gvk.group && resource.version == gvk.version && resource.kind
                == gvk.kind && resource == gvk.api_resource()
        },
        DeleteObjectSyncView::at(DeletionPhaseView::PatchSource(gvk, p)).action(
            event,
        ) matches DeletionActionView::PatchSource { resource, namespace, patch } && {
            &&& event.spec.source.namespace matches Some(ns) ==> namespace == ns
            &&& event.spec.source.namespace is None ==> (event.metadata.namespace matches Some(ns)
                ==> namespace == ns)
            &&& api::has_source_in(event, namespace)
            &&& namespace == sources::registration(event).0.namespace
            &&& resource.group == gvk.group && resource.version == gvk.version && resource.kind
                == gvk.kind && resource == gvk.api_resource()
            &&& patch == p
        },
{
}

/// The deletion begins with the end of a resource controller that nothing uses any
/// more, then with the copies that the status tracks. Where it tracks none, the API
/// group of the source is read.
pub proof fn law_deletion_begins_with_the_copies(
    event: object_sync_modifications::ObjectSyncModificationsView,
    gvk: meta::GroupVersionKindView,
)
    ensures
        ({
            let stopping = DeleteObjectSyncView::start(event.modified, Some(gvk));
            let next = stopping.step(event, DeletionReplyView::Stopped);
            &&& stopping.action(event.modified) == DeletionActionView::Stop(gvk)
            &&& next == (DeleteObjectSyncView::start(event.modified, None), event)
        }),
        ({
            let next = DeleteObjectSyncView::start(event.modified, None).action(event.modified);
            match event.modified.status {
                Some(s) => match s.destinations {
                    Some(d) => next == DeletionActionView::DeleteDestinations(d),
                    None => next == (DeletionActionView::Discover {
                        group: event.modified.spec.source.group,
                    }),
                },
                None => next == (DeletionActionView::Discover {
                    group: event.modified.spec.source.group,
                }),
            }
        }),
{
}

/// After the copies were deleted, the API group of the source is read. Those that
/// remain are tracked, and the deletion fails once the status is written. An error
/// ends it all, with that error.
pub proof fn law_remaining_copies_fail_the_deletion(
    event: object_sync_modifications::ObjectSyncModificationsView,
    tracking: Seq<api::DestinationStatusView>,
    remaining: Seq<api::DestinationStatusView>,
    e: errors::ControllerErrorView,
)
    ensures
        ({
            let s = DeleteObjectSyncView::at(DeletionPhaseView::Delete(tracking));
            let (next, after) = s.step(event, DeletionReplyView::Deleted(Ok(remaining)));
            let (failing, unchanged) = s.step(event, DeletionReplyView::Deleted(Err(e)));
            &&& s.action(event.modified) == DeletionActionView::DeleteDestinations(tracking)
            &&& failing.action(event.modified) == DeletionActionView::Done(Err(e))
            &&& unchanged == event
            &&& remaining.len() == 0 ==> after == event && next.action(event.modified) == (
            DeletionActionView::Discover { group: event.modified.spec.source.group })
            &&& remaining.len() > 0 ==> {
                let reported = next.step(after, DeletionReplyView::StatusReplaced(Ok(())));
                let unreported = next.step(after, DeletionReplyView::StatusReplaced(Err(e)));
                &&& next.action(after.modified) == DeletionActionView::ReplaceStatus
                &&& after.original == event.original
                &&& after.modified.metadata == event.modified.metadata
                &&& after.modified.spec == event.modified.spec
                &&& after.modified.status matches Some(t) && t.destinations == Some(remaining)
                    && t.conditions == match event.modified.status {
                    Some(u) => u.conditions,
                    None => None,
                }
                &&& reported.1 == after
                &&& unreported.1 == after
                &&& reported.0.action(after.modified) == DeletionActionView::Done(
                    Err(
                        errors::ControllerErrorView::DestinationRemovalError(
                            "failed to remove "@ + text::decimal(remaining.len())
                                + " destinations of "@ + utils::NamespacedNameView::of(
                                event.modified.metadata,
                            ).text(),
                        ),
                    ),
                )
                &&& unreported.0.action(after.modified) == DeletionActionView::Done(Err(e))
            }
        }),
{
}

/// Once the API group is read, the source is read as an object of its kind. It is
/// patched where it carries the finalizer of the syncer. Where it does not, or is
/// not there, the object itself is released. Every other error ends the deletion.
pub proof fn law_source_loses_the_finalizer(
    event: object_sync_modifications::ObjectSyncModificationsView,
    discovered: Result<discovery::DiscoveredGroupView, Text>,
    gvk: meta::GroupVersionKindView,
    source: meta::DynamicObjectView,
    e: errors::KubeErrorView,
)
    ensures
        ({
            let s = DeleteObjectSyncView::at(DeletionPhaseView::Discover);
            let (next, after) = s.step(event, DeletionReplyView::Discovered(discovered));
            &&& after == event
            &&& match discovery::gvk_of(event.modified.spec.source, discovered) {
                Ok(kind) => next.phase == DeletionPhaseView::GetSource(kind),
                Err(x) => next.action(event.modified) == DeletionActionView::Done(Err(x)),
            }
        }),
        ({
            let s = DeleteObjectSyncView::at(DeletionPhaseView::GetSource(gvk));
            let (next, after) = s.step(event, DeletionReplyView::GotSource(Ok(source)));
            if meta::carries(source.metadata, "sync.rustrial.org/rustrial-object-syncer"@) {
                &&& after == event
                &&& match utils::finalizer_removal(
                    source.ensure_gvk(gvk),
                    "sync.rustrial.org/rustrial-object-syncer"@,
                ) {
                    Ok(Some(patch)) => next.phase == DeletionPhaseView::PatchSource(gvk, patch),
                    Ok(None) => false,
                    Err(x) => next.action(event.modified) == DeletionActionView::Done(Err(x)),
                }
            } else {
                is_released(event, next, after)
            }
        }),
        ({
            let s = DeleteObjectSyncView::at(DeletionPhaseView::GetSource(gvk));
            let (next, after) = s.step(event, DeletionReplyView::GotSource(Err(e)));
            if errors::is_status(e, 404) || errors::is_status(e, 410) {
                is_released(event, next, after)
            } else {
                &&& after == event
                &&& next.action(event.modified) == DeletionActionView::Done(
                    Err(errors::ControllerErrorView::KubeApi(e)),
                )
            }
        }),
{
    lemma_released(event);
}

/// Once the source was patched, or is gone, the object itself is released, and with
/// the patch of it the deletion is over.
pub proof fn law_object_is_released_last(
    event: object_sync_modifications::ObjectSyncModificationsView,
    gvk: meta::GroupVersionKindView,
    patch: request::JsonPatchView,
    patched: Result<(), errors::KubeErrorView>,
    e: errors::ControllerErrorView,
)
    ensures
        ({
            let s = DeleteObjectSyncView::at(DeletionPhaseView::PatchSource(gvk, patch));
            let (next, after) = s.step(event, DeletionReplyView::SourcePatched(patched));
            if patched matches Err(x) && !errors::is_status(x, 404) && !errors::is_status(x, 410) {
                &&& after == event
                &&& next.action(event.modified) == DeletionActionView::Done(
                    Err(errors::ControllerErrorView::KubeApi(patched->Err_0)),
                )
            } else {
                is_released(event, next, after)
            }
        }),
        ({
            let s = DeleteObjectSyncView::at(DeletionPhaseView::PatchSpec);
            let (next, after) = s.step(event, DeletionReplyView::SpecPatched(Ok(())));
            let (failing, unchanged) = s.step(event, DeletionReplyView::SpecPatched(Err(e)));
            &&& s.action(event.modified) == DeletionActionView::PatchSpec
            &&& after == event
            &&& unchanged == event
            &&& next.action(event.modified) == DeletionActionView::Done(Ok(()))
            &&& failing.action(event.modified) == DeletionActionView::Done(
                Err(errors::ControllerErrorView::Any(e.message())),
            )
        }),
{
    lemma_released(event);
}

/// A reply that nothing waits for changes nothing.
pub proof fn law_deletion_waits_for_its_reply(
    s: DeleteObjectSyncView,
    event: object_sync_modifications::ObjectSyncModificationsView,
    reply: DeletionReplyView,
)
    ensures
        match s.phase {
            DeletionPhaseView::Stop(_) => reply is Stopped,
            DeletionPhaseView::Delete(_) => reply is Deleted,
            DeletionPhaseView::Report(_) => reply is StatusReplaced,
            DeletionPhaseView::Discover => reply is Discovered,
            DeletionPhaseView::GetSource(_) => reply is GotSource,
            DeletionPhaseView::PatchSource(_, _) => reply is SourcePatched,
            DeletionPhaseView::PatchSpec => reply is SpecPatched,
            DeletionPhaseView::Finished(_) => false,
        } || s.step(event, reply) == (s, event),
        DeleteObjectSyncView::at(s.phase) == s,
{
}

/// What is asked for goes to the source that the object refers to: by its name, in
/// the namespace that the reference gives, and only where it gives none in that of
/// the object.
pub proof fn law_requests_go_to_the_source(
    s: &DeleteObjectSync,
    event: &ObjectSyncModifications,
    action: DeletionAction,
)
    requires
        call_ensures(DeleteObjectSync::action, (s, event), action),
    ensures
        action@ == s@.action(event@.modified),
        match action {
            DeletionAction::GetSource { resource, namespace, name } => {
                &&& name@ == event.modified.spec.source.name@
                &&& event.modified.spec.source.namespace matches Some(ns) ==> namespace@ == ns@
                &&& event.modified.spec.source.namespace is None ==> (
                event.modified.metadata.namespace matches Some(ns) ==> namespace@ == ns@)
                &&& api::has_source_in(event@.modified, namespace@)
            },
            DeletionAction::PatchSource { resource, namespace, patch } => {
                &&& event.modified.spec.source.namespace matches Some(ns) ==> namespace@ == ns@
                &&& event.modified.spec.source.namespace is None ==> (
                event.modified.metadata.namespace matches Some(ns) ==> namespace@ == ns@)
                &&& api::has_source_in(event@.modified, namespace@)
            },
            DeletionAction::Discover { group } => group@ == event.modified.spec.source.group@,
            _ => true,
        },
{
    let v = action@;
    match s@.phase {
        DeletionPhaseView::GetSource(gvk) => {
            law_the_source_itself_is_released(
                event@.modified,
                gvk,
                request::JsonPatchView {
                    name: Seq::empty(),
                    params: request::PatchParamsView::json(),
                    operations: Seq::empty(),
                },
            );
        },
        DeletionPhaseView::PatchSource(gvk, patch) => {
            law_the_source_itself_is_released(event@.modified, gvk, patch);
        },
        _ => {},
    }
}

/// The calls do what the laws on them say. The deletion begins once the object is
/// no longer registered: all other registrations stay, and where none is left for
/// its kind, the resource controller of that kind is stopped first.
pub proof fn law_deletion_of_an_object(
    controller: &mut ObjectSyncController,
    deleted: &ObjectSyncModifications,
    started: DeleteObjectSync,
    s: &mut DeleteObjectSync,
    event: &mut ObjectSyncModifications,
    reply: DeletionReply,
    x: object_sync_controller::ObjectSyncInstanceView,
)
    requires
        call_ensures(DeleteObjectSync::new, (controller, deleted), started),
        call_ensures(DeleteObjectSync::step, (s, event, reply), ()),
    ensures
        (final(s)@, final(event)@) == old(s)@.step(old(event)@, reply@),
        ({
            let id = utils::NamespacedNameView::of(deleted@.modified.metadata).text();
            let before = old(controller)@.instances;
            let after = final(controller)@.instances;
            &&& final(controller)@.configuration == old(controller)@.configuration
            &&& after.contains(x) <==> before.contains(x) && x.id != id
            &&& match object_sync_controller::instance(before, id) {
                Some(own) => if exists|i: int|
                    0 <= i < after.len() && (#[trigger] after[i]).gvk == own.gvk {
                    started@ == DeleteObjectSyncView::start(deleted@.modified, None)
                } else {
                    started@ == DeleteObjectSyncView::start(deleted@.modified, Some(own.gvk))
                },
                None => started@ == DeleteObjectSyncView::start(deleted@.modified, None),
            }
        }),
{
    let id = deleted@.id().text();
    let before = old(controller)@.instances;
    let after = final(controller)@.instances;
    text::lemma_filter_contains(
        before,
        |x: object_sync_controller::ObjectSyncInstanceView| x.id != id,
        x,
    );
    assert(after == before.filter(
        |x: object_sync_controller::ObjectSyncInstanceView| x.id != id,
    ));
    if let Some(own) = object_sync_controller::instance(before, id) {
        if object_sync_controller::uses(after, own.gvk) {
            let y = choose|y: object_sync_controller::ObjectSyncInstanceView| #[trigger]
                after.contains(y) && y.gvk == own.gvk;
            let i = choose|i: int| 0 <= i < after.len() && after[i] == y;
            assert(after[i].gvk == own.gvk);
        } else {
            assert forall|i: int| 0 <= i < after.len() implies (#[trigger] after[i]).gvk
                != own.gvk by {
                assert(after.contains(after[i]));
            }
        }
    }
}

} // verus!
