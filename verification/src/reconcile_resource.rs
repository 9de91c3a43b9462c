//! The reconciliation of one source object: for each `ObjectSync` that refers to
//! it, its copies are synchronized, or deleted where the source is being deleted.
//! The source that is being deleted is held by the finalizer until no copy of it
//! is left.
use crate::api;
use crate::api::ObjectSync;
use crate::errors;
use crate::errors::{ControllerError, KubeError};
use crate::meta;
use crate::meta::{DynamicObject, TypeMeta};
use crate::object_sync_modifications;
use crate::object_sync_modifications::ObjectSyncModifications;
use crate::request;
use crate::request::{ApplyPatch, JsonPatch, FINALIZER};
use crate::resource_controller::ResourceControllerImpl;
use crate::schedule;
use crate::schedule::{schedule_after_error, Schedule};
use crate::sources::Sources;
use crate::text;
use crate::text::Text;
use crate::utils;
use crate::utils::NamespacedName;
use vstd::prelude::*;

verus! {

/// The seconds after which a source object is looked at again, to eliminate
/// drift of the copies.
pub const RESYNC_SECONDS: u64 = 300;

/// What the reconciliation waits for.
pub enum ResourcePhase {
    /// The patch that adds the finalizer to the source.
    AddFinalizer(ApplyPatch),
    /// The current `ObjectSync`.
    Get,
    /// The deletion of the copies, as the source is being deleted.
    SourceDeleted(ObjectSyncModifications),
    /// The patch that removes the finalizer from the source.
    RemoveFinalizer(JsonPatch),
    /// The synchronization of the copies.
    ReconcileSource(ObjectSyncModifications),
    /// Nothing: the reconciliation has come to its end.
    Finished,
}

/// The model of [`ResourcePhase`].
pub enum ResourcePhaseView {
    AddFinalizer(request::ApplyPatchView),
    Get,
    SourceDeleted(object_sync_modifications::ObjectSyncModificationsView),
    RemoveFinalizer(request::JsonPatchView),
    ReconcileSource(object_sync_modifications::ObjectSyncModificationsView),
    Finished,
}

impl View for ResourcePhase {
    type V = ResourcePhaseView;

    open spec fn view(&self) -> ResourcePhaseView {
        match self {
            ResourcePhase::AddFinalizer(p) => ResourcePhaseView::AddFinalizer(p@),
            ResourcePhase::Get => ResourcePhaseView::Get,
            ResourcePhase::SourceDeleted(m) => ResourcePhaseView::SourceDeleted(m@),
            ResourcePhase::RemoveFinalizer(p) => ResourcePhaseView::RemoveFinalizer(p@),
            ResourcePhase::ReconcileSource(m) => ResourcePhaseView::ReconcileSource(m@),
            ResourcePhase::Finished => ResourcePhaseView::Finished,
        }
    }
}

/// What was done.
pub enum ResourceReply {
    /// The finalizer was added to the source.
    FinalizerAdded(Result<(), KubeError>),
    /// The `ObjectSync` was read.
    Got(Result<ObjectSync, KubeError>),
    /// The copies of the deleted source were deleted, but for some that remain.
    SourceDeleted { result: Result<(), ControllerError>, remaining: usize },
    /// The finalizer was removed from the source.
    FinalizerRemoved(Result<(), KubeError>),
    /// The copies were synchronized.
    Reconciled(Result<(), ControllerError>),
}

/// The model of [`ResourceReply`].
pub enum ResourceReplyView {
    FinalizerAdded(Result<(), errors::KubeErrorView>),
    Got(Result<api::ObjectSyncView, errors::KubeErrorView>),
    SourceDeleted { result: Result<(), errors::ControllerErrorView>, remaining: nat },
    FinalizerRemoved(Result<(), errors::KubeErrorView>),
    Reconciled(Result<(), errors::ControllerErrorView>),
}

impl View for ResourceReply {
    type V = ResourceReplyView;

    open spec fn view(&self) -> ResourceReplyView {
        match self {
            ResourceReply::FinalizerAdded(r) => ResourceReplyView::FinalizerAdded(text::view_res(*r)),
            ResourceReply::Got(r) => ResourceReplyView::Got(text::view_res(*r)),
            ResourceReply::SourceDeleted { result, remaining } => ResourceReplyView::SourceDeleted {
                result: text::view_res(*result),
                remaining: *remaining as nat,
            },
            ResourceReply::FinalizerRemoved(r) => ResourceReplyView::FinalizerRemoved(
                text::view_res(*r),
            ),
            ResourceReply::Reconciled(r) => ResourceReplyView::Reconciled(text::view_res(*r)),
        }
    }
}

/// What is to be done next.
pub enum ResourceAction {
    /// Apply the patch to the source.
    AddFinalizer { namespace: String, apply: ApplyPatch },
    /// Read the `ObjectSync`.
    Get(NamespacedName),
    /// Delete the copies for this `ObjectSync`.
    SourceDeleted(ObjectSyncModifications),
    /// Patch the source.
    RemoveFinalizer { namespace: String, patch: JsonPatch },
    /// Synchronize the copies of the source for this `ObjectSync`.
    ReconcileSource { event: ObjectSyncModifications, source: DynamicObject },
    /// Nothing more, until the source is looked at again.
    Done(Schedule),
}

/// The model of [`ResourceAction`].
pub enum ResourceActionView {
    AddFinalizer { namespace: Text, apply: request::ApplyPatchView },
    Get(utils::NamespacedNameView),
    SourceDeleted(object_sync_modifications::ObjectSyncModificationsView),
    RemoveFinalizer { namespace: Text, patch: request::JsonPatchView },
    ReconcileSource {
        event: object_sync_modifications::ObjectSyncModificationsView,
        source: meta::DynamicObjectView,
    },
    Done(Schedule),
}

impl View for ResourceAction {
    type V = ResourceActionView;

    open spec fn view(&self) -> ResourceActionView {
        match self {
            ResourceAction::AddFinalizer { namespace, apply } => ResourceActionView::AddFinalizer {
                namespace: namespace@,
                apply: apply@,
            },
            ResourceAction::Get(name) => ResourceActionView::Get(name@),
            ResourceAction::SourceDeleted(m) => ResourceActionView::SourceDeleted(m@),
            ResourceAction::RemoveFinalizer {
                namespace,
                patch,
            } => ResourceActionView::RemoveFinalizer { namespace: namespace@, patch: patch@ },
            ResourceAction::ReconcileSource { event, source } => ResourceActionView::ReconcileSource {
                event: event@,
                source: source@,
            },
            ResourceAction::Done(s) => ResourceActionView::Done(*s),
        }
    }
}

/// The reconciliation of one source object under way.
pub struct ReconcileResource {
    source: DynamicObject,
    configurations: Vec<NamespacedName>,
    index: usize,
    blocked: bool,
    phase: ResourcePhase,
}

/// The model of [`ReconcileResource`].
#[verifier::ext_equal]
pub struct ReconcileResourceView {
    /// The source object.
    pub source: meta::DynamicObjectView,
    /// The `ObjectSync` objects that refer to it.
    pub configurations: Seq<utils::NamespacedNameView>,
    /// How many of them are done with.
    pub index: int,
    /// Whether copies may be left for one of those, so that a source that is
    /// being deleted has to stay.
    pub blocked: bool,
    /// What the reconciliation waits for.
    pub phase: ResourcePhaseView,
}

impl View for ReconcileResource {
    type V = ReconcileResourceView;

    closed spec fn view(&self) -> ReconcileResourceView {
        ReconcileResourceView {
            source: self.source@,
            configurations: text::views(self.configurations@),
            index: self.index as int,
            blocked: self.blocked,
            phase: self.phase@,
        }
    }
}

impl meta::DynamicObjectView {
    /// The object with the type information that server-side apply asks for.
    pub open spec fn typed(self, gvk: meta::GroupVersionKindView) -> meta::DynamicObjectView {
        meta::DynamicObjectView {
            types: Some(meta::TypeMetaView { api_version: gvk.api_version(), kind: gvk.kind }),
            ..self
        }
    }
}

impl ReconcileResourceView {
    /// The reconciliation of `source` for the `configurations`, not begun: a
    /// source that is not being deleted gets the finalizer first.
    pub open spec fn start(
        source: meta::DynamicObjectView,
        configurations: Seq<utils::NamespacedNameView>,
    ) -> ReconcileResourceView {
        ReconcileResourceView {
            source,
            configurations,
            index: 0,
            blocked: false,
            phase: if configurations.len() == 0 {
                ResourcePhaseView::Finished
            } else if source.metadata.live() {
                match utils::finalizer_addition(source, FINALIZER@) {
                    Some(patch) => ResourcePhaseView::AddFinalizer(patch),
                    None => ResourcePhaseView::Get,
                }
            } else {
                ResourcePhaseView::Get
            },
        }
    }

    /// What holds at every step: there is a current configuration until all are
    /// done with, copies are synchronized only for a source that is not being
    /// deleted, and deleted only for one that is, and only one of which no copy
    /// is left is released.
    pub open spec fn wf(self) -> bool {
        &&& 0 <= self.index <= self.configurations.len()
        &&& (self.phase is Finished || self.phase is RemoveFinalizer) <==> self.index
            == self.configurations.len()
        &&& self.phase is AddFinalizer || self.phase is ReconcileSource
            ==> self.source.metadata.live()
        &&& self.phase is SourceDeleted || self.phase is RemoveFinalizer
            ==> !self.source.metadata.live()
        &&& self.phase is RemoveFinalizer ==> !self.blocked
    }

    /// The configuration at hand.
    pub open spec fn current(self) -> utils::NamespacedNameView {
        self.configurations[self.index]
    }

    /// The reconciliation waits for `phase`.
    pub open spec fn await_phase(self, phase: ResourcePhaseView) -> ReconcileResourceView {
        ReconcileResourceView { phase, ..self }
    }

    /// The next configuration comes.
    pub open spec fn advance(self) -> ReconcileResourceView {
        ReconcileResourceView {
            index: self.index + 1,
            phase: if self.index + 1 == self.configurations.len() {
                ResourcePhaseView::Finished
            } else {
                ResourcePhaseView::Get
            },
            ..self
        }
    }

    /// The source loses the finalizer, where it has it.
    pub open spec fn release_source(self) -> ReconcileResourceView {
        let released = ReconcileResourceView {
            source: self.source.without_finalizer(FINALIZER@),
            ..self
        };
        match utils::finalizer_removal(self.source, FINALIZER@) {
            Ok(Some(patch)) => released.await_phase(ResourcePhaseView::RemoveFinalizer(patch)),
            _ => released.await_phase(ResourcePhaseView::Finished),
        }
    }

    /// The copies of the deleted source are dealt with for the configuration at
    /// hand, and where it is `clear` none is left: the next configuration comes,
    /// and after the last one the source is released, unless copies may be left.
    pub open spec fn conclude(self, clear: bool) -> ReconcileResourceView {
        let next = ReconcileResourceView { blocked: self.blocked || !clear, ..self }.advance();
        if next.phase is Finished && !next.blocked {
            next.release_source()
        } else {
            next
        }
    }

    /// What follows on `reply`:
    /// - the copies are synchronized for every configuration that can be read,
    ///   or deleted where the source is being deleted;
    /// - the source that is being deleted loses the finalizer once every
    ///   configuration is gone or has no copy left.
    pub open spec fn step(self, reply: ResourceReplyView) -> ReconcileResourceView {
        match (self.phase, reply) {
            (
                ResourcePhaseView::AddFinalizer(_),
                ResourceReplyView::FinalizerAdded(r),
            ) => ReconcileResourceView {
                source: if r is Ok {
                    self.source.plus_finalizer(FINALIZER@)
                } else {
                    self.source
                },
                phase: ResourcePhaseView::Get,
                ..self
            },
            (ResourcePhaseView::Get, ResourceReplyView::Got(r)) => match r {
                Ok(o) => {
                    let event = object_sync_modifications::ObjectSyncModificationsView::settled(o);
                    if self.source.metadata.live() {
                        self.await_phase(ResourcePhaseView::ReconcileSource(event))
                    } else {
                        self.await_phase(ResourcePhaseView::SourceDeleted(event))
                    }
                },
                Err(e) => if self.source.metadata.live() {
                    self.advance()
                } else {
                    self.conclude(e.not_found())
                },
            },
            (
                ResourcePhaseView::SourceDeleted(_),
                ResourceReplyView::SourceDeleted { result, remaining },
            ) => self.conclude(result is Ok && remaining == 0),
            (
                ResourcePhaseView::RemoveFinalizer(_),
                ResourceReplyView::FinalizerRemoved(_),
            ) => self.await_phase(ResourcePhaseView::Finished),
            (ResourcePhaseView::ReconcileSource(_), ResourceReplyView::Reconciled(_)) => {
                self.advance()
            },
            _ => self,
        }
    }

    /// When the source is looked at again: a source that no `ObjectSync` refers
    /// to only when it changes.
    pub open spec fn schedule(self) -> Schedule {
        if self.configurations.len() == 0 {
            Schedule::AwaitChange
        } else {
            Schedule::Requeue(RESYNC_SECONDS)
        }
    }

    /// What is to be done next.
    pub open spec fn action(self) -> ResourceActionView {
        let namespace = utils::NamespacedNameView::of(self.source.metadata).namespace;
        match self.phase {
            ResourcePhaseView::AddFinalizer(apply) => ResourceActionView::AddFinalizer {
                namespace,
                apply,
            },
            ResourcePhaseView::Get => ResourceActionView::Get(self.current()),
            ResourcePhaseView::SourceDeleted(m) => ResourceActionView::SourceDeleted(m),
            ResourcePhaseView::RemoveFinalizer(patch) => ResourceActionView::RemoveFinalizer {
                namespace,
                patch,
            },
            ResourcePhaseView::ReconcileSource(event) => ResourceActionView::ReconcileSource {
                event,
                source: self.source,
            },
            ResourcePhaseView::Finished => ResourceActionView::Done(self.schedule()),
        }
    }

    /// Where a sequence of replies leads.
    pub open spec fn run(self, replies: Seq<ResourceReplyView>) -> ReconcileResourceView
        decreases replies.len(),
    {
        if replies.len() == 0 {
            self
        } else {
            self.run(replies.drop_last()).step(replies.last())
        }
    }
}

impl ResourceControllerImpl {
    /// The modifications of an `ObjectSync` that was read, none where it could
    /// not be read.
    pub fn get_object_sync(reply: Result<ObjectSync, KubeError>) -> (res: Option<
        ObjectSyncModifications,
    >)
        ensures
            text::view_opt(res) == (match reply {
                Ok(o) => Some(object_sync_modifications::ObjectSyncModificationsView::settled(o@)),
                Err(_) => None,
            }),
    {
        match reply {
            Ok(o) => Some(ObjectSyncModifications::new(o)),
            Err(_) => None,
        }
    }

    /// When an object is looked at again after an error.
    pub fn error_policy(error: &ControllerError) -> (res: Schedule)
        ensures
            res == schedule::after_error(error@),
    {
        schedule_after_error(error)
    }
}

impl ReconcileResource {
    /// The reconciliation of `source`, not begun. Where the sources of its
    /// namespace are not looked at, it is for no configuration.
    pub fn new(controller: &ResourceControllerImpl, source: DynamicObject, sources: &Sources) -> (res:
        Self)
        ensures
            res@ == ReconcileResourceView::start(
                source@.typed(controller@.gvk),
                res@.configurations,
            ),
            res@.wf(),
            res@.configurations.no_duplicates(),
            forall|crd: utils::NamespacedNameView|
                #![trigger res@.configurations.contains(crd)]
                res@.configurations.contains(crd) <==> controller@.configuration.reads_from(
                    text::or_empty(source@.metadata.namespace),
                ) && sources@.contains((utils::NamespacedNameView::of(source@.metadata), crd)),
    {
        let name = NamespacedName::from(&source);
        let configurations: Vec<NamespacedName> = if controller.configuration.reads_from(
            name.namespace.as_str(),
        ) {
            sources.of(&name)
        } else {
            Vec::new()
        };
        let mut source = source;
        source.types = Some(
            TypeMeta {
                api_version: controller.gvk.api_version(),
                kind: controller.gvk.kind.clone(),
            },
        );
        let phase: ResourcePhase = if configurations.is_empty() {
            ResourcePhase::Finished
        } else if source.metadata.deletion_timestamp.is_none() {
            match utils::add_finalizer_if_missing(&source, FINALIZER) {
                Some(patch) => ResourcePhase::AddFinalizer(patch),
                None => ResourcePhase::Get,
            }
        } else {
            ResourcePhase::Get
        };
        ReconcileResource { source, configurations, index: 0, blocked: false, phase }
    }

    fn advance(&mut self)
        requires
            old(self)@.index < old(self)@.configurations.len(),
        ensures
            final(self)@ == old(self)@.advance(),
    {
        let total: usize = self.configurations.len();
        self.index = self.index + 1;
        self.phase = if self.index == total {
            ResourcePhase::Finished
        } else {
            ResourcePhase::Get
        };
    }

    fn conclude(&mut self, clear: bool)
        requires
            old(self)@.wf(),
            old(self)@.index < old(self)@.configurations.len(),
            !old(self)@.source.metadata.live(),
        ensures
            final(self)@ == old(self)@.conclude(clear),
            final(self)@.wf(),
    {
        self.blocked = self.blocked || !clear;
        self.advance();
        if self.index == self.configurations.len() && !self.blocked {
            self.phase = match utils::remove_finalizer(&mut self.source, FINALIZER) {
                Ok(Some(patch)) => ResourcePhase::RemoveFinalizer(patch),
                _ => ResourcePhase::Finished,
            };
        }
    }

    /// Takes over what was done. An answer that is not waited for changes
    /// nothing.
    pub fn step(&mut self, reply: ResourceReply)
        requires
            old(self)@.wf(),
        ensures
            final(self)@ == old(self)@.step(reply@),
            final(self)@.wf(),
    {
        let live: bool = self.source.metadata.deletion_timestamp.is_none();
        match (&self.phase, reply) {
            (ResourcePhase::AddFinalizer(_), ResourceReply::FinalizerAdded(r)) => {
                let _ = utils::finalizer_added(&mut self.source, FINALIZER, r);
                self.phase = ResourcePhase::Get;
            },
            (
                ResourcePhase::Get,
                ResourceReply::Got(r),
            ) => {
                let gone: bool = match &r {
                    Ok(_) => false,
                    Err(e) => e.is_not_found(),
                };
                match ResourceControllerImpl::get_object_sync(r) {
                    Some(event) => {
                        self.phase = if live {
                            ResourcePhase::ReconcileSource(event)
                        } else {
                            ResourcePhase::SourceDeleted(event)
                        };
                    },
                    None => {
                        if live {
                            self.advance();
                        } else {
                            self.conclude(gone);
                        }
                    },
                }
            },
            (
                ResourcePhase::SourceDeleted(_),
                ResourceReply::SourceDeleted { result, remaining },
            ) => {
                self.conclude(result.is_ok() && remaining == 0);
            },
            (ResourcePhase::RemoveFinalizer(_), ResourceReply::FinalizerRemoved(_)) => {
                self.phase = ResourcePhase::Finished;
            },
            (ResourcePhase::ReconcileSource(_), ResourceReply::Reconciled(_)) => {
                self.advance();
            },
            _ => (),
        }
    }

    /// What is to be done next.
    pub fn action(&self) -> (res: ResourceAction)
        requires
            self@.wf(),
        ensures
            res@ == self@.action(),
    {
        let namespace = self.source.metadata.namespace_or_empty();
        match &self.phase {
            ResourcePhase::AddFinalizer(apply) => ResourceAction::AddFinalizer {
                namespace,
                apply: apply.clone(),
            },
            ResourcePhase::Get => {
                let name = self.configurations[self.index].clone();
                assert(self@.current() == name@);
                ResourceAction::Get(name)
            },
            ResourcePhase::SourceDeleted(event) => ResourceAction::SourceDeleted(event.clone()),
            ResourcePhase::RemoveFinalizer(patch) => ResourceAction::RemoveFinalizer {
                namespace,
                patch: patch.clone(),
            },
            ResourcePhase::ReconcileSource(event) => ResourceAction::ReconcileSource {
                event: event.clone(),
                source: self.source.clone(),
            },
            ResourcePhase::Finished => ResourceAction::Done(
                if self.configurations.is_empty() {
                    Schedule::AwaitChange
                } else {
                    Schedule::Requeue(RESYNC_SECONDS)
                },
            ),
        }
    }
}

/// The configurations that were read on the way, in the order in which they were.
pub open spec fn visited(
    s: ReconcileResourceView,
    replies: Seq<ResourceReplyView>,
) -> Seq<utils::NamespacedNameView>
    decreases replies.len(),
{
    if replies.len() == 0 {
        Seq::empty()
    } else {
        let before = visited(s, replies.drop_last());
        let at = s.run(replies.drop_last());
        if at.phase is Get && replies.last() is Got {
            before.push(at.current())
        } else {
            before
        }
    }
}

/// How many configurations have been read.
spec fn read_count(s: ReconcileResourceView) -> int {
    match s.phase {
        ResourcePhaseView::SourceDeleted(_) => s.index + 1,
        ResourcePhaseView::ReconcileSource(_) => s.index + 1,
        _ => s.index,
    }
}

proof fn lemma_resource_run(s: ReconcileResourceView, replies: Seq<ResourceReplyView>)
    requires
        s.wf(),
        s.index == 0,
        read_count(s) == 0,
    ensures
        s.run(replies).wf(),
        s.run(replies).configurations == s.configurations,
        s.run(replies).source.metadata.live() == s.source.metadata.live(),
        s.run(replies).source.data == s.source.data,
        visited(s, replies) == s.configurations.take(read_count(s.run(replies))),
    decreases replies.len(),
{
    if replies.len() > 0 {
        lemma_resource_run(s, replies.drop_last());
        let a = s.run(replies.drop_last());
        let b = a.step(replies.last());
        let c = s.configurations;
        if a.phase is Get && replies.last() is Got {
            assert(read_count(b) == a.index + 1);
            assert(c.take(a.index + 1) =~= c.take(a.index).push(c[a.index]));
        }
    } else {
        assert(s.configurations.take(0) =~= Seq::empty());
    }
}

/// A reconciliation that has come to its end has read every configuration that
/// refers to the source, each once.
pub proof fn law_every_configuration_is_visited(
    source: meta::DynamicObjectView,
    configurations: Seq<utils::NamespacedNameView>,
    replies: Seq<ResourceReplyView>,
)
    requires
        ReconcileResourceView::start(source, configurations).run(replies).action() is Done,
    ensures
        visited(ReconcileResourceView::start(source, configurations), replies) == configurations,
{
    let s = ReconcileResourceView::start(source, configurations);
    lemma_resource_run(s, replies);
    assert(configurations.take(configurations.len() as int) =~= configurations);
}

/// Copies are synchronized only while the source is not being deleted, and are
/// deleted on its account only while it is. What is synchronized has the content
/// of the source that the reconciliation began with.
pub proof fn law_deletion_decides(
    source: meta::DynamicObjectView,
    configurations: Seq<utils::NamespacedNameView>,
    replies: Seq<ResourceReplyView>,
)
    ensures
        ({
            let at = ReconcileResourceView::start(source, configurations).run(replies);
            &&& at.action() matches ResourceActionView::ReconcileSource { source: written, .. }
                ==> source.metadata.live() && written.data == source.data
            &&& at.action() is SourceDeleted ==> !source.metadata.live()
            &&& at.action() is AddFinalizer ==> source.metadata.live()
            &&& at.action() is RemoveFinalizer ==> !source.metadata.live()
        }),
{
    lemma_resource_run(ReconcileResourceView::start(source, configurations), replies);
}

/// The configurations for which no copy of a source that is being deleted is
/// left, in the order in which they were found to be so: they are gone, or all
/// their copies were deleted.
pub open spec fn cleared(
    s: ReconcileResourceView,
    replies: Seq<ResourceReplyView>,
) -> Seq<utils::NamespacedNameView>
    decreases replies.len(),
{
    if replies.len() == 0 {
        Seq::empty()
    } else {
        let before = cleared(s, replies.drop_last());
        let at = s.run(replies.drop_last());
        let clear = match (at.phase, replies.last()) {
            (ResourcePhaseView::Get, ResourceReplyView::Got(Err(e))) => e.not_found(),
            (
                ResourcePhaseView::SourceDeleted(_),
                ResourceReplyView::SourceDeleted { result, remaining },
            ) => result is Ok && remaining == 0,
            _ => false,
        };
        if clear {
            before.push(at.current())
        } else {
            before
        }
    }
}

proof fn lemma_cleared(s: ReconcileResourceView, replies: Seq<ResourceReplyView>)
    requires
        s.wf(),
        s.index == 0,
        read_count(s) == 0,
        !s.blocked,
        !s.source.metadata.live(),
    ensures
        ({
            let at = s.run(replies);
            &&& cleared(s, replies).len() <= at.index
            &&& at.blocked <==> cleared(s, replies).len() < at.index
            &&& !at.blocked ==> cleared(s, replies) == s.configurations.take(at.index)
            &&& at.index < s.configurations.len() ==> at.source == s.source
        }),
    decreases replies.len(),
{
    if replies.len() > 0 {
        let earlier = replies.drop_last();
        lemma_cleared(s, earlier);
        lemma_resource_run(s, earlier);
        let a = s.run(earlier);
        let c = s.configurations;
        if a.index < c.len() {
            assert(c.take(a.index + 1) =~= c.take(a.index).push(c[a.index]));
        }
    } else {
        assert(s.configurations.take(0) =~= Seq::empty());
    }
}

/// The finalizer is taken off the source only after every configuration that
/// refers to it was visited, and each was gone or had no copy left.
pub proof fn law_finalizer_stays_until_copies_are_deleted(
    source: meta::DynamicObjectView,
    configurations: Seq<utils::NamespacedNameView>,
    replies: Seq<ResourceReplyView>,
)
    requires
        ReconcileResourceView::start(source, configurations).run(
            replies,
        ).action() is RemoveFinalizer,
    ensures
        visited(ReconcileResourceView::start(source, configurations), replies) == configurations,
        cleared(ReconcileResourceView::start(source, configurations), replies) == configurations,
{
    let s = ReconcileResourceView::start(source, configurations);
    lemma_resource_run(s, replies);
    lemma_cleared(s, replies);
    assert(configurations.take(configurations.len() as int) =~= configurations);
}

/// A source that is being deleted and has the finalizer loses it as soon as every
/// configuration is gone or has no copy left.
pub proof fn law_deleted_source_is_released(
    source: meta::DynamicObjectView,
    configurations: Seq<utils::NamespacedNameView>,
    replies: Seq<ResourceReplyView>,
    reply: ResourceReplyView,
)
    requires
        !source.metadata.live(),
        utils::finalizer_removal(source, FINALIZER@) matches Ok(Some(_)),
        cleared(ReconcileResourceView::start(source, configurations), replies) != configurations,
        cleared(ReconcileResourceView::start(source, configurations), replies.push(reply))
            == configurations,
    ensures
        ReconcileResourceView::start(source, configurations).run(
            replies.push(reply),
        ).action() is RemoveFinalizer,
{
    let s = ReconcileResourceView::start(source, configurations);
    let all = replies.push(reply);
    assert(all.drop_last() =~= replies);
    lemma_resource_run(s, replies);
    lemma_cleared(s, replies);
    lemma_resource_run(s, all);
    lemma_cleared(s, all);
    assert(configurations.take(configurations.len() as int) =~= configurations);
}

/// How many answers are ahead at most.
pub open spec fn resource_measure(s: ReconcileResourceView) -> int {
    3 * (s.configurations.len() - s.index) + match s.phase {
        ResourcePhaseView::AddFinalizer(_) => 2int,
        ResourcePhaseView::Get => 1,
        ResourcePhaseView::SourceDeleted(_) => 0,
        ResourcePhaseView::ReconcileSource(_) => 0,
        ResourcePhaseView::RemoveFinalizer(_) => 1,
        ResourcePhaseView::Finished => 0,
    }
}

/// Every answer that changes anything brings the end nearer.
pub proof fn law_resource_makes_progress(s: ReconcileResourceView, reply: ResourceReplyView)
    requires
        s.wf(),
    ensures
        s.step(reply) == s || 0 <= resource_measure(s.step(reply)) < resource_measure(s),
        resource_measure(s.step(reply)) == 0 <==> s.step(reply).phase is Finished,
{
}

/// A source that no `ObjectSync` refers to is left alone until it changes.
pub proof fn law_untracked_source_is_left_alone(source: meta::DynamicObjectView)
    ensures
        ReconcileResourceView::start(source, Seq::empty()).action() == ResourceActionView::Done(
            Schedule::AwaitChange,
        ),
{
}

/// Whether `next` has gone on to the next object that refers to the source, or has
/// come to its end after the last one, to look again in five minutes.
pub open spec fn is_gone_on(s: ReconcileResourceView, next: ReconcileResourceView) -> bool {
    &&& next.source == s.source
    &&& next.configurations == s.configurations
    &&& next.index == s.index + 1
    &&& if s.index + 1 < s.configurations.len() {
        next.phase is Get && next.action() == ResourceActionView::Get(
            s.configurations[s.index + 1],
        )
    } else {
        next.action() == ResourceActionView::Done(Schedule::Requeue(300))
    }
}

/// Whether `next` has gone on after the copies for the current object were dealt
/// with, where `clear` says that none is left. After the last one the source loses
/// the finalizer, and it does so only where none is left for any of them.
pub open spec fn is_concluded(
    s: ReconcileResourceView,
    clear: bool,
    next: ReconcileResourceView,
) -> bool {
    if s.index + 1 < s.configurations.len() || s.blocked || !clear {
        &&& is_gone_on(s, next)
        &&& next.blocked == (s.blocked || !clear)
    } else {
        match utils::finalizer_removal(s.source, "sync.rustrial.org/rustrial-object-syncer"@) {
            Ok(Some(patch)) => next.action() matches ResourceActionView::RemoveFinalizer {
                namespace,
                patch: p,
            } && p == patch && meta::is_in(s.source.metadata, namespace),
            _ => next.action() == ResourceActionView::Done(Schedule::Requeue(300)),
        }
    }
}

/// The reconciliation of a source starts at the first object that refers to it. A
/// source that is not being deleted and lacks the finalizer of the syncer gets it
/// first, by a patch of the source. A source that nothing refers to is left alone
/// until it changes.
pub proof fn law_source_gets_the_finalizer_first(
    source: meta::DynamicObjectView,
    configurations: Seq<utils::NamespacedNameView>,
)
    ensures
        ({
            let s = ReconcileResourceView::start(source, configurations);
            let ours = "sync.rustrial.org/rustrial-object-syncer"@;
            &&& s.source == source
            &&& s.configurations == configurations
            &&& s.index == 0
            &&& !s.blocked
            &&& if configurations.len() == 0 {
                s.action() == ResourceActionView::Done(Schedule::AwaitChange)
            } else if source.metadata.deletion_timestamp is None && !meta::carries(
                source.metadata,
                ours,
            ) {
                s.action() matches ResourceActionView::AddFinalizer { namespace, apply }
                    && utils::finalizer_addition(source, ours) == Some(apply) && meta::is_in(
                    source.metadata,
                    namespace,
                )
            } else {
                s.phase is Get && s.action() == ResourceActionView::Get(configurations[0])
            }
        }),
{
}

/// After the patch the first object is read, whether or not the patch succeeded. The
/// source has the finalizer where it did.
pub proof fn law_reconciliation_goes_on_after_the_patch(
    s: ReconcileResourceView,
    reply: Result<(), errors::KubeErrorView>,
)
    requires
        0 <= s.index < s.configurations.len(),
        s.phase is AddFinalizer,
    ensures
        ({
            let next = s.step(ResourceReplyView::FinalizerAdded(reply));
            &&& next.phase is Get
            &&& next.action() == ResourceActionView::Get(s.configurations[s.index])
            &&& next.configurations == s.configurations
            &&& next.index == s.index
            &&& next.blocked == s.blocked
            &&& reply is Ok ==> next.source == s.source.plus_finalizer(
                "sync.rustrial.org/rustrial-object-syncer"@,
            )
            &&& reply is Err ==> next.source == s.source
        }),
{
}

/// For an object that was read, the copies of the source are synchronized, or
/// deleted where the source is being deleted. One that could not be read is passed
/// over, and where the source is being deleted it has to stay, unless the object is
/// gone.
pub proof fn law_each_object_is_dealt_with(
    s: ReconcileResourceView,
    o: api::ObjectSyncView,
    e: errors::KubeErrorView,
)
    requires
        0 <= s.index < s.configurations.len(),
        s.phase is Get,
    ensures
        ({
            let next = s.step(ResourceReplyView::Got(Ok(o)));
            let event = object_sync_modifications::ObjectSyncModificationsView {
                original: o,
                modified: o,
            };
            &&& next.source == s.source
            &&& next.configurations == s.configurations
            &&& next.index == s.index
            &&& next.blocked == s.blocked
            &&& next.action() == if s.source.metadata.deletion_timestamp is None {
                ResourceActionView::ReconcileSource { event, source: s.source }
            } else {
                ResourceActionView::SourceDeleted(event)
            }
        }),
        ({
            let next = s.step(ResourceReplyView::Got(Err(e)));
            if s.source.metadata.deletion_timestamp is None {
                is_gone_on(s, next) && next.blocked == s.blocked
            } else {
                is_concluded(s, errors::is_status(e, 404) || errors::is_status(e, 410), next)
            }
        }),
{
}

/// After the synchronization for an object the next one comes, whatever came of it.
/// After the deletion of the copies for an object, none is left exactly where it
/// succeeded and nothing remained. The end comes with the removal of the finalizer,
/// whatever came of that. A reply that nothing waits for changes nothing.
pub proof fn law_source_is_released_once_clear(
    s: ReconcileResourceView,
    result: Result<(), errors::ControllerErrorView>,
    remaining: nat,
    removed: Result<(), errors::KubeErrorView>,
    reply: ResourceReplyView,
    replies: Seq<ResourceReplyView>,
)
    ensures
        0 <= s.index < s.configurations.len() && s.phase is ReconcileSource ==> {
            let next = s.step(ResourceReplyView::Reconciled(result));
            is_gone_on(s, next) && next.blocked == s.blocked
        },
        0 <= s.index < s.configurations.len() && s.phase is SourceDeleted ==> is_concluded(
            s,
            result is Ok && remaining == 0,
            s.step(ResourceReplyView::SourceDeleted { result, remaining }),
        ),
        s.configurations.len() > 0 && s.phase is RemoveFinalizer ==> s.step(
            ResourceReplyView::FinalizerRemoved(removed),
        ).action() == ResourceActionView::Done(Schedule::Requeue(300)),
        match s.phase {
            ResourcePhaseView::AddFinalizer(_) => reply is FinalizerAdded,
            ResourcePhaseView::Get => reply is Got,
            ResourcePhaseView::SourceDeleted(_) => reply is SourceDeleted,
            ResourcePhaseView::RemoveFinalizer(_) => reply is FinalizerRemoved,
            ResourcePhaseView::ReconcileSource(_) => reply is Reconciled,
            ResourcePhaseView::Finished => false,
        } || s.step(reply) == s,
        s.run(Seq::empty()) == s,
        s.run(replies.push(reply)) == s.run(replies).step(reply),
{
    assert(replies.push(reply).drop_last() =~= replies);
}

/// The type information of a source is that of its kind, and nothing else of it
/// changes.
pub proof fn law_source_is_typed(source: meta::DynamicObjectView, gvk: meta::GroupVersionKindView)
    ensures
        ({
            let typed = source.typed(gvk);
            &&& typed.metadata == source.metadata
            &&& typed.data == source.data
            &&& typed.types matches Some(t) && t.kind == gvk.kind && t.api_version == if gvk.group.len()
                == 0 {
                gvk.version
            } else {
                gvk.group + "/"@ + gvk.version
            }
        }),
{
}

/// The reconciliation of a source is for exactly the objects that refer to it under
/// its name and namespace, each once, and for none where its namespace is not read
/// from.
pub proof fn law_reconciled_for_what_refers_to_it(
    c: &ResourceControllerImpl,
    source: DynamicObject,
    sources: &Sources,
    started: ReconcileResource,
    namespace: Text,
    name: Text,
    crd: utils::NamespacedNameView,
)
    requires
        call_ensures(ReconcileResource::new, (c, source, sources), started),
        meta::is_in(source.metadata@, namespace),
        meta::is_named(source.metadata@, name),
    ensures
        started@ == ReconcileResourceView::start(source@.typed(c@.gvk), started@.configurations),
        started@.configurations.contains(crd) <==> c.configuration@.reads_from(namespace)
            && sources@.contains((utils::NamespacedNameView { namespace, name }, crd)),
        forall|i: int, j: int|
            0 <= i < j < started@.configurations.len() ==> started@.configurations[i]
                != started@.configurations[j],
{
    meta::law_used_name_is_its_own(source@.metadata, name, namespace);
}

/// The calls do what the laws on them say.
pub proof fn law_reconciliation_of_a_source(
    s: &mut ReconcileResource,
    reply: ResourceReply,
    t: &ReconcileResource,
    action: ResourceAction,
    read: Result<ObjectSync, KubeError>,
    object: Option<ObjectSyncModifications>,
    error: &ControllerError,
    after: Schedule,
)
    requires
        call_ensures(ReconcileResource::step, (s, reply), ()),
        call_ensures(ReconcileResource::action, (t,), action),
        call_ensures(ResourceControllerImpl::get_object_sync, (read,), object),
        call_ensures(ResourceControllerImpl::error_policy, (error,), after),
    ensures
        final(s)@ == old(s)@.step(reply@),
        action@ == t@.action(),
        match read {
            Ok(o) => object matches Some(m) && m.original@ == o@ && m.modified@ == o@,
            Err(_) => object is None,
        },
        after == schedule::after_error(error@),
{
    assert((object is Some) == (text::view_opt(object) is Some));
    if let Some(m) = object {
        assert(text::view_opt(object) == Some(m@));
    }
}

} // verus!
