//! Deleting copies: for one destination after the other, the finalizer is taken
//! off the copy, and the copy is deleted.
use crate::api;
use crate::api::DestinationStatus;
use crate::errors;
use crate::errors::{ControllerError, KubeError};
use crate::meta;
use crate::meta::{ApiResource, DynamicObject, GroupVersionKind};
use crate::request;
use crate::request::{JsonPatch, FINALIZER};
use crate::text;
use crate::text::Text;
use crate::utils;
use vstd::prelude::*;

verus! {

/// What the current destination waits for.
pub enum DeletePhase {
    /// The copy, to see its finalizers.
    Get,
    /// The patch that takes the finalizer off the copy.
    Patch(JsonPatch),
    /// The deletion of the copy.
    Delete,
    /// Nothing: the deletion has come to its end.
    Finished,
}

/// The model of [`DeletePhase`].
pub enum DeletePhaseView {
    Get,
    Patch(request::JsonPatchView),
    Delete,
    Finished,
}

impl View for DeletePhase {
    type V = DeletePhaseView;

    open spec fn view(&self) -> DeletePhaseView {
        match self {
            DeletePhase::Get => DeletePhaseView::Get,
            DeletePhase::Patch(p) => DeletePhaseView::Patch(p@),
            DeletePhase::Delete => DeletePhaseView::Delete,
            DeletePhase::Finished => DeletePhaseView::Finished,
        }
    }
}

/// What the API answered.
pub enum DeleteReply {
    /// To the read of a copy.
    Got(Result<DynamicObject, KubeError>),
    /// To the patch of a copy.
    Patched(Result<(), KubeError>),
    /// To the deletion of a copy.
    Deleted(Result<(), KubeError>),
}

/// The model of [`DeleteReply`].
pub enum DeleteReplyView {
    Got(Result<meta::DynamicObjectView, errors::KubeErrorView>),
    Patched(Result<(), errors::KubeErrorView>),
    Deleted(Result<(), errors::KubeErrorView>),
}

impl View for DeleteReply {
    type V = DeleteReplyView;

    open spec fn view(&self) -> DeleteReplyView {
        match self {
            DeleteReply::Got(r) => DeleteReplyView::Got(text::view_res(*r)),
            DeleteReply::Patched(r) => DeleteReplyView::Patched(text::view_res(*r)),
            DeleteReply::Deleted(r) => DeleteReplyView::Deleted(text::view_res(*r)),
        }
    }
}

/// What is to be done next.
pub enum DeleteAction {
    /// Read the copy.
    Get { resource: ApiResource, namespace: String, name: String },
    /// Patch the copy.
    Patch { resource: ApiResource, namespace: String, patch: JsonPatch },
    /// Delete the copy.
    Delete { resource: ApiResource, namespace: String, name: String },
    /// Nothing more: the destinations that could not be deleted, or the error
    /// that ended the deletion.
    Done(Result<Vec<DestinationStatus>, ControllerError>),
}

/// The model of [`DeleteAction`].
pub enum DeleteActionView {
    Get { resource: meta::ApiResourceView, namespace: Text, name: Text },
    Patch { resource: meta::ApiResourceView, namespace: Text, patch: request::JsonPatchView },
    Delete { resource: meta::ApiResourceView, namespace: Text, name: Text },
    Done(Result<Seq<api::DestinationStatusView>, errors::ControllerErrorView>),
}

impl View for DeleteAction {
    type V = DeleteActionView;

    open spec fn view(&self) -> DeleteActionView {
        match self {
            DeleteAction::Get { resource, namespace, name } => DeleteActionView::Get {
                resource: resource@,
                namespace: namespace@,
                name: name@,
            },
            DeleteAction::Patch { resource, namespace, patch } => DeleteActionView::Patch {
                resource: resource@,
                namespace: namespace@,
                patch: patch@,
            },
            DeleteAction::Delete { resource, namespace, name } => DeleteActionView::Delete {
                resource: resource@,
                namespace: namespace@,
                name: name@,
            },
            DeleteAction::Done(r) => DeleteActionView::Done(
                match r {
                    Ok(d) => Ok(text::views(d@)),
                    Err(e) => Err(e@),
                },
            ),
        }
    }
}

/// The deletion of copies under way.
pub struct DeleteDestinations {
    destinations: Vec<DestinationStatus>,
    index: usize,
    phase: DeletePhase,
    remaining: Vec<DestinationStatus>,
    failure: Option<ControllerError>,
}

/// The model of [`DeleteDestinations`].
#[verifier::ext_equal]
pub struct DeleteDestinationsView {
    /// The destinations to delete.
    pub destinations: Seq<api::DestinationStatusView>,
    /// How many of them are done with.
    pub index: int,
    /// What the current one waits for.
    pub phase: DeletePhaseView,
    /// Those that could not be deleted.
    pub remaining: Seq<api::DestinationStatusView>,
    /// The error that ended the deletion early.
    pub failure: Option<errors::ControllerErrorView>,
}

impl View for DeleteDestinations {
    type V = DeleteDestinationsView;

    closed spec fn view(&self) -> DeleteDestinationsView {
        DeleteDestinationsView {
            destinations: text::views(self.destinations@),
            index: self.index as int,
            phase: self.phase@,
            remaining: text::views(self.remaining@),
            failure: text::view_opt(self.failure),
        }
    }
}

impl api::DestinationStatusView {
    /// The kind of the copy.
    pub open spec fn gvk(self) -> meta::GroupVersionKindView {
        meta::GroupVersionKindView { group: self.group, version: self.version, kind: self.kind }
    }
}

impl DestinationStatus {
    /// The kind of the copy.
    pub fn gvk(&self) -> (res: GroupVersionKind)
        ensures
            res@ == self@.gvk(),
    {
        GroupVersionKind {
            group: self.group.clone(),
            version: self.version.clone(),
            kind: self.kind.clone(),
        }
    }
}

impl DeleteDestinationsView {
    /// The deletion of `destinations`, not begun.
    pub open spec fn start(destinations: Seq<api::DestinationStatusView>) -> DeleteDestinationsView {
        DeleteDestinationsView {
            destinations,
            index: 0,
            phase: if destinations.len() == 0 {
                DeletePhaseView::Finished
            } else {
                DeletePhaseView::Get
            },
            remaining: Seq::empty(),
            failure: None,
        }
    }

    /// What holds at every step: an end without an error comes after the last
    /// destination, before the end there is a current destination, and the
    /// kinds are such that the API can be asked for them.
    pub open spec fn wf(self) -> bool {
        &&& 0 <= self.index <= self.destinations.len()
        &&& self.failure is Some ==> self.phase is Finished
        &&& self.failure is None ==> (self.phase is Finished <==> self.index
            == self.destinations.len())
        &&& self.remaining.len() <= self.index
        &&& forall|i: int|
            0 <= i < self.destinations.len() ==> (#[trigger] self.destinations[i]).gvk().has_plural()
    }

    /// The destination at hand.
    pub open spec fn current(self) -> api::DestinationStatusView {
        self.destinations[self.index]
    }

    /// The next destination; the current one remains where `kept`.
    pub open spec fn advance(self, kept: bool) -> DeleteDestinationsView {
        DeleteDestinationsView {
            index: self.index + 1,
            phase: if self.index + 1 == self.destinations.len() {
                DeletePhaseView::Finished
            } else {
                DeletePhaseView::Get
            },
            remaining: if kept {
                self.remaining.push(self.current())
            } else {
                self.remaining
            },
            ..self
        }
    }

    /// The current destination waits for `phase`.
    pub open spec fn await_phase(self, phase: DeletePhaseView) -> DeleteDestinationsView {
        DeleteDestinationsView { phase, ..self }
    }

    /// Whether `reply` is what the current destination waits for.
    pub open spec fn expects(self, reply: DeleteReplyView) -> bool {
        match self.phase {
            DeletePhaseView::Get => reply is Got,
            DeletePhaseView::Patch(_) => reply is Patched,
            DeletePhaseView::Delete => reply is Deleted,
            DeletePhaseView::Finished => false,
        }
    }

    /// What follows on `reply`:
    /// - a copy that carries the finalizer is patched before it is deleted, any
    ///   other is deleted at once, also one that is not there;
    /// - a copy is deleted whatever became of the patch;
    /// - a copy that is gone after that is done with, any other remains;
    /// - an error while a copy is read ends it all.
    pub open spec fn step(self, reply: DeleteReplyView) -> DeleteDestinationsView {
        if !self.expects(reply) {
            self
        } else {
            match reply {
                DeleteReplyView::Got(Ok(copy)) => match utils::finalizer_removal(
                    copy.ensure_gvk(self.current().gvk()),
                    FINALIZER@,
                ) {
                    Ok(Some(patch)) => self.await_phase(DeletePhaseView::Patch(patch)),
                    _ => self.await_phase(DeletePhaseView::Delete),
                },
                DeleteReplyView::Got(Err(e)) => if e.not_found() {
                    self.await_phase(DeletePhaseView::Delete)
                } else {
                    DeleteDestinationsView {
                        phase: DeletePhaseView::Finished,
                        failure: Some(errors::ControllerErrorView::KubeApi(e)),
                        ..self
                    }
                },
                DeleteReplyView::Patched(_) => self.await_phase(DeletePhaseView::Delete),
                DeleteReplyView::Deleted(Ok(_)) => self.advance(false),
                DeleteReplyView::Deleted(Err(e)) => self.advance(!e.not_found()),
            }
        }
    }

    /// What is to be done next.
    pub open spec fn action(self) -> DeleteActionView {
        match self.phase {
            DeletePhaseView::Get => DeleteActionView::Get {
                resource: self.current().gvk().api_resource(),
                namespace: self.current().namespace,
                name: self.current().name,
            },
            DeletePhaseView::Patch(patch) => DeleteActionView::Patch {
                resource: self.current().gvk().api_resource(),
                namespace: self.current().namespace,
                patch,
            },
            DeletePhaseView::Delete => DeleteActionView::Delete {
                resource: self.current().gvk().api_resource(),
                namespace: self.current().namespace,
                name: self.current().name,
            },
            DeletePhaseView::Finished => DeleteActionView::Done(
                match self.failure {
                    Some(e) => Err(e),
                    None => Ok(self.remaining),
                },
            ),
        }
    }

    /// Where a sequence of replies leads.
    pub open spec fn run(self, replies: Seq<DeleteReplyView>) -> DeleteDestinationsView
        decreases replies.len(),
    {
        if replies.len() == 0 {
            self
        } else {
            self.run(replies.drop_last()).step(replies.last())
        }
    }

    /// The answers to the deletions among `replies`, in their order.
    pub open spec fn deletions(self, replies: Seq<DeleteReplyView>) -> Seq<
        Result<(), errors::KubeErrorView>,
    >
        decreases replies.len(),
    {
        if replies.len() == 0 {
            Seq::empty()
        } else {
            let before = self.deletions(replies.drop_last());
            match (self.run(replies.drop_last()).phase, replies.last()) {
                (DeletePhaseView::Delete, DeleteReplyView::Deleted(r)) => before.push(r),
                _ => before,
            }
        }
    }
}

/// Whether a copy is still there after the answer to its deletion.
pub open spec fn refused(answer: Result<(), errors::KubeErrorView>) -> bool {
    answer matches Err(e) && !e.not_found()
}

/// The destinations whose deletion was refused, given the answers in the same
/// order.
pub open spec fn refused_destinations(
    destinations: Seq<api::DestinationStatusView>,
    answers: Seq<Result<(), errors::KubeErrorView>>,
) -> Seq<api::DestinationStatusView>
    decreases answers.len(),
{
    if answers.len() == 0 {
        Seq::empty()
    } else {
        let before = refused_destinations(destinations, answers.drop_last());
        if refused(answers.last()) {
            before.push(destinations[answers.len() - 1])
        } else {
            before
        }
    }
}

impl DeleteDestinations {
    /// The deletion of `destinations`, not begun.
    pub fn new(destinations: Vec<DestinationStatus>) -> (res: Self)
        requires
            forall|i: int|
                0 <= i < destinations@.len() ==> (#[trigger] destinations@[i])@.gvk().has_plural(),
        ensures
            res@ == DeleteDestinationsView::start(text::views(destinations@)),
            res@.wf(),
    {
        let phase: DeletePhase = if destinations.is_empty() {
            DeletePhase::Finished
        } else {
            DeletePhase::Get
        };
        let res = DeleteDestinations {
            destinations,
            index: 0,
            phase,
            remaining: Vec::new(),
            failure: None,
        };
        assert(text::views(res.remaining@) =~= Seq::empty());
        assert forall|i: int| 0 <= i < res@.destinations.len() implies (
        #[trigger] res@.destinations[i]).gvk().has_plural() by {
            assert(res@.destinations[i] == destinations@[i]@);
        }
        res
    }

    /// What is to be done next.
    pub fn action(&self) -> (res: DeleteAction)
        requires
            self@.wf(),
        ensures
            res@ == self@.action(),
    {
        match &self.phase {
            DeletePhase::Finished => match &self.failure {
                Some(e) => DeleteAction::Done(Err(e.clone())),
                None => {
                    let remaining = self.remaining.clone();
                    assert(text::views(remaining@) =~= text::views(self.remaining@));
                    DeleteAction::Done(Ok(remaining))
                },
            },
            phase => {
                let d: &DestinationStatus = &self.destinations[self.index];
                assert(self@.destinations[self.index as int] == d@);
                let resource = ApiResource::from_gvk(&d.gvk());
                let namespace = d.namespace.clone();
                match phase {
                    DeletePhase::Get => DeleteAction::Get { resource, namespace, name: d.name.clone() },
                    DeletePhase::Patch(patch) => DeleteAction::Patch {
                        resource,
                        namespace,
                        patch: patch.clone(),
                    },
                    _ => DeleteAction::Delete { resource, namespace, name: d.name.clone() },
                }
            },
        }
    }

    fn advance(&mut self, kept: bool)
        requires
            old(self)@.wf(),
            !(old(self)@.phase is Finished),
        ensures
            final(self)@ == old(self)@.advance(kept),
            final(self)@.wf(),
    {
        let ghost before = self@;
        let total: usize = self.destinations.len();
        if kept {
            let d = self.destinations[self.index].clone();
            self.remaining.push(d);
            assert(text::views(self.remaining@) =~= before.remaining.push(before.current()));
        }
        self.index = self.index + 1;
        self.phase = if self.index == total {
            DeletePhase::Finished
        } else {
            DeletePhase::Get
        };
    }

    /// Takes over what the API answered. An answer that is not waited for
    /// changes nothing.
    pub fn step(&mut self, reply: DeleteReply)
        requires
            old(self)@.wf(),
        ensures
            final(self)@ == old(self)@.step(reply@),
            final(self)@.wf(),
    {
        match (&self.phase, reply) {
            (DeletePhase::Get, DeleteReply::Got(Ok(copy))) => {
                let gvk = self.destinations[self.index].gvk();
                let mut copy = utils::ensure_gvk(copy, &gvk);
                match utils::remove_finalizer(&mut copy, FINALIZER) {
                    Ok(Some(patch)) => {
                        self.phase = DeletePhase::Patch(patch);
                    },
                    _ => {
                        self.phase = DeletePhase::Delete;
                    },
                }
            },
            (DeletePhase::Get, DeleteReply::Got(Err(e))) => {
                if e.is_not_found() {
                    self.phase = DeletePhase::Delete;
                } else {
                    self.phase = DeletePhase::Finished;
                    self.failure = Some(ControllerError::KubeApi(e));
                }
            },
            (DeletePhase::Patch(_), DeleteReply::Patched(_)) => {
                self.phase = DeletePhase::Delete;
            },
            (DeletePhase::Delete, DeleteReply::Deleted(Ok(_))) => {
                self.advance(false);
            },
            (DeletePhase::Delete, DeleteReply::Deleted(Err(e))) => {
                let kept: bool = !e.is_not_found();
                self.advance(kept);
            },
            _ => (),
        }
    }
}

/// A run keeps the destinations and what holds at every step.
proof fn lemma_delete_run_wf(s: DeleteDestinationsView, replies: Seq<DeleteReplyView>)
    requires
        s.wf(),
    ensures
        s.run(replies).wf(),
        s.run(replies).destinations == s.destinations,
    decreases replies.len(),
{
    if replies.len() > 0 {
        lemma_delete_run_wf(s, replies.drop_last());
    }
}

/// How many answers are ahead at most: three for each destination.
pub open spec fn delete_measure(s: DeleteDestinationsView) -> int {
    3 * (s.destinations.len() - s.index) - (match s.phase {
        DeletePhaseView::Get => 0int,
        DeletePhaseView::Patch(_) => 1,
        DeletePhaseView::Delete => 2,
        DeletePhaseView::Finished => 3 * (s.destinations.len() - s.index),
    })
}

/// An awaited answer makes the measure of the work ahead smaller, and the
/// measure is zero at the end only.
pub proof fn law_delete_makes_progress(s: DeleteDestinationsView, reply: DeleteReplyView)
    requires
        s.wf(),
        s.expects(reply),
    ensures
        0 <= delete_measure(s.step(reply)) < delete_measure(s),
        delete_measure(s.step(reply)) == 0 <==> s.step(reply).phase is Finished,
{
}

/// Whatever the API answers: the deletions asked for so far are those of the
/// first destinations, one for each that is done with, and the remaining
/// destinations are exactly those of them whose deletion was refused.
pub proof fn law_delete_asks_for_each(
    destinations: Seq<api::DestinationStatusView>,
    replies: Seq<DeleteReplyView>,
)
    requires
        DeleteDestinationsView::start(destinations).wf(),
    ensures
        ({
            let begin = DeleteDestinationsView::start(destinations);
            let end = begin.run(replies);
            &&& end.index == begin.deletions(replies).len()
            &&& end.remaining == refused_destinations(destinations, begin.deletions(replies))
        }),
    decreases replies.len(),
{
    if replies.len() > 0 {
        let begin = DeleteDestinationsView::start(destinations);
        law_delete_asks_for_each(destinations, replies.drop_last());
        lemma_delete_run_wf(begin, replies.drop_last());
        let before = begin.deletions(replies.drop_last());
        let after = begin.deletions(replies);
        if after.len() > before.len() {
            assert(after.drop_last() =~= before);
        }
    }
}

/// A deletion that ends without an error has asked for the deletion of every
/// destination, and hands back exactly those that the API refused to delete.
pub proof fn law_delete_covers_all(
    destinations: Seq<api::DestinationStatusView>,
    replies: Seq<DeleteReplyView>,
    remaining: Seq<api::DestinationStatusView>,
)
    requires
        DeleteDestinationsView::start(destinations).wf(),
        DeleteDestinationsView::start(destinations).run(replies).action() == DeleteActionView::Done(
            Ok(remaining),
        ),
    ensures
        ({
            let answers = DeleteDestinationsView::start(destinations).deletions(replies);
            &&& answers.len() == destinations.len()
            &&& remaining == refused_destinations(destinations, answers)
            &&& remaining.len() <= destinations.len()
        }),
{
    law_delete_asks_for_each(destinations, replies);
    lemma_delete_run_wf(DeleteDestinationsView::start(destinations), replies);
}

/// A copy that carries the finalizer loses it before it is deleted, and is deleted
/// whatever became of that, so that the finalizer does not keep it.
pub proof fn law_finalizer_goes_before_the_copy(
    s: DeleteDestinationsView,
    copy: meta::DynamicObjectView,
    patch: request::JsonPatchView,
    answer: Result<(), errors::KubeErrorView>,
)
    requires
        s.wf(),
        s.phase is Get,
        utils::finalizer_removal(copy.ensure_gvk(s.current().gvk()), FINALIZER@) == Ok::<
            Option<request::JsonPatchView>,
            errors::ControllerErrorView,
        >(Some(patch)),
    ensures
        ({
            let patching = s.step(DeleteReplyView::Got(Ok(copy)));
            let deleting = patching.step(DeleteReplyView::Patched(answer));
            let resource = s.current().gvk().api_resource();
            &&& patching.action() == (DeleteActionView::Patch {
                resource,
                namespace: s.current().namespace,
                patch,
            })
            &&& deleting.action() == (DeleteActionView::Delete {
                resource,
                namespace: s.current().namespace,
                name: s.current().name,
            })
        }),
{
}

/// Whether the resource is that of the copies of the destination.
pub open spec fn is_resource_of(r: meta::ApiResourceView, d: api::DestinationStatusView) -> bool {
    &&& r.group == d.group
    &&& r.version == d.version
    &&& r.kind == d.kind
    &&& r.api_version == if d.group.len() == 0 {
        d.version
    } else {
        d.group + "/"@ + d.version
    }
}

/// The deletion starts at the first destination, and asks for its copy. It is over
/// at once where there is none.
pub proof fn law_deletion_starts_at_the_first(destinations: Seq<api::DestinationStatusView>)
    ensures
        ({
            let s = DeleteDestinationsView::start(destinations);
            &&& s.destinations == destinations
            &&& s.index == 0
            &&& s.remaining.len() == 0
            &&& s.failure is None
            &&& if destinations.len() > 0 {
                s.phase is Get
            } else {
                s.action() == DeleteActionView::Done(Ok(Seq::empty()))
            }
        }),
{
}

/// Everything that is asked for concerns the copy of the current destination, of its
/// kind, in its namespace and under its name. A reply to something else changes
/// nothing, and each reply is taken by itself.
pub proof fn law_deletion_asks_for_the_copy(
    s: DeleteDestinationsView,
    reply: DeleteReplyView,
    replies: Seq<DeleteReplyView>,
)
    requires
        0 <= s.index < s.destinations.len(),
    ensures
        ({
            let d = s.destinations[s.index];
            match s.phase {
                DeletePhaseView::Get => {
                    &&& s.action() matches DeleteActionView::Get { resource, namespace, name }
                        && is_resource_of(resource, d) && namespace == d.namespace && name == d.name
                    &&& !(reply is Got) ==> s.step(reply) == s
                },
                DeletePhaseView::Patch(p) => {
                    &&& s.action() matches DeleteActionView::Patch { resource, namespace, patch }
                        && is_resource_of(resource, d) && namespace == d.namespace && patch == p
                    &&& !(reply is Patched) ==> s.step(reply) == s
                },
                DeletePhaseView::Delete => {
                    &&& s.action() matches DeleteActionView::Delete { resource, namespace, name }
                        && is_resource_of(resource, d) && namespace == d.namespace && name == d.name
                    &&& !(reply is Deleted) ==> s.step(reply) == s
                },
                DeletePhaseView::Finished => s.step(reply) == s,
            }
        }),
        s.run(Seq::empty()) == s,
        s.run(replies.push(reply)) == s.run(replies).step(reply),
{
    assert(replies.push(reply).drop_last() =~= replies);
}

/// Whether `next` is still at the same destination, with the same ones remaining.
pub open spec fn is_at_same(s: DeleteDestinationsView, next: DeleteDestinationsView) -> bool {
    &&& next.destinations == s.destinations
    &&& next.index == s.index
    &&& next.remaining == s.remaining
}

/// A copy that carries the finalizer of the syncer is patched first. Any other is
/// deleted at once, and so is one that is not there. An error while the copy is read
/// ends it all, with that error.
pub proof fn law_copy_is_released_and_deleted(
    s: DeleteDestinationsView,
    copy: meta::DynamicObjectView,
    e: errors::KubeErrorView,
    answer: Result<(), errors::KubeErrorView>,
)
    requires
        0 <= s.index < s.destinations.len(),
        s.failure is None,
    ensures
        s.phase is Get ==> {
            let next = s.step(DeleteReplyView::Got(Ok(copy)));
            let d = s.destinations[s.index];
            let kind = meta::GroupVersionKindView {
                group: d.group,
                version: d.version,
                kind: d.kind,
            };
            &&& is_at_same(s, next)
            &&& next.failure is None
            &&& match utils::finalizer_removal(
                copy.ensure_gvk(kind),
                "sync.rustrial.org/rustrial-object-syncer"@,
            ) {
                Ok(Some(patch)) => next.phase == DeletePhaseView::Patch(patch),
                _ => next.phase is Delete,
            }
            &&& !(copy.metadata.finalizers matches Some(list) && list.contains(
                "sync.rustrial.org/rustrial-object-syncer"@,
            )) ==> next.phase is Delete
        },
        s.phase is Get ==> {
            let next = s.step(DeleteReplyView::Got(Err(e)));
            &&& is_at_same(s, next)
            &&& if errors::is_status(e, 404) || errors::is_status(e, 410) {
                next.phase is Delete && next.failure is None
            } else {
                next.action() == DeleteActionView::Done(
                    Err(errors::ControllerErrorView::KubeApi(e)),
                )
            }
        },
        s.phase is Patch ==> {
            let next = s.step(DeleteReplyView::Patched(answer));
            &&& is_at_same(s, next)
            &&& next.failure is None
            &&& next.phase is Delete
        },
{
}

/// After the answer to its deletion a destination is done with. It remains exactly
/// where the deletion failed for another reason than that the copy was not there.
/// After the last one the destinations that remain are handed back.
pub proof fn law_refused_copy_remains(
    s: DeleteDestinationsView,
    answer: Result<(), errors::KubeErrorView>,
)
    requires
        0 <= s.index < s.destinations.len(),
        s.phase is Delete,
        s.failure is None,
    ensures
        ({
            let next = s.step(DeleteReplyView::Deleted(answer));
            let is_refused = answer matches Err(e) && !errors::is_status(e, 404)
                && !errors::is_status(e, 410);
            &&& next.destinations == s.destinations
            &&& next.failure is None
            &&& next.index == s.index + 1
            &&& next.remaining == if is_refused {
                s.remaining.push(s.destinations[s.index])
            } else {
                s.remaining
            }
            &&& if s.index + 1 < s.destinations.len() {
                next.phase is Get
            } else {
                next.action() == DeleteActionView::Done(Ok(next.remaining))
            }
        }),
{
}

/// The calls do what the laws on them say: the deletion starts with these
/// destinations, each reply leads to the next step, and what is asked for is the
/// next action. A copy is of the kind that the status records.
pub proof fn law_deletion_of_copies(
    destinations: Vec<DestinationStatus>,
    started: DeleteDestinations,
    s: &mut DeleteDestinations,
    reply: DeleteReply,
    t: &DeleteDestinations,
    action: DeleteAction,
    d: &DestinationStatus,
    kind: GroupVersionKind,
)
    requires
        call_ensures(DeleteDestinations::new, (destinations,), started),
        call_ensures(DeleteDestinations::step, (s, reply), ()),
        call_ensures(DeleteDestinations::action, (t,), action),
        call_ensures(DestinationStatus::gvk, (d,), kind),
    ensures
        started@ == DeleteDestinationsView::start(text::views(destinations@)),
        final(s)@ == old(s)@.step(reply@),
        action@ == t@.action(),
        kind.group@ == d.group@,
        kind.version@ == d.version@,
        kind.kind@ == d.kind@,
{
}

} // verus!
