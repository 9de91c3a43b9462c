//! Writing copies: for one destination after the other, the copy is created
//! where it is missing, and written again where it differs from what was
//! synchronized last.
use crate::api;
use crate::api::{DestinationStatus, ObjectRevision, SyncStrategy, SOURCE_OBJECT_ANNOTATION};
use crate::errors;
use crate::errors::KubeError;
use crate::meta;
use crate::meta::{DynamicObject, StringMap};
use crate::request;
use crate::request::{ApplyPatch, JsonPatch, PatchParams, PostParams, FINALIZER, MANAGER};
use crate::resource_controller::ResourceControllerImpl;
use crate::text;
use crate::text::Text;
use crate::utils;
use vstd::prelude::*;
use vstd::string::*;

verus! {

/// The label of a copy that names the syncer.
pub const MANAGED_BY_LABEL: &'static str = "app.kubernetes.io/managed-by";

/// How often a destination is tried again after a passing failure.
pub const RETRIES: u32 = 2;

/// The entries of labels or annotations, none where they are not set.
pub open spec fn entries(map: Option<Seq<(Text, Text)>>) -> Seq<(Text, Text)> {
    match map {
        Some(pairs) => pairs,
        None => Seq::empty(),
    }
}

/// What the annotation of the copies of `source` says: its namespace and name.
pub open spec fn source_reference(source: meta::ObjectMetaView) -> Text {
    text::or_empty(source.namespace) + "/"@ + source.name_any()
}

/// The copy of `source` for `d`, to be written over the revision `over`: the
/// content, labels and annotations are those of the source, with the label that
/// names the syncer, the annotation that names the source, and the finalizer.
pub open spec fn copy_of(
    source: meta::DynamicObjectView,
    d: api::DestinationStatusView,
    over: api::ObjectRevisionView,
) -> meta::DynamicObjectView {
    meta::DynamicObjectView {
        metadata: meta::ObjectMetaView {
            annotations: Some(
                meta::with_entry(
                    entries(source.metadata.annotations),
                    SOURCE_OBJECT_ANNOTATION@,
                    source_reference(source.metadata),
                ),
            ),
            labels: Some(
                meta::with_entry(entries(source.metadata.labels), MANAGED_BY_LABEL@, MANAGER@),
            ),
            namespace: Some(d.namespace),
            name: Some(d.name),
            generation: None,
            generate_name: None,
            managed_fields: None,
            owner_references: None,
            self_link: None,
            creation_timestamp: None,
            finalizers: Some(seq![FINALIZER@]),
            uid: over.uid,
            resource_version: over.resource_version,
            ..source.metadata
        },
        ..source
    }
}

/// The map with `value` under `key`.
fn with_value(map: &Option<StringMap>, key: &str, value: String) -> (res: StringMap)
    ensures
        res@ == meta::with_entry(entries(text::view_opt(*map)), key@, value@),
{
    let mut res = match map {
        Some(m) => m.clone(),
        None => StringMap::new(),
    };
    res.insert(key.to_string(), value);
    res
}

/// The copy of `source` for `d`, to be written over the revision `over`.
pub fn make_copy(source: &DynamicObject, d: &DestinationStatus, over: &ObjectRevision) -> (res:
    DynamicObject)
    ensures
        res@ == copy_of(source@, d@, over@),
{
    let mut copy = source.clone();
    copy.metadata.labels = Some(
        with_value(&source.metadata.labels, MANAGED_BY_LABEL, MANAGER.to_string()),
    );
    let mut reference = source.metadata.namespace_or_empty();
    reference.append("/");
    reference.append(source.metadata.name_any().as_str());
    copy.metadata.annotations = Some(
        with_value(&source.metadata.annotations, SOURCE_OBJECT_ANNOTATION, reference),
    );
    copy.metadata.namespace = Some(d.namespace.clone());
    copy.metadata.name = Some(d.name.clone());
    copy.metadata.generation = None;
    copy.metadata.generate_name = None;
    copy.metadata.managed_fields = None;
    copy.metadata.owner_references = None;
    copy.metadata.self_link = None;
    copy.metadata.creation_timestamp = None;
    let mut finalizers: Vec<String> = Vec::new();
    finalizers.push(FINALIZER.to_string());
    assert(text::views(finalizers@) =~= seq![FINALIZER@]);
    copy.metadata.finalizers = Some(finalizers);
    copy.metadata.uid = over.uid.clone();
    copy.metadata.resource_version = over.resource_version.clone();
    copy
}

/// What the current destination waits for.
pub enum UpsertPhase {
    /// The copy as it is.
    Get,
    /// The patch that takes the finalizer off a copy of this revision that is
    /// being deleted.
    Patch(JsonPatch, ObjectRevision),
    /// The write over the copy of this revision.
    Write(ObjectRevision),
    /// The creation of the copy.
    Create,
    /// Nothing: all destinations are done with.
    Finished,
}

/// The model of [`UpsertPhase`].
pub enum UpsertPhaseView {
    Get,
    Patch(request::JsonPatchView, api::ObjectRevisionView),
    Write(api::ObjectRevisionView),
    Create,
    Finished,
}

impl View for UpsertPhase {
    type V = UpsertPhaseView;

    open spec fn view(&self) -> UpsertPhaseView {
        match self {
            UpsertPhase::Get => UpsertPhaseView::Get,
            UpsertPhase::Patch(p, r) => UpsertPhaseView::Patch(p@, r@),
            UpsertPhase::Write(r) => UpsertPhaseView::Write(r@),
            UpsertPhase::Create => UpsertPhaseView::Create,
            UpsertPhase::Finished => UpsertPhaseView::Finished,
        }
    }
}

/// What the API answered.
pub enum UpsertReply {
    /// To the read of a copy.
    Got(Result<DynamicObject, KubeError>),
    /// To the patch of a copy that is being deleted.
    Patched(Result<(), KubeError>),
    /// To the write over a copy.
    Written(Result<DynamicObject, KubeError>),
    /// To the creation of a copy.
    Created(Result<DynamicObject, KubeError>),
}

/// The model of [`UpsertReply`].
pub enum UpsertReplyView {
    Got(Result<meta::DynamicObjectView, errors::KubeErrorView>),
    Patched(Result<(), errors::KubeErrorView>),
    Written(Result<meta::DynamicObjectView, errors::KubeErrorView>),
    Created(Result<meta::DynamicObjectView, errors::KubeErrorView>),
}

impl View for UpsertReply {
    type V = UpsertReplyView;

    open spec fn view(&self) -> UpsertReplyView {
        match self {
            UpsertReply::Got(r) => UpsertReplyView::Got(text::view_res(*r)),
            UpsertReply::Patched(r) => UpsertReplyView::Patched(text::view_res(*r)),
            UpsertReply::Written(r) => UpsertReplyView::Written(text::view_res(*r)),
            UpsertReply::Created(r) => UpsertReplyView::Created(text::view_res(*r)),
        }
    }
}

/// What became of the destinations.
pub struct UpsertOutcome {
    /// The destinations, with the revisions that were synchronized.
    pub destinations: Vec<DestinationStatus>,
    /// Whether any copy was written.
    pub changed: bool,
    /// How many destinations there are.
    pub expected: usize,
    /// How many of them are in sync.
    pub observed: usize,
}

/// The model of [`UpsertOutcome`].
#[verifier::ext_equal]
pub struct UpsertOutcomeView {
    pub destinations: Seq<api::DestinationStatusView>,
    pub changed: bool,
    pub expected: nat,
    pub observed: nat,
}

impl View for UpsertOutcome {
    type V = UpsertOutcomeView;

    open spec fn view(&self) -> UpsertOutcomeView {
        UpsertOutcomeView {
            destinations: text::views(self.destinations@),
            changed: self.changed,
            expected: self.expected as nat,
            observed: self.observed as nat,
        }
    }
}

/// What is to be done next. The objects are of the kind of the source.
pub enum UpsertAction {
    /// Read the copy.
    Get { namespace: String, name: String },
    /// Patch the copy.
    Patch { namespace: String, patch: JsonPatch },
    /// Replace the copy.
    Replace { namespace: String, name: String, params: PostParams, object: DynamicObject },
    /// Apply the object to the copy.
    Apply { namespace: String, apply: ApplyPatch },
    /// Create the copy.
    Create { namespace: String, params: PostParams, object: DynamicObject },
    /// Nothing more.
    Done(UpsertOutcome),
}

/// The model of [`UpsertAction`].
pub enum UpsertActionView {
    Get { namespace: Text, name: Text },
    Patch { namespace: Text, patch: request::JsonPatchView },
    Replace {
        namespace: Text,
        name: Text,
        params: request::PostParamsView,
        object: meta::DynamicObjectView,
    },
    Apply { namespace: Text, apply: request::ApplyPatchView },
    Create { namespace: Text, params: request::PostParamsView, object: meta::DynamicObjectView },
    Done(UpsertOutcomeView),
}

impl View for UpsertAction {
    type V = UpsertActionView;

    open spec fn view(&self) -> UpsertActionView {
        match self {
            UpsertAction::Get { namespace, name } => UpsertActionView::Get {
                namespace: namespace@,
                name: name@,
            },
            UpsertAction::Patch { namespace, patch } => UpsertActionView::Patch {
                namespace: namespace@,
                patch: patch@,
            },
            UpsertAction::Replace { namespace, name, params, object } => UpsertActionView::Replace {
                namespace: namespace@,
                name: name@,
                params: params@,
                object: object@,
            },
            UpsertAction::Apply { namespace, apply } => UpsertActionView::Apply {
                namespace: namespace@,
                apply: apply@,
            },
            UpsertAction::Create { namespace, params, object } => UpsertActionView::Create {
                namespace: namespace@,
                params: params@,
                object: object@,
            },
            UpsertAction::Done(outcome) => UpsertActionView::Done(outcome@),
        }
    }
}

/// The writing of copies under way.
pub struct UpsertDestinations {
    source: DynamicObject,
    destinations: Vec<DestinationStatus>,
    remnants: Vec<DestinationStatus>,
    index: usize,
    retries: u32,
    phase: UpsertPhase,
    changed: bool,
    observed: usize,
}

/// The model of [`UpsertDestinations`].
#[verifier::ext_equal]
pub struct UpsertDestinationsView {
    /// The source object.
    pub source: meta::DynamicObjectView,
    /// The destinations.
    pub destinations: Seq<api::DestinationStatusView>,
    /// The destinations that are only there as they could not be removed.
    pub remnants: Seq<api::DestinationStatusView>,
    /// How many destinations are done with.
    pub index: int,
    /// How often the current one may be tried again.
    pub retries: int,
    /// What the current one waits for.
    pub phase: UpsertPhaseView,
    /// Whether any copy was written.
    pub changed: bool,
    /// How many destinations are in sync.
    pub observed: int,
}

impl View for UpsertDestinations {
    type V = UpsertDestinationsView;

    closed spec fn view(&self) -> UpsertDestinationsView {
        UpsertDestinationsView {
            source: self.source@,
            destinations: text::views(self.destinations@),
            remnants: text::views(self.remnants@),
            index: self.index as int,
            retries: self.retries as int,
            phase: self.phase@,
            changed: self.changed,
            observed: self.observed as int,
        }
    }
}

/// Whether `d` is one of the remnants.
pub open spec fn is_remnant(
    remnants: Seq<api::DestinationStatusView>,
    d: api::DestinationStatusView,
) -> bool {
    exists|i: int| 0 <= i < remnants.len() && (#[trigger] remnants[i]).same_destination(d)
}

/// The first destination from `i` on that is no remnant.
pub open spec fn skip_remnants(
    destinations: Seq<api::DestinationStatusView>,
    remnants: Seq<api::DestinationStatusView>,
    i: int,
) -> int
    decreases destinations.len() - i,
{
    if 0 <= i < destinations.len() && is_remnant(remnants, destinations[i]) {
        skip_remnants(destinations, remnants, i + 1)
    } else {
        i
    }
}

impl UpsertDestinationsView {
    /// The writing of the copies of `source`, not begun.
    pub open spec fn start(
        source: meta::DynamicObjectView,
        destinations: Seq<api::DestinationStatusView>,
        remnants: Seq<api::DestinationStatusView>,
    ) -> UpsertDestinationsView {
        UpsertDestinationsView {
            source,
            destinations,
            remnants,
            index: 0,
            retries: 0,
            phase: UpsertPhaseView::Finished,
            changed: false,
            observed: 0,
        }.go_to(0)
    }

    /// The first destination from `i` on that is no remnant comes next.
    pub open spec fn go_to(self, i: int) -> UpsertDestinationsView {
        let next = skip_remnants(self.destinations, self.remnants, i);
        UpsertDestinationsView {
            index: next,
            retries: RETRIES as int,
            phase: if next < self.destinations.len() {
                UpsertPhaseView::Get
            } else {
                UpsertPhaseView::Finished
            },
            ..self
        }
    }

    /// What holds at every step: before the end there is a current destination
    /// that is no remnant, and no more are in sync than are done with.
    pub open spec fn wf(self) -> bool {
        &&& 0 <= self.index <= self.destinations.len()
        &&& self.phase is Finished <==> self.index == self.destinations.len()
        &&& self.index < self.destinations.len() ==> !is_remnant(self.remnants, self.current())
        &&& 0 <= self.retries <= RETRIES
        &&& 0 <= self.observed <= self.index
    }

    /// The destination at hand.
    pub open spec fn current(self) -> api::DestinationStatusView {
        self.destinations[self.index]
    }

    /// The revision of the source object.
    pub open spec fn source_version(self) -> api::ObjectRevisionView {
        api::ObjectRevisionView::of(self.source.metadata)
    }

    /// The current destination waits for `phase`.
    pub open spec fn await_phase(self, phase: UpsertPhaseView) -> UpsertDestinationsView {
        UpsertDestinationsView { phase, ..self }
    }

    /// The current destination is tried again, as long as it may be.
    pub open spec fn retry(self) -> UpsertDestinationsView {
        if self.retries > 0 {
            UpsertDestinationsView {
                retries: self.retries - 1,
                phase: UpsertPhaseView::Get,
                ..self
            }
        } else {
            self.give_up()
        }
    }

    /// The current destination is left as it is.
    pub open spec fn give_up(self) -> UpsertDestinationsView {
        self.go_to(self.index + 1)
    }

    /// The current destination is in sync.
    pub open spec fn settle(self) -> UpsertDestinationsView {
        UpsertDestinationsView { observed: self.observed + 1, ..self.go_to(self.index + 1) }
    }

    /// The copy was written, and is now of revision `written`.
    pub open spec fn record(self, written: api::ObjectRevisionView) -> UpsertDestinationsView {
        UpsertDestinationsView {
            destinations: self.destinations.update(
                self.index,
                api::DestinationStatusView {
                    synced_version: Some(written),
                    source_version: Some(self.source_version()),
                    ..self.current()
                },
            ),
            changed: true,
            ..self
        }.settle()
    }

    /// Whether the copy of revision `found` is the one that was synchronized
    /// last, from the source as it is.
    pub open spec fn in_sync(self, found: api::ObjectRevisionView) -> bool {
        &&& self.current().synced_version == Some(found)
        &&& self.current().source_version == Some(self.source_version())
    }

    /// The copy of revision `found` is written unless it is in sync.
    pub open spec fn compare(self, found: api::ObjectRevisionView) -> UpsertDestinationsView {
        if self.in_sync(found) {
            self.settle()
        } else {
            self.await_phase(UpsertPhaseView::Write(found))
        }
    }

    /// Whether `reply` is what the current destination waits for.
    pub open spec fn expects(self, reply: UpsertReplyView) -> bool {
        match self.phase {
            UpsertPhaseView::Get => reply is Got,
            UpsertPhaseView::Patch(_, _) => reply is Patched,
            UpsertPhaseView::Write(_) => reply is Written,
            UpsertPhaseView::Create => reply is Created,
            UpsertPhaseView::Finished => false,
        }
    }

    /// What follows on `reply`:
    /// - a copy that is missing is created, one that is not in sync is written;
    /// - a copy that is being deleted first loses the finalizer, so that it goes
    ///   away, and is then looked at again;
    /// - a destination is tried again where a copy came, went or changed in
    ///   between, and is left as it is on any other error.
    pub open spec fn step(self, reply: UpsertReplyView) -> UpsertDestinationsView {
        if !self.expects(reply) {
            self
        } else {
            match reply {
                UpsertReplyView::Got(Ok(found)) => {
                    let version = api::ObjectRevisionView::of(found.metadata);
                    if found.metadata.live() {
                        self.compare(version)
                    } else {
                        match utils::finalizer_removal(found, FINALIZER@) {
                            Ok(Some(patch)) => self.await_phase(
                                UpsertPhaseView::Patch(patch, version),
                            ),
                            _ => self.compare(version),
                        }
                    }
                },
                UpsertReplyView::Got(Err(e)) => if e.not_found() {
                    self.await_phase(UpsertPhaseView::Create)
                } else {
                    self.give_up()
                },
                UpsertReplyView::Patched(r) => match utils::removal_outcome(r) {
                    Ok(_) => self.retry(),
                    Err(_) => self.compare(self.phase->Patch_1),
                },
                UpsertReplyView::Written(Ok(written)) => self.record(
                    api::ObjectRevisionView::of(written.metadata),
                ),
                UpsertReplyView::Written(Err(e)) => if e.not_found() || e.conflict() {
                    self.retry()
                } else {
                    self.give_up()
                },
                UpsertReplyView::Created(Ok(created)) => self.record(
                    api::ObjectRevisionView::of(created.metadata),
                ),
                UpsertReplyView::Created(Err(e)) => if e.conflict() {
                    self.retry()
                } else {
                    self.give_up()
                },
            }
        }
    }

    /// The write over the copy of revision `over`, by the strategy of the
    /// destination.
    pub open spec fn write_over(self, over: api::ObjectRevisionView) -> UpsertActionView {
        let d = self.current();
        let object = copy_of(self.source, d, over);
        match api::effective_strategy(d.strategy) {
            SyncStrategy::Replace => UpsertActionView::Replace {
                namespace: d.namespace,
                name: d.name,
                params: request::PostParamsView::managed(),
                object,
            },
            SyncStrategy::Apply => UpsertActionView::Apply {
                namespace: d.namespace,
                apply: request::ApplyPatchView {
                    name: d.name,
                    params: request::PatchParamsView::apply(),
                    object,
                },
            },
        }
    }

    /// What is to be done next.
    pub open spec fn action(self) -> UpsertActionView {
        match self.phase {
            UpsertPhaseView::Get => UpsertActionView::Get {
                namespace: self.current().namespace,
                name: self.current().name,
            },
            UpsertPhaseView::Patch(patch, _) => UpsertActionView::Patch {
                namespace: self.current().namespace,
                patch,
            },
            UpsertPhaseView::Write(over) => self.write_over(over),
            UpsertPhaseView::Create => UpsertActionView::Create {
                namespace: self.current().namespace,
                params: request::PostParamsView::managed(),
                object: copy_of(
                    self.source,
                    self.current(),
                    api::ObjectRevisionView { uid: None, resource_version: None },
                ),
            },
            UpsertPhaseView::Finished => UpsertActionView::Done(self.outcome()),
        }
    }

    /// What became of the destinations.
    pub open spec fn outcome(self) -> UpsertOutcomeView {
        UpsertOutcomeView {
            destinations: self.destinations,
            changed: self.changed,
            expected: self.destinations.len(),
            observed: self.observed as nat,
        }
    }

    /// Where a sequence of replies leads.
    pub open spec fn run(self, replies: Seq<UpsertReplyView>) -> UpsertDestinationsView
        decreases replies.len(),
    {
        if replies.len() == 0 {
            self
        } else {
            self.run(replies.drop_last()).step(replies.last())
        }
    }
}

proof fn lemma_skip_remnants(
    destinations: Seq<api::DestinationStatusView>,
    remnants: Seq<api::DestinationStatusView>,
    i: int,
)
    requires
        0 <= i <= destinations.len(),
    ensures
        i <= skip_remnants(destinations, remnants, i) <= destinations.len(),
        skip_remnants(destinations, remnants, i) < destinations.len() ==> !is_remnant(
            remnants,
            destinations[skip_remnants(destinations, remnants, i)],
        ),
        forall|j: int|
            i <= j < skip_remnants(destinations, remnants, i) ==> is_remnant(
                remnants,
                #[trigger] destinations[j],
            ),
    decreases destinations.len() - i,
{
    if i < destinations.len() && is_remnant(remnants, destinations[i]) {
        lemma_skip_remnants(destinations, remnants, i + 1);
    }
}

/// A step keeps what holds at every step.
proof fn lemma_upsert_step_wf(s: UpsertDestinationsView, reply: UpsertReplyView)
    requires
        s.wf(),
    ensures
        s.step(reply).wf(),
{
    if s.expects(reply) {
        lemma_skip_remnants(s.destinations, s.remnants, s.index + 1);
        let written = s.destinations.update(
            s.index,
            api::DestinationStatusView {
                synced_version: match reply {
                    UpsertReplyView::Written(Ok(o)) => Some(
                        api::ObjectRevisionView::of(o.metadata),
                    ),
                    UpsertReplyView::Created(Ok(o)) => Some(
                        api::ObjectRevisionView::of(o.metadata),
                    ),
                    _ => None,
                },
                source_version: Some(s.source_version()),
                ..s.current()
            },
        );
        lemma_skip_remnants(written, s.remnants, s.index + 1);
    }
}

impl UpsertDestinations {
    /// The writing of the copies of `source`, not begun.
    pub fn new(
        source: DynamicObject,
        destinations: Vec<DestinationStatus>,
        remnants: Vec<DestinationStatus>,
    ) -> (res: Self)
        ensures
            res@ == UpsertDestinationsView::start(
                source@,
                text::views(destinations@),
                text::views(remnants@),
            ),
            res@.wf(),
    {
        let mut res = UpsertDestinations {
            source,
            destinations,
            remnants,
            index: 0,
            retries: 0,
            phase: UpsertPhase::Finished,
            changed: false,
            observed: 0,
        };
        res.go_to(0);
        res
    }

    fn go_to(&mut self, from: usize)
        requires
            0 <= old(self)@.observed <= from <= old(self)@.destinations.len(),
        ensures
            final(self)@ == old(self)@.go_to(from as int),
            final(self)@.wf(),
    {
        let ghost before = self@;
        let total: usize = self.destinations.len();
        let mut i: usize = from;
        proof {
            lemma_skip_remnants(before.destinations, before.remnants, from as int);
        }
        while i < total && is_remnant_of(&self.remnants, &self.destinations[i])
            invariant
                from <= i <= total,
                total == self.destinations@.len(),
                before == self@,
                *self == *old(self),
                skip_remnants(before.destinations, before.remnants, from as int) == skip_remnants(
                    before.destinations,
                    before.remnants,
                    i as int,
                ),
            decreases total - i,
        {
            i = i + 1;
        }
        self.index = i;
        self.retries = RETRIES;
        self.phase = if i < total {
            UpsertPhase::Get
        } else {
            UpsertPhase::Finished
        };
    }

    fn give_up(&mut self)
        requires
            old(self)@.wf(),
            !(old(self)@.phase is Finished),
        ensures
            final(self)@ == old(self)@.give_up(),
            final(self)@.wf(),
    {
        assert(self.index < self.destinations.len());
        self.go_to(self.index + 1);
    }

    fn retry(&mut self)
        requires
            old(self)@.wf(),
            !(old(self)@.phase is Finished),
        ensures
            final(self)@ == old(self)@.retry(),
            final(self)@.wf(),
    {
        if self.retries > 0 {
            self.retries = self.retries - 1;
            self.phase = UpsertPhase::Get;
        } else {
            self.give_up();
        }
    }

    fn settle(&mut self)
        requires
            old(self)@.wf(),
            !(old(self)@.phase is Finished),
        ensures
            final(self)@ == old(self)@.settle(),
            final(self)@.wf(),
    {
        assert(self.index < self.destinations.len());
        proof {
            lemma_skip_remnants(self@.destinations, self@.remnants, self.index + 1);
        }
        self.go_to(self.index + 1);
        self.observed = self.observed + 1;
    }

    fn record(&mut self, written: &DynamicObject)
        requires
            old(self)@.wf(),
            !(old(self)@.phase is Finished),
        ensures
            final(self)@ == old(self)@.record(api::ObjectRevisionView::of(written@.metadata)),
            final(self)@.wf(),
    {
        let ghost before = self@;
        let mut d = self.destinations[self.index].clone();
        d.synced_version = Some(ObjectRevision::from(&written.metadata));
        d.source_version = Some(ObjectRevision::from(&self.source.metadata));
        let i: usize = self.index;
        let ghost dv = d@;
        self.destinations.set(i, d);
        self.changed = true;
        assert(text::views(self.destinations@) =~= before.destinations.update(i as int, dv));
        assert(dv.same_destination(before.current()));
        self.settle();
    }

    fn compare(&mut self, found: ObjectRevision)
        requires
            old(self)@.wf(),
            !(old(self)@.phase is Finished),
        ensures
            final(self)@ == old(self)@.compare(found@),
            final(self)@.wf(),
    {
        let d: &DestinationStatus = &self.destinations[self.index];
        assert(self@.current() == d@);
        let version = ObjectRevision::from(&self.source.metadata);
        if is_revision(&d.synced_version, &found) && is_revision(&d.source_version, &version) {
            self.settle();
        } else {
            self.phase = UpsertPhase::Write(found);
        }
    }

    /// Takes over what the API answered. An answer that is not waited for
    /// changes nothing.
    pub fn step(&mut self, reply: UpsertReply)
        requires
            old(self)@.wf(),
        ensures
            final(self)@ == old(self)@.step(reply@),
            final(self)@.wf(),
    {
        match (&self.phase, reply) {
            (UpsertPhase::Get, UpsertReply::Got(Ok(found))) => {
                let mut found = found;
                let version = ObjectRevision::from(&found.metadata);
                if found.metadata.deletion_timestamp.is_none() {
                    self.compare(version);
                } else {
                    // Without the finalizer the copy gets properly removed, and
                    // can be created again.
                    match utils::remove_finalizer(&mut found, FINALIZER) {
                        Ok(Some(patch)) => {
                            self.phase = UpsertPhase::Patch(patch, version);
                        },
                        _ => {
                            self.compare(version);
                        },
                    }
                }
            },
            (UpsertPhase::Get, UpsertReply::Got(Err(e))) => {
                if e.is_not_found() {
                    self.phase = UpsertPhase::Create;
                } else {
                    self.give_up();
                }
            },
            (UpsertPhase::Patch(_, version), UpsertReply::Patched(r)) => {
                let version = version.clone();
                match utils::finalizer_removed(r) {
                    Ok(_) => {
                        self.retry();
                    },
                    Err(_) => {
                        self.compare(version);
                    },
                }
            },
            (UpsertPhase::Write(_), UpsertReply::Written(Ok(written))) => {
                self.record(&written);
            },
            (UpsertPhase::Write(_), UpsertReply::Written(Err(e))) => {
                if e.is_not_found() || e.is_conflict() {
                    self.retry();
                } else {
                    self.give_up();
                }
            },
            (UpsertPhase::Create, UpsertReply::Created(Ok(created))) => {
                self.record(&created);
            },
            (UpsertPhase::Create, UpsertReply::Created(Err(e))) => {
                if e.is_conflict() {
                    self.retry();
                } else {
                    self.give_up();
                }
            },
            _ => (),
        }
    }

    /// What is to be done next.
    pub fn action(&self) -> (res: UpsertAction)
        requires
            self@.wf(),
        ensures
            res@ == self@.action(),
    {
        match &self.phase {
            UpsertPhase::Finished => {
                let destinations = self.destinations.clone();
                assert(text::views(destinations@) =~= text::views(self.destinations@));
                UpsertAction::Done(
                    UpsertOutcome {
                        destinations,
                        changed: self.changed,
                        expected: self.destinations.len(),
                        observed: self.observed,
                    },
                )
            },
            phase => {
                let d: &DestinationStatus = &self.destinations[self.index];
                assert(self@.current() == d@);
                let namespace = d.namespace.clone();
                let name = d.name.clone();
                match phase {
                    UpsertPhase::Get => UpsertAction::Get { namespace, name },
                    UpsertPhase::Patch(patch, _) => UpsertAction::Patch {
                        namespace,
                        patch: patch.clone(),
                    },
                    UpsertPhase::Write(over) => {
                        let object = make_copy(&self.source, d, over);
                        match d.strategy() {
                            SyncStrategy::Replace => UpsertAction::Replace {
                                namespace,
                                name,
                                params: PostParams::managed(),
                                object,
                            },
                            SyncStrategy::Apply => UpsertAction::Apply {
                                namespace,
                                apply: ApplyPatch { name, params: PatchParams::apply(), object },
                            },
                        }
                    },
                    _ => {
                        let none = ObjectRevision { uid: None, resource_version: None };
                        UpsertAction::Create {
                            namespace,
                            params: PostParams::managed(),
                            object: make_copy(&self.source, d, &none),
                        }
                    },
                }
            },
        }
    }
}

/// Whether `d` is one of the remnants.
fn is_remnant_of(remnants: &Vec<DestinationStatus>, d: &DestinationStatus) -> (res: bool)
    ensures
        res == is_remnant(text::views(remnants@), d@),
{
    let ghost all = text::views(remnants@);
    let mut i: usize = 0;
    while i < remnants.len()
        invariant
            i <= remnants@.len(),
            all == text::views(remnants@),
            forall|j: int| 0 <= j < i ==> !(#[trigger] all[j]).same_destination(d@),
        decreases remnants@.len() - i,
    {
        if ResourceControllerImpl::is_same_destination(&remnants[i], d) {
            assert(all[i as int].same_destination(d@));
            return true;
        }
        i = i + 1;
    }
    false
}

/// Whether the recorded revision is `r`.
fn is_revision(recorded: &Option<ObjectRevision>, r: &ObjectRevision) -> (res: bool)
    ensures
        res == (text::view_opt(*recorded) == Some(r@)),
{
    match recorded {
        Some(v) => v.same(r),
        None => false,
    }
}

/// How many answers are ahead at most: there are three attempts for each
/// destination, and three answers to each attempt.
pub open spec fn upsert_measure(s: UpsertDestinationsView) -> int {
    9 * (s.destinations.len() - s.index) - (match s.phase {
        UpsertPhaseView::Get => 0int,
        UpsertPhaseView::Patch(_, _) => 1,
        UpsertPhaseView::Write(_) => 2,
        UpsertPhaseView::Create => 2,
        UpsertPhaseView::Finished => 0,
    }) - (if s.phase is Finished {
        0
    } else {
        3 * (RETRIES - s.retries)
    })
}

/// An awaited answer makes the measure of the work ahead smaller, and the
/// measure is zero at the end only: the writing ends, whatever the API answers.
pub proof fn law_upsert_makes_progress(s: UpsertDestinationsView, reply: UpsertReplyView)
    requires
        s.wf(),
        s.expects(reply),
    ensures
        0 <= upsert_measure(s.step(reply)) < upsert_measure(s),
        upsert_measure(s.step(reply)) == 0 <==> s.step(reply).phase is Finished,
{
    lemma_upsert_step_wf(s, reply);
    lemma_skip_remnants(s.destinations, s.remnants, s.index + 1);
    if let UpsertReplyView::Written(Ok(o)) = reply {
        lemma_record(s, api::ObjectRevisionView::of(o.metadata));
    }
    if let UpsertReplyView::Created(Ok(o)) = reply {
        lemma_record(s, api::ObjectRevisionView::of(o.metadata));
    }
}

/// The current destination as it is recorded after a write.
spec fn recorded(
    s: UpsertDestinationsView,
    written: api::ObjectRevisionView,
) -> api::DestinationStatusView {
    api::DestinationStatusView {
        synced_version: Some(written),
        source_version: Some(s.source_version()),
        ..s.current()
    }
}

proof fn lemma_record(s: UpsertDestinationsView, written: api::ObjectRevisionView)
    requires
        s.wf(),
        s.index < s.destinations.len(),
    ensures
        s.record(written).destinations == s.destinations.update(s.index, recorded(s, written)),
        s.index < s.record(written).index <= s.destinations.len(),
        forall|j: int|
            s.index < j < s.record(written).index ==> is_remnant(
                s.remnants,
                #[trigger] s.destinations[j],
            ),
{
    let after = s.destinations.update(s.index, recorded(s, written));
    lemma_skip_remnants(after, s.remnants, s.index + 1);
    assert forall|j: int| s.index < j < s.record(written).index implies is_remnant(
        s.remnants,
        #[trigger] s.destinations[j],
    ) by {
        assert(after[j] == s.destinations[j]);
    }
}

/// Whether the copy is in sync with the source of this revision.
pub open spec fn settled(d: api::DestinationStatusView, version: api::ObjectRevisionView) -> bool {
    d.source_version == Some(version) && d.synced_version is Some
}

/// How many copies are in sync with the source of this revision.
pub open spec fn settled_count(
    destinations: Seq<api::DestinationStatusView>,
    version: api::ObjectRevisionView,
) -> nat
    decreases destinations.len(),
{
    if destinations.len() == 0 {
        0
    } else {
        settled_count(destinations.drop_last(), version) + if settled(destinations.last(), version) {
            1nat
        } else {
            0
        }
    }
}

proof fn lemma_settled_count(
    destinations: Seq<api::DestinationStatusView>,
    version: api::ObjectRevisionView,
)
    ensures
        settled_count(destinations, version) <= destinations.len(),
        settled_count(destinations, version) == destinations.len() ==> forall|i: int|
            0 <= i < destinations.len() ==> settled(#[trigger] destinations[i], version),
    decreases destinations.len(),
{
    if destinations.len() > 0 {
        let r = destinations.drop_last();
        lemma_settled_count(r, version);
        if settled_count(destinations, version) == destinations.len() {
            assert forall|i: int| 0 <= i < destinations.len() implies settled(
                #[trigger] destinations[i],
                version,
            ) by {
                if i < r.len() {
                    assert(r[i] == destinations[i]);
                }
            }
        }
    }
}

proof fn lemma_settled_count_grows(
    destinations: Seq<api::DestinationStatusView>,
    version: api::ObjectRevisionView,
    i: int,
    j: int,
)
    requires
        0 <= i <= j <= destinations.len(),
    ensures
        settled_count(destinations.take(i), version) <= settled_count(destinations.take(j), version),
        i < j && settled(destinations[i], version) ==> settled_count(destinations.take(i), version)
            < settled_count(destinations.take(j), version),
    decreases j - i,
{
    if i < j {
        let t = destinations.take(j);
        assert(t.drop_last() =~= destinations.take(j - 1));
        assert(t.last() == destinations[j - 1]);
        lemma_settled_count_grows(destinations, version, i, j - 1);
    }
}

/// Whatever the API answers, no more destinations are counted than are in sync.
proof fn lemma_observed_are_settled(s: UpsertDestinationsView, replies: Seq<UpsertReplyView>)
    requires
        s.wf(),
        s.observed <= settled_count(s.destinations.take(s.index), s.source_version()),
    ensures
        s.run(replies).wf(),
        s.run(replies).source == s.source,
        s.run(replies).observed <= settled_count(
            s.run(replies).destinations.take(s.run(replies).index),
            s.source_version(),
        ),
    decreases replies.len(),
{
    if replies.len() > 0 {
        lemma_observed_are_settled(s, replies.drop_last());
        let a = s.run(replies.drop_last());
        let reply = replies.last();
        let b = a.step(reply);
        let version = s.source_version();
        lemma_upsert_step_wf(a, reply);
        if a.expects(reply) {
            lemma_skip_remnants(a.destinations, a.remnants, a.index + 1);
            let written = match reply {
                UpsertReplyView::Written(Ok(o)) => Some(api::ObjectRevisionView::of(o.metadata)),
                UpsertReplyView::Created(Ok(o)) => Some(api::ObjectRevisionView::of(o.metadata)),
                _ => None,
            };
            if let Some(w) = written {
                lemma_record(a, w);
                assert(b.destinations.take(a.index) =~= a.destinations.take(a.index));
                assert(settled(b.destinations[a.index], version));
            }
            lemma_settled_count_grows(b.destinations, version, a.index, b.index);
        }
    }
}

/// Where all the destinations count as in sync at the end, every one of them was
/// synchronized from the source as it is.
pub proof fn law_in_sync_means_in_sync(
    source: meta::DynamicObjectView,
    destinations: Seq<api::DestinationStatusView>,
    remnants: Seq<api::DestinationStatusView>,
    replies: Seq<UpsertReplyView>,
    outcome: UpsertOutcomeView,
    i: int,
)
    requires
        UpsertDestinationsView::start(source, destinations, remnants).run(replies).action()
            == UpsertActionView::Done(outcome),
        outcome.observed == outcome.expected,
        0 <= i < outcome.destinations.len(),
    ensures
        settled(outcome.destinations[i], api::ObjectRevisionView::of(source.metadata)),
{
    let s = UpsertDestinationsView::start(source, destinations, remnants);
    lemma_skip_remnants(destinations, remnants, 0);
    lemma_observed_are_settled(s, replies);
    let e = s.run(replies);
    let version = api::ObjectRevisionView::of(source.metadata);
    assert(e.destinations.take(e.index) =~= e.destinations);
    lemma_settled_count(e.destinations, version);
}

/// A step leaves what a destination is as it is, writes nothing about remnants,
/// and changes no destination unless it says so.
proof fn lemma_step_keeps(s: UpsertDestinationsView, reply: UpsertReplyView, i: int)
    requires
        s.wf(),
        0 <= i < s.destinations.len(),
    ensures
        s.step(reply).wf(),
        s.step(reply).remnants == s.remnants,
        s.step(reply).source == s.source,
        s.step(reply).destinations.len() == s.destinations.len(),
        s.step(reply).destinations[i] == s.destinations[i].with_versions_of(
            s.step(reply).destinations[i],
        ),
        is_remnant(s.remnants, s.destinations[i]) ==> s.step(reply).destinations[i]
            == s.destinations[i],
        s.changed ==> s.step(reply).changed,
        !s.step(reply).changed ==> s.step(reply).destinations == s.destinations,
{
    lemma_upsert_step_wf(s, reply);
    if s.expects(reply) {
        if let UpsertReplyView::Written(Ok(o)) = reply {
            lemma_record(s, api::ObjectRevisionView::of(o.metadata));
        }
        if let UpsertReplyView::Created(Ok(o)) = reply {
            lemma_record(s, api::ObjectRevisionView::of(o.metadata));
        }
    }
}

/// Writing the copies tracks the same destinations as before, only their
/// revisions change. What is recorded of a remnant stays as it is, and so does
/// everything where no copy was written.
pub proof fn law_upsert_keeps_destinations(
    source: meta::DynamicObjectView,
    destinations: Seq<api::DestinationStatusView>,
    remnants: Seq<api::DestinationStatusView>,
    replies: Seq<UpsertReplyView>,
    i: int,
)
    requires
        0 <= i < destinations.len(),
    ensures
        ({
            let end = UpsertDestinationsView::start(source, destinations, remnants).run(replies);
            &&& end.wf()
            &&& end.remnants == remnants
            &&& end.source == source
            &&& end.destinations.len() == destinations.len()
            &&& end.destinations[i] == destinations[i].with_versions_of(end.destinations[i])
            &&& is_remnant(remnants, destinations[i]) ==> end.destinations[i] == destinations[i]
            &&& !end.changed ==> end.destinations == destinations
        }),
    decreases replies.len(),
{
    let s = UpsertDestinationsView::start(source, destinations, remnants);
    lemma_skip_remnants(destinations, remnants, 0);
    if replies.len() > 0 {
        law_upsert_keeps_destinations(source, destinations, remnants, replies.drop_last(), i);
        let a = s.run(replies.drop_last());
        lemma_step_keeps(a, replies.last(), i);
        assert(is_remnant(remnants, destinations[i]) ==> is_remnant(remnants, a.destinations[i]));
    }
}

/// A copy that is missing is created.
pub proof fn law_missing_copy_is_created(
    s: UpsertDestinationsView,
    e: errors::KubeErrorView,
)
    requires
        s.wf(),
        s.phase is Get,
        e.not_found(),
    ensures
        s.step(UpsertReplyView::Got(Err(e))).action() == (UpsertActionView::Create {
            namespace: s.current().namespace,
            params: request::PostParamsView::managed(),
            object: copy_of(
                s.source,
                s.current(),
                api::ObjectRevisionView { uid: None, resource_version: None },
            ),
        }),
{
}

/// A copy is written over exactly where it is not the one that was synchronized
/// last, or where the source has changed since: drift and changes of the source
/// lead to a write, and nothing else does.
pub proof fn law_drift_is_corrected(s: UpsertDestinationsView, found: meta::DynamicObjectView)
    requires
        s.wf(),
        s.phase is Get,
        found.metadata.live(),
    ensures
        ({
            let version = api::ObjectRevisionView::of(found.metadata);
            let after = s.step(UpsertReplyView::Got(Ok(found)));
            if s.in_sync(version) {
                &&& after.destinations == s.destinations
                &&& after.observed == s.observed + 1
                &&& after.index > s.index
            } else {
                after.action() == s.write_over(version)
            }
        }),
{
    lemma_skip_remnants(s.destinations, s.remnants, s.index + 1);
}

/// What is written to a destination after a success is recorded, and the
/// destination is in sync from then on.
pub proof fn law_written_copy_is_recorded(s: UpsertDestinationsView, written: meta::DynamicObjectView)
    requires
        s.wf(),
        s.phase is Write || s.phase is Create,
    ensures
        ({
            let after = s.step(
                if s.phase is Write {
                    UpsertReplyView::Written(Ok(written))
                } else {
                    UpsertReplyView::Created(Ok(written))
                },
            );
            &&& after.changed
            &&& after.observed == s.observed + 1
            &&& after.destinations[s.index].synced_version == Some(
                api::ObjectRevisionView::of(written.metadata),
            )
            &&& after.destinations[s.index].source_version == Some(s.source_version())
        }),
{
    lemma_record(s, api::ObjectRevisionView::of(written.metadata));
}

/// A copy has the content of the source, and its labels and annotations but for
/// the ones that mark it as a copy.
pub proof fn law_copy_has_content_of_source(
    source: meta::DynamicObjectView,
    d: api::DestinationStatusView,
    over: api::ObjectRevisionView,
    key: Text,
)
    ensures
        copy_of(source, d, over).data == source.data,
        copy_of(source, d, over).types == source.types,
        meta::lookup(entries(copy_of(source, d, over).metadata.labels), key) == (if key
            == MANAGED_BY_LABEL@ {
            Some(MANAGER@)
        } else {
            meta::lookup(entries(source.metadata.labels), key)
        }),
        meta::lookup(entries(copy_of(source, d, over).metadata.annotations), key) == (if key
            == SOURCE_OBJECT_ANNOTATION@ {
            Some(source_reference(source.metadata))
        } else {
            meta::lookup(entries(source.metadata.annotations), key)
        }),
{
    meta::lemma_with_entry_lookup(
        entries(source.metadata.labels),
        MANAGED_BY_LABEL@,
        MANAGER@,
        key,
    );
    meta::lemma_with_entry_lookup(
        entries(source.metadata.annotations),
        SOURCE_OBJECT_ANNOTATION@,
        source_reference(source.metadata),
        key,
    );
}

/// A copy that is being deleted loses the finalizer, so that it goes away, and is
/// then looked at again, to be created anew.
pub proof fn law_deleted_copy_is_released(
    s: UpsertDestinationsView,
    found: meta::DynamicObjectView,
    patch: request::JsonPatchView,
)
    requires
        s.wf(),
        s.phase is Get,
        s.retries > 0,
        !found.metadata.live(),
        utils::finalizer_removal(found, FINALIZER@) == Ok::<
            Option<request::JsonPatchView>,
            errors::ControllerErrorView,
        >(Some(patch)),
    ensures
        ({
            let patching = s.step(UpsertReplyView::Got(Ok(found)));
            let again = patching.step(UpsertReplyView::Patched(Ok(())));
            &&& patching.action() == (UpsertActionView::Patch {
                namespace: s.current().namespace,
                patch,
            })
            &&& again.action() == s.action()
            &&& again.destinations == s.destinations
        }),
{
}

/// The destinations whose copies were read on the way.
pub open spec fn looked_at(s: UpsertDestinationsView, replies: Seq<UpsertReplyView>) -> Set<int>
    decreases replies.len(),
{
    if replies.len() == 0 {
        Set::empty()
    } else {
        let before = looked_at(s, replies.drop_last());
        let at = s.run(replies.drop_last());
        if at.phase is Get && replies.last() is Got {
            before.insert(at.index)
        } else {
            before
        }
    }
}

proof fn lemma_looked_at(
    source: meta::DynamicObjectView,
    destinations: Seq<api::DestinationStatusView>,
    remnants: Seq<api::DestinationStatusView>,
    replies: Seq<UpsertReplyView>,
)
    ensures
        ({
            let s = UpsertDestinationsView::start(source, destinations, remnants);
            let at = s.run(replies);
            &&& at.wf()
            &&& at.destinations.len() == destinations.len()
            &&& at.remnants == remnants
            &&& forall|i: int|
                0 <= i < at.index && !is_remnant(remnants, #[trigger] destinations[i]) ==> looked_at(
                    s,
                    replies,
                ).contains(i)
            &&& !(at.phase is Get) && !(at.phase is Finished) ==> looked_at(s, replies).contains(
                at.index,
            )
        }),
    decreases replies.len(),
{
    let s = UpsertDestinationsView::start(source, destinations, remnants);
    lemma_skip_remnants(destinations, remnants, 0);
    if replies.len() > 0 {
        let rest = replies.drop_last();
        let reply = replies.last();
        lemma_looked_at(source, destinations, remnants, rest);
        let a = s.run(rest);
        let b = a.step(reply);
        lemma_upsert_step_wf(a, reply);
        if a.expects(reply) {
            lemma_skip_remnants(a.destinations, a.remnants, a.index + 1);
            if let UpsertReplyView::Written(Ok(o)) = reply {
                lemma_record(a, api::ObjectRevisionView::of(o.metadata));
            }
            if let UpsertReplyView::Created(Ok(o)) = reply {
                lemma_record(a, api::ObjectRevisionView::of(o.metadata));
            }
            assert(looked_at(s, replies).contains(a.index));
            assert forall|i: int|
                0 <= i < b.index && !is_remnant(
                    remnants,
                    #[trigger] destinations[i],
                ) implies looked_at(s, replies).contains(i) by {
                if i > a.index {
                    law_upsert_keeps_destinations(source, destinations, remnants, rest, i);
                    assert(is_remnant(remnants, a.destinations[i]));
                    assert(a.destinations[i].same_destination(destinations[i]));
                    let k = choose|k: int|
                        0 <= k < remnants.len() && (#[trigger] remnants[k]).same_destination(
                            a.destinations[i],
                        );
                    assert(remnants[k].same_destination(destinations[i]));
                }
            }
        }
    }
}

/// At the end, every copy was read that is not there only because it could not be
/// removed. With it, every one of them that was missing or had drifted was written,
/// as far as the API let it.
pub proof fn law_every_copy_is_looked_at(
    source: meta::DynamicObjectView,
    destinations: Seq<api::DestinationStatusView>,
    remnants: Seq<api::DestinationStatusView>,
    replies: Seq<UpsertReplyView>,
    i: int,
)
    requires
        UpsertDestinationsView::start(source, destinations, remnants).run(replies).action() is Done,
        0 <= i < destinations.len(),
        !is_remnant(remnants, destinations[i]),
    ensures
        looked_at(
            UpsertDestinationsView::start(source, destinations, remnants),
            replies,
        ).contains(i),
{
    lemma_looked_at(source, destinations, remnants, replies);
}

/// Whether `object` is what is to stand at the destination `d` of `source`, with
/// these uid and version: types and content are those of the source, and so are its
/// labels and annotations, but for the label that names the syncer and the
/// annotation that names the source. It has the finalizer of the syncer alone, and
/// neither owners nor anything that the server sets.
pub open spec fn is_copy_at(
    object: meta::DynamicObjectView,
    source: meta::DynamicObjectView,
    d: api::DestinationStatusView,
    uid: Option<Text>,
    resource_version: Option<Text>,
) -> bool {
    &&& object.types == source.types
    &&& object.data == source.data
    &&& object.metadata.name == Some(d.name)
    &&& object.metadata.namespace == Some(d.namespace)
    &&& object.metadata.uid == uid
    &&& object.metadata.resource_version == resource_version
    &&& object.metadata.finalizers == Some(seq!["sync.rustrial.org/rustrial-object-syncer"@])
    &&& object.metadata.owner_references is None
    &&& object.metadata.managed_fields is None
    &&& object.metadata.creation_timestamp is None
    &&& object.metadata.generation is None
    &&& object.metadata.generate_name is None
    &&& object.metadata.self_link is None
    &&& object.metadata.deletion_timestamp == source.metadata.deletion_timestamp
    &&& object.metadata.deletion_grace_period_seconds
        == source.metadata.deletion_grace_period_seconds
    &&& object.metadata.labels matches Some(labels) && forall|key: Text|
        #![trigger meta::lookup(labels, key)]
        meta::lookup(labels, key) == (if key == "app.kubernetes.io/managed-by"@ {
            Some("rustrial-object-syncer"@)
        } else {
            match source.metadata.labels {
                Some(own) => meta::lookup(own, key),
                None => None,
            }
        })
    &&& object.metadata.annotations matches Some(annotations) && forall|key: Text|
        #![trigger meta::lookup(annotations, key)]
        (if key == "sync.rustrial.org/source-object"@ {
            meta::lookup(annotations, key) matches Some(value) && exists|ns: Text, name: Text|
                value == #[trigger] (ns + "/"@ + name) && meta::is_in(source.metadata, ns)
                    && meta::is_named(source.metadata, name)
        } else {
            meta::lookup(annotations, key) == match source.metadata.annotations {
                Some(own) => meta::lookup(own, key),
                None => None,
            }
        })
}

proof fn lemma_copy(
    source: meta::DynamicObjectView,
    d: api::DestinationStatusView,
    over: api::ObjectRevisionView,
)
    ensures
        is_copy_at(copy_of(source, d, over), source, d, over.uid, over.resource_version),
{
    let object = copy_of(source, d, over);
    let labels = object.metadata.labels->0;
    let annotations = object.metadata.annotations->0;
    assert forall|key: Text| #![trigger meta::lookup(labels, key)]
        meta::lookup(labels, key) == (if key == "app.kubernetes.io/managed-by"@ {
            Some("rustrial-object-syncer"@)
        } else {
            match source.metadata.labels {
                Some(own) => meta::lookup(own, key),
                None => None,
            }
        }) by {
        law_copy_has_content_of_source(source, d, over, key);
    }
    assert forall|key: Text| #![trigger meta::lookup(annotations, key)]
        (if key == "sync.rustrial.org/source-object"@ {
            meta::lookup(annotations, key) matches Some(value) && exists|ns: Text, name: Text|
                value == #[trigger] (ns + "/"@ + name) && meta::is_in(source.metadata, ns)
                    && meta::is_named(source.metadata, name)
        } else {
            meta::lookup(annotations, key) == match source.metadata.annotations {
                Some(own) => meta::lookup(own, key),
                None => None,
            }
        }) by {
        law_copy_has_content_of_source(source, d, over, key);
        let ns = text::or_empty(source.metadata.namespace);
        let name = source.metadata.name_any();
        assert(source_reference(source.metadata) == ns + "/"@ + name);
    }
}

/// Whether `action` writes the copy of `source` for `d` over the object with these
/// uid and version: by replacement where the destination says so, and else by
/// server-side apply.
pub open spec fn is_write_over(
    action: UpsertActionView,
    source: meta::DynamicObjectView,
    d: api::DestinationStatusView,
    uid: Option<Text>,
    resource_version: Option<Text>,
) -> bool {
    match action {
        UpsertActionView::Replace { namespace, name, params, object } => {
            &&& d.strategy == Some(SyncStrategy::Replace)
            &&& namespace == d.namespace
            &&& name == d.name
            &&& !params.dry_run
            &&& params.field_manager == Some("rustrial-object-syncer"@)
            &&& is_copy_at(object, source, d, uid, resource_version)
        },
        UpsertActionView::Apply { namespace, apply } => {
            &&& d.strategy != Some(SyncStrategy::Replace)
            &&& namespace == d.namespace
            &&& apply.name == d.name
            &&& apply.params.force
            &&& !apply.params.dry_run
            &&& apply.params.field_manager == Some("rustrial-object-syncer"@)
            &&& apply.params.field_validation is None
            &&& is_copy_at(apply.object, source, d, uid, resource_version)
        },
        _ => false,
    }
}

/// Whether `action` creates the copy of `source` for `d`.
pub open spec fn is_creation(
    action: UpsertActionView,
    source: meta::DynamicObjectView,
    d: api::DestinationStatusView,
) -> bool {
    match action {
        UpsertActionView::Create { namespace, params, object } => {
            &&& namespace == d.namespace
            &&& !params.dry_run
            &&& params.field_manager == Some("rustrial-object-syncer"@)
            &&& is_copy_at(object, source, d, None, None)
        },
        _ => false,
    }
}

/// Whether the destination is one that could not be removed: name, namespace, group
/// and kind tell it.
pub open spec fn is_left_over(
    remnants: Seq<api::DestinationStatusView>,
    d: api::DestinationStatusView,
) -> bool {
    exists|i: int|
        0 <= i < remnants.len() && (#[trigger] remnants[i]).name == d.name && remnants[i].namespace
            == d.namespace && remnants[i].group == d.group && remnants[i].kind == d.kind
}

proof fn lemma_left_over(
    remnants: Seq<api::DestinationStatusView>,
    d: api::DestinationStatusView,
)
    ensures
        is_left_over(remnants, d) <==> is_remnant(remnants, d),
{
    if is_left_over(remnants, d) {
        let i = choose|i: int|
            0 <= i < remnants.len() && (#[trigger] remnants[i]).name == d.name
                && remnants[i].namespace == d.namespace && remnants[i].group == d.group
                && remnants[i].kind == d.kind;
        assert(remnants[i].same_destination(d));
    }
}

/// Whether `next` is at the first destination from `i` on that is to be written, and
/// asks for the copy there, or is at the end where there is none. It may be tried
/// again twice.
pub open spec fn is_at_first_from(next: UpsertDestinationsView, i: int) -> bool {
    &&& i <= next.index <= next.destinations.len()
    &&& next.retries == 2
    &&& forall|j: int|
        i <= j < next.index ==> is_left_over(next.remnants, #[trigger] next.destinations[j])
    &&& if next.index < next.destinations.len() {
        let d = next.destinations[next.index];
        &&& !is_left_over(next.remnants, d)
        &&& next.phase is Get
        &&& next.action() == (UpsertActionView::Get { namespace: d.namespace, name: d.name })
    } else {
        &&& next.phase is Finished
        &&& next.action() == UpsertActionView::Done(
            (UpsertOutcomeView {
                destinations: next.destinations,
                changed: next.changed,
                expected: next.destinations.len(),
                observed: next.observed as nat,
            }),
        )
    }
}

/// Whether `next` differs from `s` neither in what is to be copied nor in what has
/// been recorded.
pub open spec fn is_as_before(s: UpsertDestinationsView, next: UpsertDestinationsView) -> bool {
    &&& next.source == s.source
    &&& next.remnants == s.remnants
    &&& next.destinations == s.destinations
    &&& next.changed == s.changed
}

/// Whether `next` has left the current destination as it is and gone on.
pub open spec fn is_given_up(s: UpsertDestinationsView, next: UpsertDestinationsView) -> bool {
    &&& is_as_before(s, next)
    &&& next.observed == s.observed
    &&& is_at_first_from(next, s.index + 1)
}

/// Whether `next` looks at the current destination again, one time less, or has
/// given it up where it was tried often enough.
pub open spec fn is_tried_again(s: UpsertDestinationsView, next: UpsertDestinationsView) -> bool {
    if s.retries > 0 {
        &&& is_as_before(s, next)
        &&& next.observed == s.observed
        &&& next.index == s.index
        &&& next.retries == s.retries - 1
        &&& next.phase is Get
    } else {
        is_given_up(s, next)
    }
}

/// Whether `next` has recorded the object with this uid and version as the copy that
/// was synchronized last from the source as it is, and has gone on.
pub open spec fn is_recorded(
    s: UpsertDestinationsView,
    next: UpsertDestinationsView,
    uid: Option<Text>,
    resource_version: Option<Text>,
) -> bool {
    let d = s.destinations[s.index];
    let e = next.destinations[s.index];
    &&& next.source == s.source
    &&& next.remnants == s.remnants
    &&& next.changed
    &&& next.observed == s.observed + 1
    &&& next.destinations.len() == s.destinations.len()
    &&& forall|j: int|
        0 <= j < s.destinations.len() && j != s.index ==> (#[trigger] next.destinations[j])
            == s.destinations[j]
    &&& e.name == d.name && e.namespace == d.namespace && e.group == d.group && e.version
        == d.version && e.kind == d.kind && e.strategy == d.strategy
    &&& e.synced_version matches Some(v) && v.uid == uid && v.resource_version == resource_version
    &&& e.source_version matches Some(v) && v.uid == s.source.metadata.uid && v.resource_version
        == s.source.metadata.resource_version
    &&& is_at_first_from(next, s.index + 1)
}

/// Whether `next` is what follows where the copy is the object with this uid and
/// version: it is settled exactly where the status records this very uid and version
/// as synchronized, from the source as it is, and is written over else.
pub open spec fn is_decided(
    s: UpsertDestinationsView,
    next: UpsertDestinationsView,
    uid: Option<Text>,
    resource_version: Option<Text>,
) -> bool {
    let d = s.destinations[s.index];
    let is_known = (d.synced_version matches Some(v) && v.uid == uid && v.resource_version
        == resource_version) && (d.source_version matches Some(v) && v.uid == s.source.metadata.uid
        && v.resource_version == s.source.metadata.resource_version);
    &&& is_as_before(s, next)
    &&& is_known ==> next.observed == s.observed + 1 && is_at_first_from(next, s.index + 1)
    &&& !is_known ==> next.observed == s.observed && next.index == s.index && next.retries
        == s.retries && is_write_over(next.action(), s.source, d, uid, resource_version)
}

proof fn lemma_at_first(s: UpsertDestinationsView, i: int)
    requires
        0 <= i <= s.destinations.len(),
    ensures
        is_at_first_from(s.go_to(i), i),
{
    lemma_skip_remnants(s.destinations, s.remnants, i);
    let next = s.go_to(i);
    assert forall|j: int| i <= j < next.index implies is_left_over(
        next.remnants,
        #[trigger] next.destinations[j],
    ) by {
        lemma_left_over(next.remnants, next.destinations[j]);
    }
    if next.index < next.destinations.len() {
        lemma_left_over(next.remnants, next.destinations[next.index]);
    }
}

proof fn lemma_settled(s: UpsertDestinationsView)
    requires
        0 <= s.index < s.destinations.len(),
    ensures
        is_at_first_from(s.settle(), s.index + 1),
{
    lemma_at_first(s, s.index + 1);
    let next = s.settle();
    let gone = s.go_to(s.index + 1);
    assert forall|j: int| s.index + 1 <= j < next.index implies is_left_over(
        next.remnants,
        #[trigger] next.destinations[j],
    ) by {
        assert(is_left_over(gone.remnants, gone.destinations[j]));
    }
}

proof fn lemma_decided(s: UpsertDestinationsView, found: api::ObjectRevisionView)
    requires
        0 <= s.index < s.destinations.len(),
    ensures
        is_decided(s, s.compare(found), found.uid, found.resource_version),
{
    let d = s.destinations[s.index];
    lemma_settled(s);
    lemma_copy(s.source, d, found);
    if d.synced_version matches Some(v) && v.uid == found.uid && v.resource_version
        == found.resource_version {
        assert(d.synced_version->0 == found);
    }
    if d.source_version matches Some(v) && v.uid == s.source.metadata.uid && v.resource_version
        == s.source.metadata.resource_version {
        assert(d.source_version->0 == s.source_version());
    }
}

/// A copy that is read and not being deleted is left alone exactly where it is the
/// very object that the status records as synchronized, of this uid and version,
/// from the source of this uid and version. In every other case the next action
/// writes the copy over that object, by either strategy.
pub proof fn law_found_copy_decides(s: UpsertDestinationsView, found: meta::DynamicObjectView)
    requires
        0 <= s.index < s.destinations.len(),
        s.phase is Get,
        found.metadata.deletion_timestamp is None,
    ensures
        is_decided(
            s,
            s.step(UpsertReplyView::Got(Ok(found))),
            found.metadata.uid,
            found.metadata.resource_version,
        ),
{
    lemma_decided(s, api::ObjectRevisionView::of(found.metadata));
}

/// A copy that is being deleted is patched so that it loses the finalizer of the
/// syncer. Where there is nothing to patch, it is treated as any other copy.
pub proof fn law_copy_being_deleted_is_released(
    s: UpsertDestinationsView,
    found: meta::DynamicObjectView,
)
    requires
        0 <= s.index < s.destinations.len(),
        s.phase is Get,
        found.metadata.deletion_timestamp is Some,
    ensures
        ({
            let next = s.step(UpsertReplyView::Got(Ok(found)));
            match utils::finalizer_removal(found, "sync.rustrial.org/rustrial-object-syncer"@) {
                Ok(Some(patch)) => {
                    &&& is_as_before(s, next)
                    &&& next.observed == s.observed
                    &&& next.index == s.index
                    &&& next.retries == s.retries
                    &&& next.action() == (UpsertActionView::Patch {
                        namespace: s.destinations[s.index].namespace,
                        patch,
                    })
                    &&& next.phase matches UpsertPhaseView::Patch(_, version) && version.uid
                        == found.metadata.uid && version.resource_version
                        == found.metadata.resource_version
                },
                _ => is_decided(s, next, found.metadata.uid, found.metadata.resource_version),
            }
        }),
{
    lemma_decided(s, api::ObjectRevisionView::of(found.metadata));
}

/// A copy that the server does not know is created. On any other error the
/// destination is left as it is.
pub proof fn law_missing_copies_are_created(s: UpsertDestinationsView, e: errors::KubeErrorView)
    requires
        0 <= s.index < s.destinations.len(),
        s.phase is Get,
    ensures
        ({
            let next = s.step(UpsertReplyView::Got(Err(e)));
            if errors::is_status(e, 404) || errors::is_status(e, 410) {
                &&& is_as_before(s, next)
                &&& next.observed == s.observed
                &&& next.index == s.index
                &&& next.retries == s.retries
                &&& next.phase is Create
                &&& is_creation(next.action(), s.source, s.destinations[s.index])
            } else {
                is_given_up(s, next)
            }
        }),
{
    lemma_at_first(s, s.index + 1);
    lemma_copy(
        s.source,
        s.destinations[s.index],
        api::ObjectRevisionView { uid: None, resource_version: None },
    );
}

/// A copy that was released, or is gone, is looked at again. Where the patch failed,
/// the copy that was read is treated as any other.
pub proof fn law_released_copy_is_looked_at_again(
    s: UpsertDestinationsView,
    reply: Result<(), errors::KubeErrorView>,
)
    requires
        0 <= s.index < s.destinations.len(),
        s.phase is Patch,
    ensures
        ({
            let next = s.step(UpsertReplyView::Patched(reply));
            let version = s.phase->Patch_1;
            if reply matches Err(e) && !errors::is_status(e, 404) && !errors::is_status(e, 410) {
                is_decided(s, next, version.uid, version.resource_version)
            } else {
                is_tried_again(s, next)
            }
        }),
{
    lemma_at_first(s, s.index + 1);
    lemma_decided(s, s.phase->Patch_1);
}

proof fn lemma_recorded(s: UpsertDestinationsView, written: api::ObjectRevisionView)
    requires
        0 <= s.index < s.destinations.len(),
    ensures
        is_recorded(s, s.record(written), written.uid, written.resource_version),
{
    let t = UpsertDestinationsView {
        destinations: s.destinations.update(s.index, recorded(s, written)),
        changed: true,
        ..s
    };
    assert(s.record(written) == t.settle());
    lemma_settled(t);
}

/// What the server stored is recorded, with its uid and version and those of the
/// source, after a write and after a creation. A write that clashed with another
/// one, or hit nothing, is tried again, and so is a creation that clashed. On any
/// other error the destination is left as it is.
pub proof fn law_stored_copy_is_recorded(
    s: UpsertDestinationsView,
    stored: meta::DynamicObjectView,
    e: errors::KubeErrorView,
)
    requires
        0 <= s.index < s.destinations.len(),
    ensures
        s.phase is Write ==> is_recorded(
            s,
            s.step(UpsertReplyView::Written(Ok(stored))),
            stored.metadata.uid,
            stored.metadata.resource_version,
        ),
        s.phase is Create ==> is_recorded(
            s,
            s.step(UpsertReplyView::Created(Ok(stored))),
            stored.metadata.uid,
            stored.metadata.resource_version,
        ),
        s.phase is Write ==> if errors::is_status(e, 404) || errors::is_status(e, 409)
            || errors::is_status(e, 410) {
            is_tried_again(s, s.step(UpsertReplyView::Written(Err(e))))
        } else {
            is_given_up(s, s.step(UpsertReplyView::Written(Err(e))))
        },
        s.phase is Create ==> if errors::is_status(e, 409) {
            is_tried_again(s, s.step(UpsertReplyView::Created(Err(e))))
        } else {
            is_given_up(s, s.step(UpsertReplyView::Created(Err(e))))
        },
{
    lemma_recorded(s, api::ObjectRevisionView::of(stored.metadata));
    lemma_at_first(s, s.index + 1);
}

/// The writing of copies starts at the first destination that is to be written, with
/// nothing written yet.
pub proof fn law_upsert_starts_at_the_first(
    source: meta::DynamicObjectView,
    destinations: Seq<api::DestinationStatusView>,
    remnants: Seq<api::DestinationStatusView>,
)
    ensures
        ({
            let s = UpsertDestinationsView::start(source, destinations, remnants);
            &&& s.source == source
            &&& s.destinations == destinations
            &&& s.remnants == remnants
            &&& !s.changed
            &&& s.observed == 0
            &&& is_at_first_from(s, 0)
        }),
{
    let s = UpsertDestinationsView::start(source, destinations, remnants);
    let t = UpsertDestinationsView {
        source,
        destinations,
        remnants,
        index: 0,
        retries: 0,
        phase: UpsertPhaseView::Finished,
        changed: false,
        observed: 0,
    };
    lemma_at_first(t, 0);
}

/// What the current destination waits for is what is asked for: its copy, the write
/// over the object that was read, or the creation. A reply to something else changes
/// nothing, and each reply is taken by itself.
pub proof fn law_upsert_asks_for_what_it_awaits(
    s: UpsertDestinationsView,
    reply: UpsertReplyView,
    replies: Seq<UpsertReplyView>,
)
    requires
        0 <= s.index < s.destinations.len(),
    ensures
        ({
            let d = s.destinations[s.index];
            match s.phase {
                UpsertPhaseView::Get => {
                    &&& s.action() == (UpsertActionView::Get {
                        namespace: d.namespace,
                        name: d.name,
                    })
                    &&& !(reply is Got) ==> s.step(reply) == s
                },
                UpsertPhaseView::Patch(patch, _) => {
                    &&& s.action() == (UpsertActionView::Patch { namespace: d.namespace, patch })
                    &&& !(reply is Patched) ==> s.step(reply) == s
                },
                UpsertPhaseView::Write(over) => {
                    &&& is_write_over(s.action(), s.source, d, over.uid, over.resource_version)
                    &&& !(reply is Written) ==> s.step(reply) == s
                },
                UpsertPhaseView::Create => {
                    &&& is_creation(s.action(), s.source, d)
                    &&& !(reply is Created) ==> s.step(reply) == s
                },
                UpsertPhaseView::Finished => s.step(reply) == s,
            }
        }),
        s.run(Seq::empty()) == s,
        s.run(replies.push(reply)) == s.run(replies).step(reply),
{
    let d = s.destinations[s.index];
    if let UpsertPhaseView::Write(over) = s.phase {
        lemma_copy(s.source, d, over);
    }
    lemma_copy(s.source, d, api::ObjectRevisionView { uid: None, resource_version: None });
    assert(replies.push(reply).drop_last() =~= replies);
}

/// The calls do what the laws on them say: the writing starts with these objects,
/// each reply leads to the next step, and what is asked for is the next action. A
/// copy that is not being deleted is written over unless it is the very object that
/// the status records.
pub proof fn law_writing_of_copies(
    source: DynamicObject,
    destinations: Vec<DestinationStatus>,
    remnants: Vec<DestinationStatus>,
    started: UpsertDestinations,
    s: &mut UpsertDestinations,
    reply: UpsertReply,
    t: &UpsertDestinations,
    action: UpsertAction,
)
    requires
        call_ensures(UpsertDestinations::new, (source, destinations, remnants), started),
        call_ensures(UpsertDestinations::step, (s, reply), ()),
        call_ensures(UpsertDestinations::action, (t,), action),
    ensures
        started@ == UpsertDestinationsView::start(
            source@,
            text::views(destinations@),
            text::views(remnants@),
        ),
        final(s)@ == old(s)@.step(reply@),
        action@ == t@.action(),
        reply matches UpsertReply::Got(Ok(found)) ==> (0 <= old(s)@.index < old(
            s,
        )@.destinations.len() && old(s)@.phase is Get && found.metadata.deletion_timestamp is None
            ==> is_decided(
            old(s)@,
            final(s)@,
            text::view_opt(found.metadata.uid),
            text::view_opt(found.metadata.resource_version),
        )),
{
    if let UpsertReply::Got(Ok(found)) = reply {
        if 0 <= old(s)@.index < old(s)@.destinations.len() && old(s)@.phase is Get
            && found.metadata.deletion_timestamp is None {
            law_found_copy_decides(old(s)@, found@);
        }
    }
}

/// The copy that is made of a source is what is to stand at the destination, over
/// the object of this revision.
pub proof fn law_copy_of_a_source(
    source: &DynamicObject,
    d: &DestinationStatus,
    over: &ObjectRevision,
    copy: DynamicObject,
)
    requires
        call_ensures(make_copy, (source, d, over), copy),
    ensures
        is_copy_at(
            copy@,
            source@,
            d@,
            text::view_opt(over.uid),
            text::view_opt(over.resource_version),
        ),
        copy.metadata.name matches Some(name) && name@ == d.name@,
        copy.metadata.namespace matches Some(namespace) && namespace@ == d.namespace@,
{
    lemma_copy(source@, d@, over@);
    assert(copy@.metadata.name == Some(d@.name));
    assert(copy@.metadata.namespace == Some(d@.namespace));
}

} // verus!
