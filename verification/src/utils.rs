//! Names of objects, finalizers, and other small things both controllers need.
use crate::api;
use crate::api::ObjectSync;
use crate::errors;
use crate::errors::{ControllerError, KubeError};
use crate::meta;
use crate::meta::{DynamicObject, GroupVersionKind, ObjectMeta, TypeMeta};
use crate::object_sync_modifications;
use crate::object_sync_modifications::ObjectSyncModifications;
use crate::outside;
use crate::request;
use crate::request::{ApplyPatch, JsonPatch, PatchParams};
use crate::text;
use crate::text::Text;
use crate::wire;
use vstd::prelude::*;
use vstd::string::*;

verus! {

/// A name and the namespace it stands in.
#[derive(Debug, PartialEq, Eq, Hash)]
pub struct NamespacedName {
    /// The name of the object.
    pub name: String,
    /// The namespace of the object.
    pub namespace: String,
}

/// The model of [`NamespacedName`].
#[verifier::ext_equal]
pub struct NamespacedNameView {
    pub name: Text,
    pub namespace: Text,
}

impl View for NamespacedName {
    type V = NamespacedNameView;

    open spec fn view(&self) -> NamespacedNameView {
        NamespacedNameView {
            name: self.name@,
            namespace: self.namespace@,
        }
    }
}

impl Clone for NamespacedName {
    fn clone(&self) -> (res: Self)
        ensures
            res@ == self@,
    {
        let res = NamespacedName {
            name: self.name.clone(),
            namespace: self.namespace.clone(),
        };
        assert(res@ =~~= self@);
        res
    }
}

impl NamespacedNameView {
    /// The name and the namespace in metadata.
    pub open spec fn of(m: meta::ObjectMetaView) -> NamespacedNameView {
        NamespacedNameView { name: m.name_any(), namespace: text::or_empty(m.namespace) }
    }

    /// The text form: namespace, slash, name.
    pub open spec fn text(self) -> Text {
        self.namespace + "/"@ + self.name
    }
}

impl NamespacedName {
    /// The name and the namespace in `m`.
    fn of(m: &ObjectMeta) -> (res: Self)
        ensures
            res@ == NamespacedNameView::of(m@),
    {
        NamespacedName { name: m.name_any(), namespace: m.namespace_or_empty() }
    }

    /// The text form: namespace, slash, name.
    pub fn to_string(&self) -> (res: String)
        ensures
            res@ == self@.text(),
    {
        let mut res = self.namespace.clone();
        res.append("/");
        res.append(self.name.as_str());
        res
    }

    /// Whether both are the same name in the same namespace.
    pub fn same(&self, other: &Self) -> (res: bool)
        ensures
            res == (self@ == other@),
    {
        self.name == other.name && self.namespace == other.namespace
    }

    /// The reference to the object of this name that `ar` serves.
    pub fn object_ref(&self, ar: &meta::ApiResource) -> (res: ObjectRef)
        ensures
            res@ == (ObjectRefView {
                resource: ar@,
                name: self@.name,
                namespace: Some(self@.namespace),
            }),
    {
        ObjectRef {
            resource: ar.clone(),
            name: self.name.clone(),
            namespace: Some(self.namespace.clone()),
        }
    }
}

/// A reference to an object that a resource serves.
#[derive(Debug, PartialEq, Eq)]
pub struct ObjectRef {
    /// The resource.
    pub resource: meta::ApiResource,
    /// The name of the object.
    pub name: String,
    /// The namespace of the object, where it has one.
    pub namespace: Option<String>,
}

/// The model of [`ObjectRef`].
#[verifier::ext_equal]
pub struct ObjectRefView {
    pub resource: meta::ApiResourceView,
    pub name: Text,
    pub namespace: Option<Text>,
}

impl View for ObjectRef {
    type V = ObjectRefView;

    open spec fn view(&self) -> ObjectRefView {
        ObjectRefView {
            resource: self.resource@,
            name: self.name@,
            namespace: text::view_opt(self.namespace),
        }
    }
}

impl Clone for ObjectRef {
    fn clone(&self) -> (res: Self)
        ensures
            res@ == self@,
    {
        let res = ObjectRef {
            resource: self.resource.clone(),
            name: self.name.clone(),
            namespace: self.namespace.clone(),
        };
        assert(res@ =~~= self@);
        res
    }
}

impl From<&DynamicObject> for NamespacedName {
    fn from(o: &DynamicObject) -> (res: Self)
        ensures
            res@ == NamespacedNameView::of(o@.metadata),
    {
        NamespacedName::of(&o.metadata)
    }
}

impl vstd::std_specs::convert::FromSpecImpl<&DynamicObject> for NamespacedName {
    open spec fn obeys_from_spec() -> bool {
        false
    }

    open spec fn from_spec(o: &DynamicObject) -> Self {
        arbitrary()
    }
}

impl From<&ObjectSync> for NamespacedName {
    fn from(o: &ObjectSync) -> (res: Self)
        ensures
            res@ == NamespacedNameView::of(o@.metadata),
    {
        NamespacedName::of(&o.metadata)
    }
}

impl vstd::std_specs::convert::FromSpecImpl<&ObjectSync> for NamespacedName {
    open spec fn obeys_from_spec() -> bool {
        false
    }

    open spec fn from_spec(o: &ObjectSync) -> Self {
        arbitrary()
    }
}

/// The name of an [`ObjectSync`].
#[derive(Debug, PartialEq, Eq, Hash)]
pub struct ObjectSyncRef(pub NamespacedName);

impl View for ObjectSyncRef {
    type V = NamespacedNameView;

    open spec fn view(&self) -> NamespacedNameView {
        self.0@
    }
}

impl Clone for ObjectSyncRef {
    fn clone(&self) -> (res: Self)
        ensures
            res@ == self@,
    {
        ObjectSyncRef(self.0.clone())
    }
}

impl ObjectSyncRef {
    /// The text form: namespace, slash, name.
    pub fn to_string(&self) -> (res: String)
        ensures
            res@ == self@.text(),
    {
        self.0.to_string()
    }
}

impl From<&ObjectSync> for ObjectSyncRef {
    fn from(value: &ObjectSync) -> (res: Self)
        ensures
            res@ == NamespacedNameView::of(value@.metadata),
    {
        ObjectSyncRef(NamespacedName::of(&value.metadata))
    }
}

impl vstd::std_specs::convert::FromSpecImpl<&ObjectSync> for ObjectSyncRef {
    open spec fn obeys_from_spec() -> bool {
        false
    }

    open spec fn from_spec(value: &ObjectSync) -> Self {
        arbitrary()
    }
}

impl From<&ObjectSyncModifications> for ObjectSyncRef {
    fn from(value: &ObjectSyncModifications) -> (res: Self)
        ensures
            res@ == value@.id(),
    {
        ObjectSyncRef(NamespacedName::of(&value.modified.metadata))
    }
}

impl vstd::std_specs::convert::FromSpecImpl<&ObjectSyncModifications> for ObjectSyncRef {
    open spec fn obeys_from_spec() -> bool {
        false
    }

    open spec fn from_spec(value: &ObjectSyncModifications) -> Self {
        arbitrary()
    }
}

impl object_sync_modifications::ObjectSyncModificationsView {
    /// The name of the object.
    pub open spec fn id(self) -> NamespacedNameView {
        NamespacedNameView::of(self.modified.metadata)
    }
}

impl ObjectSyncModifications {
    /// The name of the object.
    pub fn id(&self) -> (res: ObjectSyncRef)
        ensures
            res@ == self@.id(),
    {
        ObjectSyncRef::from(self)
    }
}

/// The name of a source object.
#[derive(Debug, PartialEq, Eq, Hash)]
pub struct SourceRef(pub NamespacedName);

impl View for SourceRef {
    type V = NamespacedNameView;

    open spec fn view(&self) -> NamespacedNameView {
        self.0@
    }
}

impl Clone for SourceRef {
    fn clone(&self) -> (res: Self)
        ensures
            res@ == self@,
    {
        SourceRef(self.0.clone())
    }
}

impl SourceRef {
    /// The text form: namespace, slash, name.
    pub fn to_string(&self) -> (res: String)
        ensures
            res@ == self@.text(),
    {
        self.0.to_string()
    }
}

impl From<&DynamicObject> for SourceRef {
    fn from(value: &DynamicObject) -> (res: Self)
        ensures
            res@ == NamespacedNameView::of(value@.metadata),
    {
        SourceRef(NamespacedName::of(&value.metadata))
    }
}

impl vstd::std_specs::convert::FromSpecImpl<&DynamicObject> for SourceRef {
    open spec fn obeys_from_spec() -> bool {
        false
    }

    open spec fn from_spec(value: &DynamicObject) -> Self {
        arbitrary()
    }
}

impl NamespacedNameView {
    /// The name and the namespace of the source of `o`.
    pub open spec fn source_of(o: api::ObjectSyncView) -> NamespacedNameView {
        NamespacedNameView {
            name: o.spec.source.name,
            namespace: text::or_empty(o.source_namespace()),
        }
    }
}

impl From<&ObjectSyncModifications> for SourceRef {
    fn from(value: &ObjectSyncModifications) -> (res: Self)
        ensures
            res@ == NamespacedNameView::source_of(value@.modified),
    {
        SourceRef(
            NamespacedName {
                name: value.modified.spec.source.name.clone(),
                namespace: meta::text_or_empty(&value.modified.source_namespace()),
            },
        )
    }
}

impl vstd::std_specs::convert::FromSpecImpl<&ObjectSyncModifications> for SourceRef {
    open spec fn obeys_from_spec() -> bool {
        false
    }

    open spec fn from_spec(value: &ObjectSyncModifications) -> Self {
        arbitrary()
    }
}

impl meta::DynamicObjectView {
    /// The object with the type information of `gvk` where it has none.
    pub open spec fn ensure_gvk(self, gvk: meta::GroupVersionKindView) -> meta::DynamicObjectView {
        meta::DynamicObjectView {
            types: match self.types {
                Some(types) => Some(types),
                None => Some(
                    meta::TypeMetaView { api_version: gvk.api_version(), kind: gvk.kind },
                ),
            },
            ..self
        }
    }

    /// The object with the finalizers `f`.
    pub open spec fn with_finalizers(self, f: Seq<Text>) -> meta::DynamicObjectView {
        meta::DynamicObjectView {
            metadata: meta::ObjectMetaView { finalizers: Some(f), ..self.metadata },
            ..self
        }
    }

    /// The object without the finalizer `f`.
    pub open spec fn without_finalizer(self, f: Text) -> meta::DynamicObjectView {
        self.with_finalizers(without(self.metadata.finalizer_list(), f))
    }

    /// The object with the finalizer `f` added.
    pub open spec fn plus_finalizer(self, f: Text) -> meta::DynamicObjectView {
        self.with_finalizers(self.metadata.finalizer_list().push(f))
    }
}

/// `s` without the occurrences of `x`.
pub open spec fn without(s: Seq<Text>, x: Text) -> Seq<Text> {
    s.filter(|y: Text| y != x)
}

/// Ensure kind and api_version are properly set
pub fn ensure_gvk(mut source: DynamicObject, gvk: &GroupVersionKind) -> (res: DynamicObject)
    ensures
        res@ == source@.ensure_gvk(gvk@),
{
    if source.types.is_none() {
        source.types = Some(TypeMeta { api_version: gvk.api_version(), kind: gvk.kind.clone() });
    }
    source
}

/// Whether `f` is among the finalizers.
pub fn has_finalizer(m: &ObjectMeta, f: &str) -> (res: bool)
    ensures
        res == m@.finalizer_list().contains(f@),
{
    match &m.finalizers {
        Some(finalizers) => {
            let ghost all = text::views(finalizers@);
            let mut i: usize = 0;
            while i < finalizers.len()
                invariant
                    i <= finalizers@.len(),
                    all == text::views(finalizers@),
                    all == m@.finalizer_list(),
                    forall|j: int| 0 <= j < i ==> all[j] != f@,
                decreases finalizers@.len() - i,
            {
                if text::same_text(finalizers[i].as_str(), f) {
                    assert(all[i as int] == f@);
                    return true;
                }
                i = i + 1;
            }
            false
        },
        None => false,
    }
}

/// Removing what is not there changes nothing, and what is there shortens.
proof fn lemma_without(s: Seq<Text>, x: Text)
    ensures
        without(s, x).len() <= s.len(),
        !s.contains(x) ==> without(s, x) == s,
        s.contains(x) ==> without(s, x).len() < s.len(),
    decreases s.len(),
{
    reveal(Seq::filter);
    if s.len() > 0 {
        lemma_without(s.drop_last(), x);
        if s.contains(x) && s.last() != x {
            let i = choose|i: int| 0 <= i < s.len() && s[i] == x;
            assert(s.drop_last()[i] == x);
        }
        if !s.contains(x) {
            assert(s.last() == s[s.len() - 1]);
            assert forall|i: int| 0 <= i < s.drop_last().len() implies s.drop_last()[i] != x by {
                assert(s.drop_last()[i] == s[i]);
            }
            assert(s.drop_last().push(s.last()) =~= s);
        }
    }
}

/// Takes `f` out of the finalizers, which are a list after that even where
/// none was set, and says whether it was among them.
pub fn drop_finalizer(m: &mut ObjectMeta, f: &str) -> (res: bool)
    ensures
        final(m)@ == (meta::ObjectMetaView {
            finalizers: Some(without(old(m)@.finalizer_list(), f@)),
            ..old(m)@
        }),
        res == old(m)@.finalizer_list().contains(f@),
{
    let ghost list = m@.finalizer_list();
    let finalizers: Vec<String> = match m.finalizers.take() {
        Some(finalizers) => finalizers,
        None => Vec::new(),
    };
    assert(text::views(finalizers@) =~= list);
    let ghost keep = |y: Text| y != f@;
    let mut kept: Vec<String> = Vec::new();
    let mut i: usize = 0;
    assert(text::views(kept@) =~= list.take(0).filter(keep)) by {
        reveal(Seq::filter);
    }
    while i < finalizers.len()
        invariant
            i <= finalizers@.len(),
            list == text::views(finalizers@),
            keep == (|y: Text| y != f@),
            text::views(kept@) == list.take(i as int).filter(keep),
        decreases finalizers@.len() - i,
    {
        let ghost before = text::views(kept@);
        proof {
            text::lemma_filter_step(list, keep, i as int);
        }
        if !text::same_text(finalizers[i].as_str(), f) {
            kept.push(finalizers[i].clone());
            assert(text::views(kept@) =~= before.push(list[i as int]));
        }
        i = i + 1;
    }
    assert(list.take(i as int) =~= list);
    proof {
        lemma_without(list, f@);
    }
    let changed: bool = kept.len() != finalizers.len();
    m.finalizers = Some(kept);
    changed
}

/// Adds `f` at the end of the finalizers.
pub fn push_finalizer(m: &mut ObjectMeta, f: &str)
    ensures
        final(m)@ == (meta::ObjectMetaView {
            finalizers: Some(old(m)@.finalizer_list().push(f@)),
            ..old(m)@
        }),
{
    let ghost list = m@.finalizer_list();
    let mut finalizers: Vec<String> = match m.finalizers.take() {
        Some(finalizers) => finalizers,
        None => Vec::new(),
    };
    assert(text::views(finalizers@) =~= list);
    finalizers.push(f.to_string());
    assert(text::views(finalizers@) =~= list.push(f@));
    m.finalizers = Some(finalizers);
}

/// The patch that adds the finalizer `f` to an object that lacks it: it names
/// the object and the finalizer, and nothing else, so that the field manager
/// comes to own its finalizer only.
pub open spec fn finalizer_addition(source: meta::DynamicObjectView, f: Text) -> Option<
    request::ApplyPatchView,
> {
    if source.metadata.finalizer_list().contains(f) {
        None
    } else {
        let patch = meta::DynamicObjectView {
            types: source.types,
            metadata: meta::ObjectMetaView {
                name: source.metadata.name,
                namespace: source.metadata.namespace,
                finalizers: Some(seq![f]),
                ..meta::ObjectMetaView::unset()
            },
            data: Seq::empty(),
        };
        Some(
            request::ApplyPatchView {
                name: patch.metadata.name_any(),
                params: request::PatchParamsView::apply_finalizer(),
                object: patch,
            },
        )
    }
}

/// Begins to add the finalizer `finalizer`: the patch to make, none where the
/// object has it already.
pub fn add_finalizer_if_missing(source: &DynamicObject, finalizer: &str) -> (res: Option<ApplyPatch>)
    ensures
        text::view_opt(res) == finalizer_addition(source@, finalizer@),
{
    if has_finalizer(&source.metadata, finalizer) {
        return None;
    }
    let mut metadata = ObjectMeta::default();
    metadata.name = source.metadata.name.clone();
    metadata.namespace = source.metadata.namespace.clone();
    let mut finalizers: Vec<String> = Vec::new();
    finalizers.push(finalizer.to_string());
    assert(text::views(finalizers@) =~= seq![finalizer@]);
    metadata.finalizers = Some(finalizers);
    let data: Vec<meta::Entry> = Vec::new();
    assert(text::views(data@) =~= Seq::empty());
    let object = DynamicObject { types: source.types.clone(), metadata, data };
    Some(
        ApplyPatch { name: object.metadata.name_any(), params: PatchParams::apply_finalizer(), object },
    )
}

/// Takes over the answer to the patch that adds a finalizer.
pub fn finalizer_added(
    source: &mut DynamicObject,
    finalizer: &str,
    reply: Result<(), KubeError>,
) -> (res: Result<bool, ControllerError>)
    ensures
        (match reply {
            Ok(_) => {
                &&& final(source)@ == old(source)@.plus_finalizer(finalizer@)
                &&& res == Ok::<bool, ControllerError>(true)
            },
            Err(e) => {
                &&& final(source)@ == old(source)@
                &&& res matches Err(f)
                &&& f@ == errors::ControllerErrorView::KubeApi(e@)
            },
        }),
{
    match reply {
        Ok(_) => {
            push_finalizer(&mut source.metadata, finalizer);
            Ok(true)
        },
        Err(e) => Err(ControllerError::KubeApi(e)),
    }
}

/// The patch that removes the finalizer `f` from an object that has it.
pub open spec fn finalizer_removal(source: meta::DynamicObjectView, f: Text) -> Result<
    Option<request::JsonPatchView>,
    errors::ControllerErrorView,
> {
    if source.metadata.finalizer_list().contains(f) {
        match outside::json_diff(
            wire::dynamic_object_json(source),
            wire::dynamic_object_json(source.without_finalizer(f)),
        ) {
            Ok(operations) => Ok(
                Some(
                    request::JsonPatchView {
                        name: source.metadata.name_any(),
                        params: request::PatchParamsView::json(),
                        operations,
                    },
                ),
            ),
            Err(message) => Err(errors::ControllerErrorView::Serde(message)),
        }
    } else {
        Ok(None)
    }
}

/// The view of a finalizer removal.
pub open spec fn removal_view(r: Result<Option<JsonPatch>, ControllerError>) -> Result<
    Option<request::JsonPatchView>,
    errors::ControllerErrorView,
> {
    match r {
        Ok(patch) => Ok(text::view_opt(patch)),
        Err(e) => Err(e@),
    }
}

/// Begins to remove the finalizer `finalizer`: takes it out of `source` and
/// gives the patch to make, none where the object does not have it.
///
/// The patch is one of operations, as server-side apply would not remove the
/// finalizer from objects that were written without a field manager.
pub fn remove_finalizer(source: &mut DynamicObject, finalizer: &str) -> (res: Result<
    Option<JsonPatch>,
    ControllerError,
>)
    ensures
        final(source)@ == old(source)@.without_finalizer(finalizer@),
        removal_view(res) == finalizer_removal(old(source)@, finalizer@),
        removal_view(res) matches Ok(Some(patch)) ==> outside::json_patched(
            wire::dynamic_object_json(old(source)@),
            patch.operations,
        ) == outside::json_document(wire::dynamic_object_json(final(source)@)),
        wire::parts_are_json(old(source)@) ==> res is Ok,
{
    proof {
        if wire::parts_are_json(source@) {
            wire::law_dynamic_object_is_json(source@);
            wire::law_dynamic_object_is_json(source@.without_finalizer(finalizer@));
        }
    }
    let original = source.clone();
    if drop_finalizer(&mut source.metadata, finalizer) {
        match outside::diff_json(original.to_json().as_str(), source.to_json().as_str()) {
            Ok(operations) => Ok(
                Some(
                    JsonPatch {
                        name: source.metadata.name_any(),
                        params: PatchParams::json(),
                        operations,
                    },
                ),
            ),
            Err(message) => Err(ControllerError::Serde(message)),
        }
    } else {
        Ok(None)
    }
}

/// What the answer to the patch that removes a finalizer means: an object that
/// is gone has no finalizer either.
pub open spec fn removal_outcome(reply: Result<(), errors::KubeErrorView>) -> Result<
    bool,
    errors::ControllerErrorView,
> {
    match reply {
        Ok(_) => Ok(true),
        Err(e) => if e.not_found() {
            Ok(true)
        } else {
            Err(errors::ControllerErrorView::KubeApi(e))
        },
    }
}

/// What the answer to the patch that removes a finalizer means.
pub fn finalizer_removed(reply: Result<(), KubeError>) -> (res: Result<bool, ControllerError>)
    ensures
        text::view_res(res) == removal_outcome(text::view_res(reply)),
{
    match reply {
        Ok(_) => Ok(true),
        Err(e) => if e.is_not_found() {
            Ok(true)
        } else {
            Err(ControllerError::KubeApi(e))
        },
    }
}

/// The name of a metric of the syncer.
pub fn metric_name(name: &str) -> (res: String)
    ensures
        res@ == "object_syncer_"@ + name@,
{
    let mut res = "object_syncer_".to_string();
    res.append(name);
    res
}

/// The name of an object is made of the name and the namespace in its metadata.
pub proof fn law_name_of_an_object(m: meta::ObjectMetaView)
    ensures
        meta::is_named(m, NamespacedNameView::of(m).name),
        meta::is_in(m, NamespacedNameView::of(m).namespace),
{
}

/// Namespace and name can be told from the text form again, as neither holds a
/// slash.
pub proof fn law_text_form_tells_namespace_and_name(n: NamespacedNameView)
    ensures
        n.text() == n.namespace + seq!['/'] + n.name,
        !n.namespace.contains('/') && !n.name.contains('/') ==> text::split(n.text(), '/') == seq![
            n.namespace,
            n.name,
        ],
{
    reveal_strlit("/");
    assert("/"@ =~= seq!['/']);
    if !n.namespace.contains('/') && !n.name.contains('/') {
        text::lemma_split_pair(n.namespace, n.name, '/');
        assert(n.text() =~= n.namespace.push('/') + n.name);
    }
}

/// The source of an `ObjectSync` has the name that the reference gives, in the
/// namespace that it gives, or else in that of the `ObjectSync`.
pub proof fn law_source_of_an_object_sync(o: api::ObjectSyncView)
    ensures
        NamespacedNameView::source_of(o).name == o.spec.source.name,
        o.spec.source.namespace matches Some(ns) ==> NamespacedNameView::source_of(o).namespace
            == ns,
        o.spec.source.namespace is None ==> (o.metadata.namespace matches Some(ns)
            ==> NamespacedNameView::source_of(o).namespace == ns),
        api::has_source_in(o, NamespacedNameView::source_of(o).namespace),
{
}

/// Type information that an object has stays. Where it has none, it gets that of the
/// kind, with the group. Nothing else changes.
pub proof fn law_type_information_is_added(o: meta::DynamicObjectView, g: meta::GroupVersionKindView)
    ensures
        o.ensure_gvk(g).metadata == o.metadata,
        o.ensure_gvk(g).data == o.data,
        o.types is Some ==> o.ensure_gvk(g).types == o.types,
        o.types is None ==> o.ensure_gvk(g).types == Some(
            meta::TypeMetaView {
                api_version: if g.group.len() == 0 {
                    g.version
                } else {
                    g.group + "/"@ + g.version
                },
                kind: g.kind,
            },
        ),
{
}

/// What stays of an object when its finalizers change: everything but them.
pub open spec fn differs_in_finalizers(a: meta::DynamicObjectView, b: meta::DynamicObjectView) -> bool {
    &&& a.types == b.types
    &&& a.data == b.data
    &&& (meta::ObjectMetaView { finalizers: None, ..a.metadata }) == (meta::ObjectMetaView {
        finalizers: None,
        ..b.metadata
    })
}

/// Taking a finalizer off an object leaves the other finalizers, and everything
/// else.
pub proof fn law_one_finalizer_is_taken_off(o: meta::DynamicObjectView, f: Text, other: Text)
    ensures
        differs_in_finalizers(o, o.without_finalizer(f)),
        o.without_finalizer(f).metadata.finalizers matches Some(list) && !list.contains(f) && (other
            != f ==> (list.contains(other) <==> (o.metadata.finalizers matches Some(before)
            && before.contains(other)))),
{
    let before = o.metadata.finalizer_list();
    lemma_without_contains(before, f, f);
    lemma_without_contains(before, f, other);
}

pub proof fn lemma_without_contains(s: Seq<Text>, x: Text, y: Text)
    ensures
        without(s, x).contains(y) <==> s.contains(y) && y != x,
    decreases s.len(),
{
    reveal(Seq::filter);
    if s.len() > 0 {
        let r = s.drop_last();
        lemma_without_contains(r, x, y);
        text::lemma_push_contains(r, s.last());
        text::lemma_push_contains(without(r, x), s.last());
        assert(r.push(s.last()) =~= s);
    }
}

/// Adding a finalizer to an object leaves the others before it, and everything else.
pub proof fn law_one_finalizer_is_added(o: meta::DynamicObjectView, f: Text)
    ensures
        differs_in_finalizers(o, o.plus_finalizer(f)),
        o.plus_finalizer(f).metadata.finalizers == match o.metadata.finalizers {
            Some(before) => Some(before.push(f)),
            None => Some(seq![f]),
        },
{
    if o.metadata.finalizers is None {
        assert(Seq::<Text>::empty().push(f) =~= seq![f]);
    }
}

/// A finalizer is added by a patch exactly where it is missing. The patch goes to
/// that object, takes the finalizer alone over, and says nothing of anything else.
pub proof fn law_patch_adds_the_finalizer_alone(o: meta::DynamicObjectView, f: Text)
    ensures
        match finalizer_addition(o, f) {
            Some(patch) => {
                &&& !(o.metadata.finalizers matches Some(list) && list.contains(f))
                &&& match o.metadata.name {
                    Some(n) => patch.name == n,
                    None => patch.name.len() == 0,
                }
                &&& patch.object.types == o.types
                &&& patch.object.data.len() == 0
                &&& patch.object.metadata.name == o.metadata.name
                &&& patch.object.metadata.namespace == o.metadata.namespace
                &&& patch.object.metadata.finalizers == Some(seq![f])
                &&& (meta::ObjectMetaView {
                    name: None,
                    namespace: None,
                    finalizers: None,
                    ..patch.object.metadata
                }) == meta::ObjectMetaView {
                    annotations: None,
                    creation_timestamp: None,
                    deletion_grace_period_seconds: None,
                    deletion_timestamp: None,
                    finalizers: None,
                    generate_name: None,
                    generation: None,
                    labels: None,
                    managed_fields: None,
                    name: None,
                    namespace: None,
                    owner_references: None,
                    resource_version: None,
                    self_link: None,
                    uid: None,
                }
                &&& patch.params.force && !patch.params.dry_run
                &&& patch.params.field_manager == Some("rustrial-object-syncer"@)
                &&& patch.params.field_validation == Some(request::ValidationDirective::Ignore)
            },
            None => o.metadata.finalizers matches Some(list) && list.contains(f),
        },
{
}

/// A finalizer is removed by a patch exactly where it is there. The patch goes to
/// that object, and its operations are what turns the object into one that differs
/// in this finalizer alone.
pub proof fn law_patch_removes_the_finalizer_alone(o: meta::DynamicObjectView, f: Text)
    ensures
        ({
            let is_there = o.metadata.finalizers matches Some(list) && list.contains(f);
            match finalizer_removal(o, f) {
                Ok(Some(patch)) => {
                    &&& is_there
                    &&& meta::is_named(o.metadata, patch.name)
                    &&& !patch.params.force && !patch.params.dry_run
                    &&& patch.params.field_manager == Some("rustrial-object-syncer"@)
                    &&& exists|after: meta::DynamicObjectView| #[trigger]
                        differs_in_finalizers(o, after) && (after.metadata.finalizers matches Some(
                            list,
                        ) && !list.contains(f) && forall|other: Text|
                            other != f ==> (#[trigger] list.contains(other)
                                <==> o.metadata.finalizers->0.contains(other)))
                            && outside::json_diff(
                            wire::dynamic_object_json(o),
                            wire::dynamic_object_json(after),
                        ) == Ok::<Seq<Text>, Text>(patch.operations)
                },
                Ok(None) => !is_there,
                Err(e) => is_there && e is Serde,
            }
        }),
{
    let after = o.without_finalizer(f);
    law_one_finalizer_is_taken_off(o, f, f);
    assert forall|other: Text| other != f implies (#[trigger] after.metadata.finalizers->0.contains(
        other,
    ) <==> (o.metadata.finalizers matches Some(before) && before.contains(other))) by {
        law_one_finalizer_is_taken_off(o, f, other);
    }
}

/// After the patch that removes a finalizer, the finalizer is gone where the server
/// says so, or says that the object is gone. Any other answer is an error.
pub proof fn law_removal_is_done_or_the_object_is_gone(
    reply: Result<(), errors::KubeErrorView>,
)
    ensures
        match reply {
            Ok(_) => removal_outcome(reply) is Ok,
            Err(errors::KubeErrorView::Api { code, message }) => if code == 404 || code == 410 {
                removal_outcome(reply) is Ok
            } else {
                removal_outcome(reply) == Err::<bool, errors::ControllerErrorView>(
                    errors::ControllerErrorView::KubeApi(
                        errors::KubeErrorView::Api { code, message },
                    ),
                )
            },
            Err(e) => removal_outcome(reply) == Err::<bool, errors::ControllerErrorView>(
                errors::ControllerErrorView::KubeApi(e),
            ),
        },
{
}

/// The reference to the source that is made of an object under modification names
/// the source that the object refers to: its name, in the namespace that the
/// reference gives, and only where it gives none in that of the object.
pub proof fn law_source_reference_of_an_object(value: &ObjectSyncModifications, res: SourceRef)
    requires
        call_ensures(<SourceRef as From<&ObjectSyncModifications>>::from, (value,), res),
    ensures
        res.0.name@ == value.modified.spec.source.name@,
        value.modified.spec.source.namespace matches Some(ns) ==> res.0.namespace@ == ns@,
        value.modified.spec.source.namespace is None ==> (
        value.modified.metadata.namespace matches Some(ns) ==> res.0.namespace@ == ns@),
        value.modified.spec.source.namespace is None && value.modified.metadata.namespace is None
            ==> res.0.namespace@.len() == 0,
{
}

/// References by name are made of the name and the namespace of an object, and
/// that of an object under modification of those that it is to have.
pub proof fn law_references_name_the_object(
    o: &DynamicObject,
    s: &ObjectSync,
    m: &ObjectSyncModifications,
    by_object: NamespacedName,
    by_source: SourceRef,
    by_sync: NamespacedName,
    by_modified: ObjectSyncRef,
)
    requires
        call_ensures(<NamespacedName as From<&DynamicObject>>::from, (o,), by_object),
        call_ensures(<SourceRef as From<&DynamicObject>>::from, (o,), by_source),
        call_ensures(<NamespacedName as From<&ObjectSync>>::from, (s,), by_sync),
        call_ensures(ObjectSyncModifications::id, (m,), by_modified),
    ensures
        meta::is_named(o.metadata@, by_object.name@) && meta::is_in(
            o.metadata@,
            by_object.namespace@,
        ),
        meta::is_named(o.metadata@, by_source.0.name@) && meta::is_in(
            o.metadata@,
            by_source.0.namespace@,
        ),
        meta::is_named(s.metadata@, by_sync.name@) && meta::is_in(
            s.metadata@,
            by_sync.namespace@,
        ),
        meta::is_named(m.modified.metadata@, by_modified.0.name@) && meta::is_in(
            m.modified.metadata@,
            by_modified.0.namespace@,
        ),
        o.metadata.name matches Some(n) ==> by_object.name@ == n@,
        o.metadata.namespace matches Some(n) ==> by_object.namespace@ == n@,
{
}

/// The text form is the namespace, a slash and the name, and the reference to an
/// object holds the same name and namespace. Two names are the same where both parts
/// are.
pub proof fn law_parts_of_a_name(
    n: &NamespacedName,
    other: &NamespacedName,
    ar: &meta::ApiResource,
    form: String,
    reference: ObjectRef,
    is_same: bool,
)
    requires
        call_ensures(NamespacedName::to_string, (n,), form),
        call_ensures(NamespacedName::object_ref, (n, ar), reference),
        call_ensures(NamespacedName::same, (n, other), is_same),
    ensures
        form@ == n.namespace@ + seq!['/'] + n.name@,
        reference.name@ == n.name@,
        reference.namespace matches Some(ns) && ns@ == n.namespace@,
        reference.resource@ == ar@,
        is_same <==> n.name@ == other.name@ && n.namespace@ == other.namespace@,
{
    law_text_form_tells_namespace_and_name(n@);
    let a = reference@;
    assert(a.namespace == Some(n@.namespace));
}

/// Finalizers come and go one at a time: a finalizer that is pushed comes last, one
/// that is dropped is no longer there, and the others stay, with everything else.
pub proof fn law_finalizers_of_metadata(
    pushed: &mut ObjectMeta,
    dropped: &mut ObjectMeta,
    asked: &ObjectMeta,
    f: &str,
    other: Text,
    was_there: bool,
    is_there: bool,
)
    requires
        call_ensures(push_finalizer, (pushed, f), ()),
        call_ensures(drop_finalizer, (dropped, f), was_there),
        call_ensures(has_finalizer, (asked, f), is_there),
    ensures
        final(pushed)@ == (meta::ObjectMetaView {
            finalizers: match old(pushed)@.finalizers {
                Some(list) => Some(list.push(f@)),
                None => Some(seq![f@]),
            },
            ..old(pushed)@
        }),
        (meta::ObjectMetaView { finalizers: None, ..final(dropped)@ }) == (meta::ObjectMetaView {
            finalizers: None,
            ..old(dropped)@
        }),
        !meta::carries(final(dropped)@, f@),
        other != f@ ==> (meta::carries(final(dropped)@, other) <==> meta::carries(
            old(dropped)@,
            other,
        )),
        was_there <==> meta::carries(old(dropped)@, f@),
        is_there <==> meta::carries(asked@, f@),
{
    assert(Seq::<Text>::empty().push(f@) =~= seq![f@]);
    lemma_without_contains(old(dropped)@.finalizer_list(), f@, f@);
    lemma_without_contains(old(dropped)@.finalizer_list(), f@, other);
}

/// After the patch that adds a finalizer, the object has it where the patch
/// succeeded, and stays as it is where it did not. The removal takes it off at once,
/// and hands out the patch of the object as it was.
pub proof fn law_patched_object_has_the_finalizer(
    adding: &mut DynamicObject,
    removing: &mut DynamicObject,
    f: &str,
    reply: Result<(), KubeError>,
    added: Result<bool, ControllerError>,
    removed: Result<Option<JsonPatch>, ControllerError>,
)
    requires
        call_ensures(finalizer_added, (adding, f, reply), added),
        call_ensures(remove_finalizer, (removing, f), removed),
    ensures
        reply is Ok ==> final(adding)@ == old(adding)@.plus_finalizer(f@) && (
        added matches Ok(true)),
        reply matches Err(e) ==> final(adding)@ == old(adding)@ && (added matches Err(x) && x@
            == errors::ControllerErrorView::KubeApi(e@)),
        final(removing)@ == old(removing)@.without_finalizer(f@),
        removal_view(removed) == finalizer_removal(old(removing)@, f@),
{
}

/// What is asked for to add a finalizer, what the answer to a removal means, the
/// type information of an object and the name of a metric are as the laws on them
/// say.
pub proof fn law_patches_of_finalizers(
    o: &DynamicObject,
    untyped: DynamicObject,
    gvk: &meta::GroupVersionKind,
    f: &str,
    patch: Option<request::ApplyPatch>,
    reply: Result<(), KubeError>,
    outcome: Result<bool, ControllerError>,
    typed: DynamicObject,
    metric: String,
)
    requires
        call_ensures(add_finalizer_if_missing, (o, f), patch),
        call_ensures(finalizer_removed, (reply,), outcome),
        call_ensures(ensure_gvk, (untyped, gvk), typed),
        call_ensures(metric_name, (f,), metric),
    ensures
        text::view_opt(patch) == finalizer_addition(o@, f@),
        patch is Some <==> !meta::carries(o@.metadata, f@),
        text::view_res(outcome) == removal_outcome(text::view_res(reply)),
        outcome is Ok <==> (reply matches Err(e) ==> errors::is_status(e@, 404)
            || errors::is_status(e@, 410)),
        typed@ == untyped@.ensure_gvk(gvk@),
        metric@ == "object_syncer_"@ + f@,
{
    assert((patch is Some) == (text::view_opt(patch) is Some));
    assert((outcome is Ok) == (text::view_res(outcome) is Ok));
}

} // verus!
