//! Which source objects are looked at again when something else changes.
use crate::api;
use crate::api::{ObjectSync, SOURCE_OBJECT_ANNOTATION};
use crate::configuration;
use crate::meta;
use crate::meta::{ApiResource, DynamicObject, ObjectMeta};
use crate::outside;
use crate::request::MANAGER;
use crate::resource_controller;
use crate::resource_controller::ResourceControllerImpl;
use crate::sources;
use crate::sources::Sources;
use crate::text;
use crate::text::Text;
use crate::upsert_destinations;
use crate::upsert_destinations::MANAGED_BY_LABEL;
use crate::utils;
use crate::utils::{NamespacedName, ObjectRef};
use vstd::prelude::*;
use vstd::string::*;

verus! {

/// For so many seconds a namespace counts as new.
pub const NEW_NAMESPACE_SECONDS: i64 = 300;

/// The selector of the objects that the syncer wrote.
pub fn label_selector() -> (res: String)
    ensures
        res@ == MANAGED_BY_LABEL@ + "="@ + MANAGER@,
{
    let mut res = MANAGED_BY_LABEL.to_string();
    res.append("=");
    res.append(MANAGER);
    res
}

impl utils::NamespacedNameView {
    /// The reference to the object of this name that `resource` serves.
    pub open spec fn reference(self, resource: meta::ApiResourceView) -> utils::ObjectRefView {
        utils::ObjectRefView { resource, name: self.name, namespace: Some(self.namespace) }
    }
}

/// Whether a namespace of this age counts: it is new, and a target.
pub open spec fn is_new_target(
    c: configuration::ConfigurationView,
    namespace: Text,
    age: Option<i64>,
) -> bool {
    &&& c.targets(namespace)
    &&& age matches Some(seconds)
    &&& seconds < NEW_NAMESPACE_SECONDS
}

/// The source object that the annotation of a copy names: namespace, slash, name.
pub open spec fn named_source(annotation: Text) -> Option<utils::NamespacedNameView> {
    let parts = text::split(annotation, '/');
    if parts.len() == 2 {
        Some(utils::NamespacedNameView { namespace: parts[0], name: parts[1] })
    } else {
        None
    }
}

impl resource_controller::ResourceControllerImplView {
    /// The source object to look at when a copy changes: the one that its
    /// annotation names, where the copy is in a target namespace.
    pub open spec fn source_of_copy(self, copy: meta::ObjectMetaView) -> Option<
        utils::ObjectRefView,
    > {
        match meta::lookup(upsert_destinations::entries(copy.annotations), SOURCE_OBJECT_ANNOTATION@) {
            Some(annotation) => match named_source(annotation) {
                Some(source) => if self.configuration.targets(text::or_empty(copy.namespace)) {
                    Some(source.reference(self.api_resource))
                } else {
                    None
                },
                None => None,
            },
            None => None,
        }
    }
}

impl ResourceControllerImpl {
    /// What to look at when a namespace changes, at the current time.
    pub fn affected_by_namespace(&self, sources: &Sources, namespace: &ObjectMeta) -> (res: Vec<
        ObjectRef,
    >)
        ensures
            exists|now: Text|
                outside::is_utc_time(now) && #[trigger] affected_at(
                    self@,
                    sources@,
                    namespace@,
                    now,
                    text::views(res@),
                ),
    {
        let now = outside::utc_now_rfc3339();
        self.affected_by_namespace_at(sources, namespace, now.as_str())
    }

    /// What to look at when a namespace changes at the time `now`.
    pub fn affected_by_namespace_at(
        &self,
        sources: &Sources,
        namespace: &ObjectMeta,
        now: &str,
    ) -> (res: Vec<ObjectRef>)
        ensures
            affected_at(self@, sources@, namespace@, now@, text::views(res@)),
    {
        let age: Option<i64> = match &namespace.creation_timestamp {
            Some(time) => outside::age_in_seconds(time.as_str(), now),
            None => None,
        };
        self.affected_by_namespace_of_age(sources, namespace.name_any().as_str(), age)
    }

    /// What to look at when a namespace that was made so many seconds ago
    /// changes: all the sources where it is new, as copies may be missing in it.
    pub fn affected_by_namespace_of_age(
        &self,
        sources: &Sources,
        namespace: &str,
        age: Option<i64>,
    ) -> (res: Vec<ObjectRef>)
        ensures
            if is_new_target(self@.configuration, namespace@, age) {
                refers_to_all(text::views(res@), sources@, self@.api_resource)
            } else {
                res@.len() == 0
            },
    {
        let new: bool = match age {
            Some(seconds) => seconds < NEW_NAMESPACE_SECONDS,
            None => false,
        };
        if self.configuration.targets(namespace) && new {
            let names = sources.referred();
            let res = references_to(&names, &self.api_resource);
            assert forall|r: utils::ObjectRefView|
                #![trigger text::views(res@).contains(r)]
                text::views(res@).contains(r) <==> exists|
                    src: utils::NamespacedNameView,
                    crd: utils::NamespacedNameView,
                | #[trigger] sources@.contains((src, crd)) && r == src.reference(
                    self@.api_resource,
                ) by {
                if text::views(res@).contains(r) {
                    let src = choose|src: utils::NamespacedNameView| #[trigger]
                        text::views(names@).contains(src) && r == src.reference(
                            self@.api_resource,
                        );
                    assert(sources::is_referred(sources@, src));
                }
                if exists|src: utils::NamespacedNameView, crd: utils::NamespacedNameView|
                    #[trigger] sources@.contains((src, crd)) && r == src.reference(
                        self@.api_resource,
                    ) {
                    let (src, crd) = choose|
                        src: utils::NamespacedNameView,
                        crd: utils::NamespacedNameView,
                    | #[trigger] sources@.contains((src, crd)) && r == src.reference(
                        self@.api_resource,
                    );
                    assert(sources::is_referred(sources@, src));
                    assert(text::views(names@).contains(src));
                }
            }
            res
        } else {
            Vec::new()
        }
    }

    /// What to look at when an `ObjectSync` changes: the sources that it refers
    /// to, as they may have got other destinations.
    pub fn affected_by_object_sync(&self, sources: &Sources, rs: &ObjectSync) -> (res: Vec<
        ObjectRef,
    >)
        ensures
            refers_to_sources_of(
                text::views(res@),
                sources@,
                utils::NamespacedNameView::of(rs@.metadata),
                self@.api_resource,
            ),
    {
        let name = NamespacedName::from(rs);
        let names = sources.referred_by(&name);
        let res = references_to(&names, &self.api_resource);
        assert forall|r: utils::ObjectRefView|
            #![trigger text::views(res@).contains(r)]
            text::views(res@).contains(r) <==> exists|src: utils::NamespacedNameView|
                #[trigger] sources@.contains((src, name@)) && r == src.reference(
                    self@.api_resource,
                ) by {
            if text::views(res@).contains(r) {
                let src = choose|src: utils::NamespacedNameView| #[trigger]
                    text::views(names@).contains(src) && r == src.reference(self@.api_resource);
                assert(sources@.contains((src, name@)));
            }
            if exists|src: utils::NamespacedNameView|
                #[trigger] sources@.contains((src, name@)) && r == src.reference(
                    self@.api_resource,
                ) {
                let src = choose|src: utils::NamespacedNameView|
                    #[trigger] sources@.contains((src, name@)) && r == src.reference(
                        self@.api_resource,
                    );
                assert(text::views(names@).contains(src));
            }
        }
        res
    }

    /// What to look at when a copy changes.
    pub fn affected_by_copy(&self, copy: &DynamicObject) -> (res: Option<ObjectRef>)
        ensures
            text::view_opt(res) == self@.source_of_copy(copy@.metadata),
    {
        let namespace = copy.metadata.namespace_or_empty();
        let annotation: Option<&String> = match &copy.metadata.annotations {
            Some(annotations) => annotations.get(SOURCE_OBJECT_ANNOTATION),
            None => None,
        };
        match annotation {
            Some(annotation) => {
                let parts = text::split_text(annotation.as_str(), '/');
                if parts.len() == 2 && self.configuration.targets(namespace.as_str()) {
                    assert(text::views(parts@)[0] == parts@[0]@);
                    assert(text::views(parts@)[1] == parts@[1]@);
                    let source = NamespacedName {
                        namespace: parts[0].clone(),
                        name: parts[1].clone(),
                    };
                    Some(source.object_ref(&self.api_resource))
                } else {
                    None
                }
            },
            None => None,
        }
    }
}

/// The references are those to the sources that any `ObjectSync` refers to, each
/// once.
pub open spec fn refers_to_all(
    references: Seq<utils::ObjectRefView>,
    sources: Set<(utils::NamespacedNameView, utils::NamespacedNameView)>,
    resource: meta::ApiResourceView,
) -> bool {
    &&& references.no_duplicates()
    &&& forall|r: utils::ObjectRefView|
        #![trigger references.contains(r)]
        references.contains(r) <==> exists|
            src: utils::NamespacedNameView,
            crd: utils::NamespacedNameView,
        | #[trigger] sources.contains((src, crd)) && r == src.reference(resource)
}

/// The age of a namespace in seconds at the time `now`, none where it is not
/// known when it was made.
pub open spec fn age_at(namespace: meta::ObjectMetaView, now: Text) -> Option<i64> {
    match namespace.creation_timestamp {
        Some(time) => outside::seconds_between(time, now),
        None => None,
    }
}

/// The references are what to look at when the namespace changes at the time
/// `now`: all the sources where it is a new target, else nothing.
pub open spec fn affected_at(
    c: resource_controller::ResourceControllerImplView,
    sources: Set<(utils::NamespacedNameView, utils::NamespacedNameView)>,
    namespace: meta::ObjectMetaView,
    now: Text,
    references: Seq<utils::ObjectRefView>,
) -> bool {
    if is_new_target(c.configuration, namespace.name_any(), age_at(namespace, now)) {
        refers_to_all(references, sources, c.api_resource)
    } else {
        references.len() == 0
    }
}

/// The references are those to the sources that `crd` refers to, each once.
pub open spec fn refers_to_sources_of(
    references: Seq<utils::ObjectRefView>,
    sources: Set<(utils::NamespacedNameView, utils::NamespacedNameView)>,
    crd: utils::NamespacedNameView,
    resource: meta::ApiResourceView,
) -> bool {
    &&& references.no_duplicates()
    &&& forall|r: utils::ObjectRefView|
        #![trigger references.contains(r)]
        references.contains(r) <==> exists|src: utils::NamespacedNameView|
            #[trigger] sources.contains((src, crd)) && r == src.reference(resource)
}

/// References to the objects with these names, in their order.
fn references_to(names: &Vec<NamespacedName>, resource: &ApiResource) -> (res: Vec<ObjectRef>)
    requires
        text::views(names@).no_duplicates(),
    ensures
        text::views(res@).no_duplicates(),
        forall|r: utils::ObjectRefView|
            #![trigger text::views(res@).contains(r)]
            text::views(res@).contains(r) <==> exists|src: utils::NamespacedNameView|
                #[trigger] text::views(names@).contains(src) && r == src.reference(resource@),
{
    let ghost all = text::views(names@);
    let mut res: Vec<ObjectRef> = Vec::new();
    let mut i: usize = 0;
    while i < names.len()
        invariant
            i <= names@.len(),
            all == text::views(names@),
            res@.len() == i,
            forall|j: int| 0 <= j < i ==> (#[trigger] res@[j])@ == all[j].reference(resource@),
        decreases names@.len() - i,
    {
        res.push(names[i].object_ref(resource));
        i = i + 1;
    }
    let ghost references = text::views(res@);
    assert forall|j: int, k: int|
        0 <= j < references.len() && 0 <= k < references.len() && j != k implies references[j]
        != references[k] by {
        assert(references[j] == all[j].reference(resource@));
        assert(references[k] == all[k].reference(resource@));
        assert(all[j] != all[k]);
    }
    assert forall|r: utils::ObjectRefView|
        #![trigger references.contains(r)]
        references.contains(r) <==> exists|src: utils::NamespacedNameView|
            #[trigger] all.contains(src) && r == src.reference(resource@) by {
        if references.contains(r) {
            let j = choose|j: int| 0 <= j < references.len() && references[j] == r;
            assert(res@[j]@ == all[j].reference(resource@));
            assert(all.contains(all[j]));
        }
        if exists|src: utils::NamespacedNameView|
            #[trigger] all.contains(src) && r == src.reference(resource@) {
            let src = choose|src: utils::NamespacedNameView|
                #[trigger] all.contains(src) && r == src.reference(resource@);
            let j = choose|j: int| 0 <= j < all.len() && all[j] == src;
            assert(res@[j]@ == all[j].reference(resource@));
            assert(references[j] == r);
        }
    }
    res
}

/// A change of a copy that the syncer wrote leads back to its source, as long as
/// the copy is in a target namespace. The names of Kubernetes objects and
/// namespaces hold no slash.
pub proof fn law_copy_leads_back_to_source(
    c: resource_controller::ResourceControllerImplView,
    source: meta::DynamicObjectView,
    d: api::DestinationStatusView,
    over: api::ObjectRevisionView,
)
    requires
        c.configuration.targets(d.namespace),
        !text::or_empty(source.metadata.namespace).contains('/'),
        !source.metadata.name_any().contains('/'),
    ensures
        c.source_of_copy(upsert_destinations::copy_of(source, d, over).metadata) == Some(
            utils::NamespacedNameView::of(source.metadata).reference(c.api_resource),
        ),
{
    let namespace = text::or_empty(source.metadata.namespace);
    let name = source.metadata.name_any();
    upsert_destinations::law_copy_has_content_of_source(source, d, over, SOURCE_OBJECT_ANNOTATION@);
    text::lemma_split_pair(namespace, name, '/');
    reveal_strlit("/");
    assert("/"@ =~= seq!['/']);
    assert(upsert_destinations::source_reference(source.metadata) =~= namespace.push('/') + name);
}

/// A reference is to the object of this name and namespace that the resource serves.
pub proof fn law_reference_names_the_object(
    n: utils::NamespacedNameView,
    resource: meta::ApiResourceView,
)
    ensures
        n.reference(resource).resource == resource,
        n.reference(resource).name == n.name,
        n.reference(resource).namespace == Some(n.namespace),
{
}

/// A change of a namespace concerns all the sources that any object refers to, and
/// each once, where the namespace is a target and was made less than five minutes
/// ago. It concerns none where it is no target, is older, or it is not known when it
/// was made.
pub proof fn law_new_namespace_concerns_every_source(
    c: resource_controller::ResourceControllerImplView,
    sources: Set<(utils::NamespacedNameView, utils::NamespacedNameView)>,
    namespace: meta::ObjectMetaView,
    name: Text,
    now: Text,
    references: Seq<utils::ObjectRefView>,
    r: utils::ObjectRefView,
)
    requires
        affected_at(c, sources, namespace, now, references),
        meta::is_named(namespace, name),
    ensures
        ({
            let is_new = namespace.creation_timestamp matches Some(made) && (
            outside::seconds_between(made, now) matches Some(seconds) && seconds < 300);
            if c.configuration.targets(name) && is_new {
                &&& references.contains(r) <==> r.resource == c.api_resource && exists|
                    src: utils::NamespacedNameView,
                    crd: utils::NamespacedNameView,
                |
                    #[trigger] sources.contains((src, crd)) && r.name == src.name && r.namespace
                        == Some(src.namespace)
                &&& forall|i: int, j: int|
                    0 <= i < j < references.len() ==> references[i] != references[j]
            } else {
                references.len() == 0
            }
        }),
{
    meta::law_used_name_is_its_own(namespace, name, name);
    if references.contains(r) && references.len() > 0 {
        let (src, crd) = choose|src: utils::NamespacedNameView, crd: utils::NamespacedNameView|
            #[trigger] sources.contains((src, crd)) && r == src.reference(c.api_resource);
        assert(sources.contains((src, crd)));
    }
    if r.resource == c.api_resource && exists|
        src: utils::NamespacedNameView,
        crd: utils::NamespacedNameView,
    |
        #[trigger] sources.contains((src, crd)) && r.name == src.name && r.namespace == Some(
            src.namespace,
        ) {
        let (src, crd) = choose|src: utils::NamespacedNameView, crd: utils::NamespacedNameView|
            #[trigger] sources.contains((src, crd)) && r.name == src.name && r.namespace == Some(
                src.namespace,
            );
        assert(sources.contains((src, crd)) && r == src.reference(c.api_resource));
    }
}

/// A change of an object concerns exactly the sources that this object refers to,
/// each once.
pub proof fn law_changed_object_concerns_its_sources(
    references: Seq<utils::ObjectRefView>,
    sources: Set<(utils::NamespacedNameView, utils::NamespacedNameView)>,
    crd: utils::NamespacedNameView,
    resource: meta::ApiResourceView,
    r: utils::ObjectRefView,
)
    requires
        refers_to_sources_of(references, sources, crd, resource),
    ensures
        references.contains(r) <==> r.resource == resource && exists|src: utils::NamespacedNameView|
            #[trigger] sources.contains((src, crd)) && r.name == src.name && r.namespace == Some(
                src.namespace,
            ),
        forall|i: int, j: int| 0 <= i < j < references.len() ==> references[i] != references[j],
{
    if references.contains(r) {
        let src = choose|src: utils::NamespacedNameView|
            #[trigger] sources.contains((src, crd)) && r == src.reference(resource);
        assert(sources.contains((src, crd)));
    }
    if r.resource == resource && exists|src: utils::NamespacedNameView|
        #[trigger] sources.contains((src, crd)) && r.name == src.name && r.namespace == Some(
            src.namespace,
        ) {
        let src = choose|src: utils::NamespacedNameView|
            #[trigger] sources.contains((src, crd)) && r.name == src.name && r.namespace == Some(
                src.namespace,
            );
        assert(sources.contains((src, crd)) && r == src.reference(resource));
    }
}

/// A change of a copy concerns the object that its annotation names, as namespace,
/// slash and name, where the copy is in a target namespace. It concerns nothing
/// where the copy is elsewhere, has no such annotation, or the annotation does not
/// hold one slash.
pub proof fn law_copy_concerns_the_source_it_names(
    c: resource_controller::ResourceControllerImplView,
    copy: meta::ObjectMetaView,
    at: Text,
    annotation: Text,
    namespace: Text,
    name: Text,
)
    requires
        meta::is_in(copy, at),
    ensures
        ({
            let found = match copy.annotations {
                Some(annotations) => meta::lookup(annotations, "sync.rustrial.org/source-object"@),
                None => None,
            };
            &&& !c.configuration.targets(at) ==> c.source_of_copy(copy) is None
            &&& found is None ==> c.source_of_copy(copy) is None
            &&& found == Some(namespace + seq!['/'] + name) && !namespace.contains('/')
                && !name.contains('/') && c.configuration.targets(at) ==> (
            c.source_of_copy(copy) matches Some(r) && r.resource == c.api_resource && r.name == name
                && r.namespace == Some(namespace))
            &&& found == Some(annotation) ==> (c.source_of_copy(copy) matches Some(r)
                ==> r.resource == c.api_resource && annotation == r.namespace->0 + seq!['/']
                + r.name && !r.namespace->0.contains('/') && !r.name.contains('/'))
        }),
{
    let found = match copy.annotations {
        Some(annotations) => meta::lookup(annotations, "sync.rustrial.org/source-object"@),
        None => None,
    };
    meta::law_used_name_is_its_own(copy, at, at);
    if found == Some(namespace + seq!['/'] + name) && !namespace.contains('/') && !name.contains(
        '/',
    ) {
        text::lemma_split_pair(namespace, name, '/');
        assert(namespace + seq!['/'] + name =~= namespace.push('/') + name);
    }
    text::law_pieces_make_up_the_text(annotation, '/');
    let parts = text::split(annotation, '/');
    if parts.len() == 2 {
        let first = parts.drop_last();
        assert(first.len() == 1 && first[0] == parts[0] && parts.last() == parts[1]);
        reveal_with_fuel(text::joined, 3);
        assert(text::joined(first, '/') =~= parts[0]);
        assert(annotation =~= parts[0] + seq!['/'] + parts[1]);
        assert(!parts[0].contains('/') && !parts[1].contains('/'));
    }
}

/// What the calls hand out is what the laws on it speak of. The copies are told by
/// the label that names the syncer.
pub proof fn law_what_changes_concern(
    c: &ResourceControllerImpl,
    sources: &Sources,
    namespace: &ObjectMeta,
    now: &str,
    by_namespace: Vec<ObjectRef>,
    rs: &ObjectSync,
    by_object: Vec<ObjectRef>,
    copy: &DynamicObject,
    by_copy: Option<ObjectRef>,
    selector: String,
)
    requires
        call_ensures(
            ResourceControllerImpl::affected_by_namespace_at,
            (c, sources, namespace, now),
            by_namespace,
        ),
        call_ensures(ResourceControllerImpl::affected_by_object_sync, (c, sources, rs), by_object),
        call_ensures(ResourceControllerImpl::affected_by_copy, (c, copy), by_copy),
        call_ensures(label_selector, (), selector),
    ensures
        affected_at(c@, sources@, namespace@, now@, text::views(by_namespace@)),
        refers_to_sources_of(
            text::views(by_object@),
            sources@,
            utils::NamespacedNameView::of(rs@.metadata),
            c@.api_resource,
        ),
        text::view_opt(by_copy) == c@.source_of_copy(copy@.metadata),
        selector@ == "app.kubernetes.io/managed-by"@ + "="@ + "rustrial-object-syncer"@,
{
}

/// A namespace of a known age concerns all the sources where it is a target and was
/// made less than five minutes ago, and none else.
pub proof fn law_age_of_a_namespace_decides(
    c: &ResourceControllerImpl,
    sources: &Sources,
    namespace: &str,
    age: Option<i64>,
    res: Vec<ObjectRef>,
    r: utils::ObjectRefView,
)
    requires
        call_ensures(
            ResourceControllerImpl::affected_by_namespace_of_age,
            (c, sources, namespace, age),
            res,
        ),
    ensures
        if c.configuration@.targets(namespace@) && (age matches Some(s) && s < 300) {
            text::views(res@).contains(r) <==> exists|
                src: utils::NamespacedNameView,
                crd: utils::NamespacedNameView,
            |
                #[trigger] sources@.contains((src, crd)) && r == src.reference(c@.api_resource)
        } else {
            res@.len() == 0
        },
{
}

} // verus!
