//! The `ObjectSync` resource: which source object is copied to which
//! destinations, and what is known of the copies.
use crate::meta;
use crate::meta::ObjectMeta;
use crate::outside;
use crate::text;
use crate::text::Text;
use vstd::prelude::*;
use vstd::string::*;

verus! {

/// The API group of [`ObjectSync`].
pub const API_GROUP: &'static str = "sync.rustrial.org";

/// The annotation of a copy that names its source object.
pub const SOURCE_OBJECT_ANNOTATION: &'static str = "sync.rustrial.org/source-object";

/// Destination object synchronization strategy.
#[derive(Clone, Copy, Debug, PartialEq, Eq, Hash, Structural)]
pub enum SyncStrategy {
    /// Use server side apply to manage (sync) destination objects with a shared
    /// ownership model (only overwriting changes in fields present in the source
    /// object).
    Apply,
    /// Use replace to manage (sync) destination objects with exclusive ownership
    /// (overwriting all changes made by others).
    Replace,
}

impl Default for SyncStrategy {
    fn default() -> (res: Self)
        ensures
            res == SyncStrategy::Apply,
    {
        SyncStrategy::Apply
    }
}

/// The strategy, `Apply` where none is set.
pub open spec fn effective_strategy(strategy: Option<SyncStrategy>) -> SyncStrategy {
    match strategy {
        Some(s) => s,
        None => SyncStrategy::Apply,
    }
}

/// One observed condition of an [`ObjectSync`].
#[derive(Debug, PartialEq, Eq)]
pub struct Condition {
    /// The last time the condition transitioned from one status to another.
    pub last_transition_time: Option<String>,
    /// A human readable message indicating details about the transition, possibly empty.
    pub message: String,
    /// The `.metadata.generation` that the condition was set based upon.
    pub observed_generation: Option<i64>,
    /// A CamelCase identifier of the reason for the condition's last transition.
    pub reason: String,
    /// Status of the condition, one of True, False, Unknown.
    pub status: String,
    /// Type of condition in CamelCase or in foo.example.com/CamelCase.
    pub type_: String,
}

/// The model of [`Condition`].
#[verifier::ext_equal]
pub struct ConditionView {
    pub last_transition_time: Option<Text>,
    pub message: Text,
    pub observed_generation: Option<i64>,
    pub reason: Text,
    pub status: Text,
    pub type_: Text,
}

impl View for Condition {
    type V = ConditionView;

    open spec fn view(&self) -> ConditionView {
        ConditionView {
            last_transition_time: text::view_opt(self.last_transition_time),
            message: self.message@,
            observed_generation: self.observed_generation,
            reason: self.reason@,
            status: self.status@,
            type_: self.type_@,
        }
    }
}

impl Clone for Condition {
    fn clone(&self) -> (res: Self)
        ensures
            res@ == self@,
    {
        let res = Condition {
            last_transition_time: self.last_transition_time.clone(),
            message: self.message.clone(),
            observed_generation: self.observed_generation,
            reason: self.reason.clone(),
            status: self.status.clone(),
            type_: self.type_.clone(),
        };
        assert(res@ =~~= self@);
        res
    }
}

/// Object reference to a source object.
#[derive(Debug, PartialEq, Eq)]
pub struct SourceObject {
    /// The Kubernetes API group name (without the version part).
    pub group: String,
    /// The Kubernetes API version, defaults to the preferred version of the API group.
    pub version: Option<String>,
    /// The Kubernetes API kind name.
    pub kind: String,
    /// The Kubernetes object's name (`metadata.name`).
    pub name: String,
    /// The Kubernetes object's namespace (`metadata.namespace`), defaults to the namespace
    /// of the `ObjectSync` object.
    pub namespace: Option<String>,
}

/// The model of [`SourceObject`].
#[verifier::ext_equal]
pub struct SourceObjectView {
    pub group: Text,
    pub version: Option<Text>,
    pub kind: Text,
    pub name: Text,
    pub namespace: Option<Text>,
}

impl View for SourceObject {
    type V = SourceObjectView;

    open spec fn view(&self) -> SourceObjectView {
        SourceObjectView {
            group: self.group@,
            version: text::view_opt(self.version),
            kind: self.kind@,
            name: self.name@,
            namespace: text::view_opt(self.namespace),
        }
    }
}

impl Clone for SourceObject {
    fn clone(&self) -> (res: Self)
        ensures
            res@ == self@,
    {
        let res = SourceObject {
            group: self.group.clone(),
            version: self.version.clone(),
            kind: self.kind.clone(),
            name: self.name.clone(),
            namespace: self.namespace.clone(),
        };
        assert(res@ =~~= self@);
        res
    }
}

/// Synchronization target configuration.
#[derive(Debug, PartialEq, Eq, Hash)]
pub struct Destination {
    /// Optional new name for the destination object, defaults to the name of the
    /// source object.
    pub name: Option<String>,
    /// The destination (target) namespace, if empty `""` or `"*"` the source object
    /// is synced to all namespaces.
    pub namespace: String,
    /// The sync strategy to use for this destination, defaults to "apply" (server side apply).
    pub strategy: Option<SyncStrategy>,
}

/// The model of [`Destination`].
#[verifier::ext_equal]
pub struct DestinationView {
    pub name: Option<Text>,
    pub namespace: Text,
    pub strategy: Option<SyncStrategy>,
}

impl View for Destination {
    type V = DestinationView;

    open spec fn view(&self) -> DestinationView {
        DestinationView {
            name: text::view_opt(self.name),
            namespace: self.namespace@,
            strategy: self.strategy,
        }
    }
}

impl Clone for Destination {
    fn clone(&self) -> (res: Self)
        ensures
            res@ == self@,
    {
        let res = Destination {
            name: self.name.clone(),
            namespace: self.namespace.clone(),
            strategy: self.strategy,
        };
        assert(res@ =~~= self@);
        res
    }
}

/// Kubernetes object synchronization specification, defining how a single source
/// object should be replicated and synced to multiple destination objects.
#[derive(Debug, PartialEq, Eq)]
pub struct ObjectSyncSpec {
    /// The "original" source object to be synced.
    pub source: SourceObject,
    /// The destinations to sync the source object to.
    pub destinations: Vec<Destination>,
}

/// The model of [`ObjectSyncSpec`].
#[verifier::ext_equal]
pub struct ObjectSyncSpecView {
    pub source: SourceObjectView,
    pub destinations: Seq<DestinationView>,
}

impl View for ObjectSyncSpec {
    type V = ObjectSyncSpecView;

    open spec fn view(&self) -> ObjectSyncSpecView {
        ObjectSyncSpecView {
            source: self.source@,
            destinations: text::views(self.destinations@),
        }
    }
}

impl Clone for ObjectSyncSpec {
    fn clone(&self) -> (res: Self)
        ensures
            res@ == self@,
    {
        let res = ObjectSyncSpec {
            source: self.source.clone(),
            destinations: self.destinations.clone(),
        };
        assert(res@ =~~= self@);
        res
    }
}

/// Specific Kubernetes object revision.
#[derive(Debug, PartialEq, Eq)]
pub struct ObjectRevision {
    /// The Kubernetes object's `UID`.
    pub uid: Option<String>,
    /// The Kubernetes object's `resourceVersion`.
    pub resource_version: Option<String>,
}

/// The model of [`ObjectRevision`].
#[verifier::ext_equal]
pub struct ObjectRevisionView {
    pub uid: Option<Text>,
    pub resource_version: Option<Text>,
}

impl View for ObjectRevision {
    type V = ObjectRevisionView;

    open spec fn view(&self) -> ObjectRevisionView {
        ObjectRevisionView {
            uid: text::view_opt(self.uid),
            resource_version: text::view_opt(self.resource_version),
        }
    }
}

impl Clone for ObjectRevision {
    fn clone(&self) -> (res: Self)
        ensures
            res@ == self@,
    {
        let res = ObjectRevision {
            uid: self.uid.clone(),
            resource_version: self.resource_version.clone(),
        };
        assert(res@ =~~= self@);
        res
    }
}

/// Synchronization target status, used to track synchronized objects.
#[derive(Debug, PartialEq, Eq)]
pub struct DestinationStatus {
    /// Kubernetes object's name of the synchronization target.
    pub name: String,
    /// Kubernetes object's namespace of the synchronization target.
    pub namespace: String,
    /// Kubernetes API group name of the synchronization target.
    pub group: String,
    /// Kubernetes API group version of the synchronization target.
    pub version: String,
    /// Kubernetes API kind name of the synchronization target.
    pub kind: String,
    /// The last source version observed.
    pub source_version: Option<ObjectRevision>,
    /// The revision of the copy as it was last written, `None` if not yet synced.
    pub synced_version: Option<ObjectRevision>,
    /// The [`SyncStrategy`] applied to this destination.
    pub strategy: Option<SyncStrategy>,
}

/// The model of [`DestinationStatus`].
#[verifier::ext_equal]
pub struct DestinationStatusView {
    pub name: Text,
    pub namespace: Text,
    pub group: Text,
    pub version: Text,
    pub kind: Text,
    pub source_version: Option<ObjectRevisionView>,
    pub synced_version: Option<ObjectRevisionView>,
    pub strategy: Option<SyncStrategy>,
}

impl View for DestinationStatus {
    type V = DestinationStatusView;

    open spec fn view(&self) -> DestinationStatusView {
        DestinationStatusView {
            name: self.name@,
            namespace: self.namespace@,
            group: self.group@,
            version: self.version@,
            kind: self.kind@,
            source_version: text::view_opt(self.source_version),
            synced_version: text::view_opt(self.synced_version),
            strategy: self.strategy,
        }
    }
}

impl Clone for DestinationStatus {
    fn clone(&self) -> (res: Self)
        ensures
            res@ == self@,
    {
        let res = DestinationStatus {
            name: self.name.clone(),
            namespace: self.namespace.clone(),
            group: self.group.clone(),
            version: self.version.clone(),
            kind: self.kind.clone(),
            source_version: self.source_version.clone(),
            synced_version: self.synced_version.clone(),
            strategy: self.strategy,
        };
        assert(res@ =~~= self@);
        res
    }
}

/// What is known of the synchronization.
#[derive(Debug, PartialEq, Eq)]
pub struct ObjectSyncStatus {
    /// The observed conditions.
    pub conditions: Option<Vec<Condition>>,
    /// As Kubernetes does not support cross-namespace owner references and automatic
    /// garbage collection of owned objects, all synced destination objects are tracked here.
    pub destinations: Option<Vec<DestinationStatus>>,
}

/// The model of [`ObjectSyncStatus`].
#[verifier::ext_equal]
pub struct ObjectSyncStatusView {
    pub conditions: Option<Seq<ConditionView>>,
    pub destinations: Option<Seq<DestinationStatusView>>,
}

impl View for ObjectSyncStatus {
    type V = ObjectSyncStatusView;

    open spec fn view(&self) -> ObjectSyncStatusView {
        ObjectSyncStatusView {
            conditions: text::view_opt_vec(self.conditions),
            destinations: text::view_opt_vec(self.destinations),
        }
    }
}

impl Clone for ObjectSyncStatus {
    fn clone(&self) -> (res: Self)
        ensures
            res@ == self@,
    {
        let res = ObjectSyncStatus {
            conditions: self.conditions.clone(),
            destinations: self.destinations.clone(),
        };
        assert(res@ =~~= self@);
        res
    }
}

/// The synchronization of one source object.
#[derive(Debug, PartialEq, Eq)]
pub struct ObjectSync {
    /// The metadata of the object.
    pub metadata: ObjectMeta,
    /// The desired synchronization.
    pub spec: ObjectSyncSpec,
    /// The observed synchronization.
    pub status: Option<ObjectSyncStatus>,
}

/// The model of [`ObjectSync`].
#[verifier::ext_equal]
pub struct ObjectSyncView {
    pub metadata: meta::ObjectMetaView,
    pub spec: ObjectSyncSpecView,
    pub status: Option<ObjectSyncStatusView>,
}

impl View for ObjectSync {
    type V = ObjectSyncView;

    open spec fn view(&self) -> ObjectSyncView {
        ObjectSyncView {
            metadata: self.metadata@,
            spec: self.spec@,
            status: text::view_opt(self.status),
        }
    }
}

impl Clone for ObjectSync {
    fn clone(&self) -> (res: Self)
        ensures
            res@ == self@,
    {
        let res = ObjectSync {
            metadata: self.metadata.clone(),
            spec: self.spec.clone(),
            status: self.status.clone(),
        };
        assert(res@ =~~= self@);
        res
    }
}

impl Condition {
    /// A condition of type `tpe`, without a transition time.
    pub fn new(tpe: &str, status: Option<bool>, reason: &str, message: String) -> (res: Self)
        ensures
            res@ == condition(tpe@, status, reason@, message@),
    {
        let status_text: &str = match status {
            Some(true) => "True",
            Some(false) => "False",
            None => "Unknown",
        };
        Condition {
            last_transition_time: None,
            message,
            observed_generation: None,
            reason: reason.to_string(),
            status: status_text.to_string(),
            type_: tpe.to_string(),
        }
    }
}

/// A fresh condition: its status is `True`, `False` or, where it is not known,
/// `Unknown`.
pub open spec fn condition(tpe: Text, status: Option<bool>, reason: Text, message: Text) -> ConditionView {
    ConditionView {
        last_transition_time: None,
        message,
        observed_generation: None,
        reason,
        status: match status {
            Some(true) => "True"@,
            Some(false) => "False"@,
            None => "Unknown"@,
        },
        type_: tpe,
    }
}

impl ObjectSyncSpec {
    /// Get the unique [`Destination`]s. This helper is needed as the JSON/YAML
    /// representation is a list which might contain duplicate entries.
    pub fn destinations(&self) -> (res: Vec<&Destination>)
        ensures
            text::views(res@).no_duplicates(),
            forall|d: DestinationView|
                text::views(res@).contains(d) <==> self@.destinations.contains(d),
    {
        let mut res: Vec<&Destination> = Vec::new();
        let mut i: usize = 0;
        while i < self.destinations.len()
            invariant
                i <= self.destinations@.len(),
                text::views(res@).no_duplicates(),
                forall|d: DestinationView|
                    text::views(res@).contains(d) <==> self@.destinations.take(i as int).contains(d),
            decreases self.destinations@.len() - i,
        {
            let d: &Destination = &self.destinations[i];
            let ghost before = text::views(res@);
            let mut known: bool = false;
            let mut j: usize = 0;
            while j < res.len()
                invariant
                    j <= res@.len(),
                    before == text::views(res@),
                    known <==> before.take(j as int).contains(d@),
                decreases res@.len() - j,
            {
                assert(before.take(j + 1) =~= before.take(j as int).push(before[j as int]));
                if d.same(res[j]) {
                    known = true;
                }
                proof {
                    text::lemma_push_contains(before.take(j as int), before[j as int]);
                }
                j = j + 1;
            }
            assert(before.take(j as int) =~= before);
            proof {
                let all = self@.destinations;
                assert(all[i as int] == d@);
                assert(all.take(i + 1) =~= all.take(i as int).push(all[i as int]));
                text::lemma_push_contains(all.take(i as int), all[i as int]);
                text::lemma_push_contains(before, d@);
            }
            if !known {
                res.push(d);
                assert(text::views(res@) =~= before.push(d@));
            }
            assert forall|x: DestinationView|
                text::views(res@).contains(x) <==> self@.destinations.take(i + 1).contains(x) by {
                let all = self@.destinations;
                assert(all.take(i as int).push(d@).contains(x) <==> all.take(i as int).contains(x) || x
                    == d@);
                assert(before.push(d@).contains(x) <==> before.contains(x) || x == d@);
            }
            i = i + 1;
        }
        assert(self@.destinations.take(i as int) =~= self@.destinations);
        res
    }
}

impl DestinationView {
    /// Whether the namespace is the empty text or the wildcard.
    pub open spec fn covers_all_namespaces(self) -> bool {
        self.namespace == ""@ || self.namespace == "*"@
    }

    /// The name of the copies of the source of `obj`.
    pub open spec fn copy_name(self, obj: ObjectSyncView) -> Text {
        match self.name {
            Some(name) => name,
            None => obj.spec.source.name,
        }
    }

    /// Whether the source of `obj` is copied to `namespace`: this destination
    /// covers the namespace, and the copy is not the source itself.
    pub open spec fn copies_to(self, obj: ObjectSyncView, namespace: Text) -> bool {
        &&& self.namespace == namespace || self.covers_all_namespaces()
        &&& self.copy_name(obj) != obj.spec.source.name || namespace != text::or_empty(
            obj.source_namespace(),
        )
    }

    /// The namespace and the name of the copy in `namespace`, where there is one.
    pub open spec fn copy_in(self, obj: ObjectSyncView, namespace: Text) -> Option<(Text, Text)> {
        if self.copies_to(obj, namespace) {
            Some((namespace, self.copy_name(obj)))
        } else {
            None
        }
    }
}

impl Destination {
    /// The strategy, the default one where none is set.
    pub fn strategy(&self) -> (res: SyncStrategy)
        ensures
            res == effective_strategy(self@.strategy),
    {
        match self.strategy {
            Some(s) => s,
            None => SyncStrategy::default(),
        }
    }

    /// Whether the namespace is empty or the wildcard.
    pub fn applies_to_all_namespaces(&self) -> (res: bool)
        ensures
            res == self@.covers_all_namespaces(),
    {
        text::same_text(self.namespace.as_str(), "") || text::same_text(self.namespace.as_str(), "*")
    }

    fn applies_to_namespace(&self, namespace: &str) -> (res: bool)
        ensures
            res == (self@.namespace == namespace@ || self@.covers_all_namespaces()),
    {
        text::same_text(self.namespace.as_str(), namespace) || self.applies_to_all_namespaces()
    }

    /// Check whether this [`Destination`] applies to given namespace and if so
    /// returns a tuple `(namespace,name)`.
    pub fn applies_to(&self, obj: &ObjectSync, dst_namespace: &str) -> (res: Option<(String, String)>)
        ensures
            text::view_opt(res) == self@.copy_in(obj@, dst_namespace@),
    {
        let src_name: &str = obj.spec.source.name.as_str();
        let src_namespace: &str = match &obj.spec.source.namespace {
            Some(ns) => ns.as_str(),
            None => match &obj.metadata.namespace {
                Some(ns) => ns.as_str(),
                None => "",
            },
        };
        proof {
            reveal_strlit("");
            assert(""@ =~= Seq::<char>::empty());
        }
        let dst_name: &str = match &self.name {
            Some(name) => name.as_str(),
            None => src_name,
        };
        // make sure the destination does not point to the source
        if self.applies_to_namespace(dst_namespace) && (!text::same_text(src_name, dst_name)
            || !text::same_text(src_namespace, dst_namespace)) {
            Some((dst_namespace.to_string(), dst_name.to_string()))
        } else {
            None
        }
    }

    /// Whether both are the same destination.
    pub fn same(&self, other: &Self) -> (res: bool)
        ensures
            res == (self@ == other@),
    {
        text::same_optional_text(&self.name, &other.name) && self.namespace == other.namespace
            && same_strategy(self.strategy, other.strategy)
    }
}

/// Whether both are the same.
pub fn same_strategy(a: Option<SyncStrategy>, b: Option<SyncStrategy>) -> (res: bool)
    ensures
        res == (a == b),
{
    match (a, b) {
        (Some(x), Some(y)) => x == y,
        (None, None) => true,
        _ => false,
    }
}

impl ObjectRevisionView {
    /// The revision that metadata names.
    pub open spec fn of(m: meta::ObjectMetaView) -> ObjectRevisionView {
        ObjectRevisionView { uid: m.uid, resource_version: m.resource_version }
    }
}

impl From<&ObjectMeta> for ObjectRevision {
    fn from(m: &ObjectMeta) -> (res: Self)
        ensures
            res@ == ObjectRevisionView::of(m@),
    {
        ObjectRevision { uid: m.uid.clone(), resource_version: m.resource_version.clone() }
    }
}

impl vstd::std_specs::convert::FromSpecImpl<&ObjectMeta> for ObjectRevision {
    open spec fn obeys_from_spec() -> bool {
        false
    }

    open spec fn from_spec(m: &ObjectMeta) -> Self {
        arbitrary()
    }
}

impl ObjectRevision {

    /// Whether both are the same revision.
    pub fn same(&self, other: &Self) -> (res: bool)
        ensures
            res == (self@ == other@),
    {
        text::same_optional_text(&self.uid, &other.uid) && text::same_optional_text(
            &self.resource_version,
            &other.resource_version,
        )
    }
}

impl DestinationStatus {
    /// The strategy, the default one where none is set.
    pub fn strategy(&self) -> (res: SyncStrategy)
        ensures
            res == effective_strategy(self@.strategy),
    {
        match self.strategy {
            Some(s) => s,
            None => SyncStrategy::default(),
        }
    }
}

impl ObjectSyncStatusView {
    /// A status in which nothing is known.
    pub open spec fn unset() -> ObjectSyncStatusView {
        ObjectSyncStatusView { conditions: None, destinations: None }
    }

    /// The status with the condition `c` recorded at `time`.
    pub open spec fn with_condition(self, c: ConditionView, time: Text) -> ObjectSyncStatusView {
        ObjectSyncStatusView { conditions: Some(record_condition(self.conditions, c, time)), ..self }
    }

    /// The status with the tracked destinations replaced.
    pub open spec fn with_destinations(self, destinations: Seq<DestinationStatusView>) -> ObjectSyncStatusView {
        ObjectSyncStatusView { destinations: Some(destinations), ..self }
    }
}

/// Whether two conditions say the same, whatever their types and times.
pub open spec fn says_the_same(a: ConditionView, b: ConditionView) -> bool {
    &&& a.status == b.status
    &&& a.reason == b.reason
    &&& a.message == b.message
    &&& a.observed_generation == b.observed_generation
}

/// The first of the conditions with the type `type_`.
pub open spec fn condition_of_type(known: Seq<ConditionView>, type_: Text) -> Option<ConditionView>
    decreases known.len(),
{
    if known.len() == 0 {
        None
    } else if known[0].type_ == type_ {
        Some(known[0])
    } else {
        condition_of_type(known.skip(1), type_)
    }
}

/// The time of the last transition of a condition `c` that is recorded at
/// `time` in place of `existing`: the status makes the transition, so the time
/// stays as it was where the status stays.
pub open spec fn transition_time(
    existing: Option<ConditionView>,
    c: ConditionView,
    time: Text,
) -> Option<Text> {
    match existing {
        Some(v) => if v.status == c.status {
            v.last_transition_time
        } else {
            Some(time)
        },
        None => Some(time),
    }
}

/// The conditions after `c` was recorded at `time`: where the condition of its
/// type says the same already they stay as they are, else `c` takes the place of
/// the conditions of its type, at the end of the list.
pub open spec fn record_condition(
    conditions: Option<Seq<ConditionView>>,
    c: ConditionView,
    time: Text,
) -> Seq<ConditionView> {
    let known = known_conditions(conditions);
    let existing = condition_of_type(known, c.type_);
    if existing matches Some(v) && says_the_same(v, c) {
        known
    } else {
        known.filter(|v: ConditionView| v.type_ != c.type_).push(
            ConditionView { last_transition_time: transition_time(existing, c, time), ..c },
        )
    }
}

impl Default for ObjectSyncStatus {
    fn default() -> (res: Self)
        ensures
            res@ == ObjectSyncStatusView::unset(),
    {
        ObjectSyncStatus { conditions: None, destinations: None }
    }
}

impl ObjectSyncStatus {
    /// Records the condition `c` at the current time.
    pub fn update_condition(&mut self, c: Condition)
        ensures
            exists|time: Text|
                outside::is_utc_time(time) && final(self)@ == #[trigger] old(self)@.with_condition(
                    c@,
                    time,
                ),
    {
        let time = outside::utc_now_rfc3339();
        self.update_condition_at(c, time);
    }

    /// Records the condition `c` at `time`.
    pub fn update_condition_at(&mut self, mut c: Condition, time: String)
        ensures
            final(self)@ == old(self)@.with_condition(c@, time@),
    {
        let ghost wanted = c@;
        let ghost at = time@;
        let mut conditions: Vec<Condition> = match self.conditions.take() {
            Some(known) => known,
            None => Vec::new(),
        };
        let ghost known = text::views(conditions@);
        let ghost keep = |v: ConditionView| v.type_ != wanted.type_;
        assert(old(self)@.conditions is None ==> known =~= Seq::empty());
        let place = find_condition(&conditions, c.type_.as_str());
        let ghost existing = condition_of_type(known, wanted.type_);
        let unchanged: bool = match place {
            Some(k) => conditions[k].says_the_same(&c),
            None => false,
        };
        if !unchanged {
            c.last_transition_time = match place {
                Some(k) if conditions[k].status == c.status => conditions[k].last_transition_time.clone(),
                _ => Some(time),
            };
            let ghost new = c@;
            assert(new == ConditionView {
                last_transition_time: transition_time(existing, wanted, at),
                ..wanted
            });
            let mut kept: Vec<Condition> = Vec::new();
            let mut i: usize = 0;
            assert(text::views(kept@) =~= known.take(0).filter(keep)) by {
                reveal(Seq::filter);
            }
            while i < conditions.len()
                invariant
                    i <= conditions@.len(),
                    known == text::views(conditions@),
                    c@.type_ == wanted.type_,
                    keep == (|v: ConditionView| v.type_ != wanted.type_),
                    text::views(kept@) == known.take(i as int).filter(keep),
                decreases conditions@.len() - i,
            {
                let ghost before = text::views(kept@);
                proof {
                    text::lemma_filter_step(known, keep, i as int);
                }
                if conditions[i].type_ != c.type_ {
                    kept.push(conditions[i].clone());
                    assert(text::views(kept@) =~= before.push(known[i as int]));
                }
                i = i + 1;
            }
            assert(known.take(i as int) =~= known);
            let ghost before = text::views(kept@);
            kept.push(c);
            assert(text::views(kept@) =~= before.push(new));
            conditions = kept;
        }
        self.conditions = Some(conditions);
    }

    /// Replaces the tracked destinations.
    pub fn update_destinations(&mut self, destinations: Vec<DestinationStatus>)
        ensures
            final(self)@ == old(self)@.with_destinations(text::views(destinations@)),
    {
        self.destinations = Some(destinations);
    }
}

/// The place of the first condition with the type `type_`.
pub(crate) fn find_condition(conditions: &Vec<Condition>, type_: &str) -> (res: Option<usize>)
    ensures
        match res {
            Some(k) => k < conditions@.len() && condition_of_type(
                text::views(conditions@),
                type_@,
            ) == Some(conditions@[k as int]@),
            None => condition_of_type(text::views(conditions@), type_@) is None,
        },
{
    let ghost known = text::views(conditions@);
    let mut i: usize = 0;
    assert(known.skip(0) =~= known);
    while i < conditions.len()
        invariant
            i <= conditions@.len(),
            known == text::views(conditions@),
            condition_of_type(known, type_@) == condition_of_type(known.skip(i as int), type_@),
        decreases conditions@.len() - i,
    {
        assert(known.skip(i as int)[0] == conditions@[i as int]@);
        assert(known.skip(i as int).skip(1) =~= known.skip(i + 1));
        if text::same_text(conditions[i].type_.as_str(), type_) {
            return Some(i);
        }
        i = i + 1;
    }
    None
}

impl Condition {
    /// Whether both conditions say the same, whatever their types and times.
    fn says_the_same(&self, other: &Self) -> (res: bool)
        ensures
            res == says_the_same(self@, other@),
    {
        self.status == other.status && self.reason == other.reason && self.message == other.message
            && match (self.observed_generation, other.observed_generation) {
            (Some(a), Some(b)) => a == b,
            (None, None) => true,
            _ => false,
        }
    }
}

impl ObjectSyncView {
    /// The namespace of the source object, which defaults to the namespace of
    /// the object itself.
    pub open spec fn source_namespace(self) -> Option<Text> {
        match self.spec.source.namespace {
            Some(ns) => Some(ns),
            None => self.metadata.namespace,
        }
    }

    /// The identifier: namespace and name.
    pub open spec fn id(self) -> Text {
        text::or_empty(self.metadata.namespace) + "/"@ + text::or_empty(self.metadata.name)
    }

    /// The identifier with the version of the stored object.
    pub open spec fn versioned_id(self) -> Text {
        self.id() + "@"@ + text::or_empty(self.metadata.resource_version)
    }

    /// The tracked destinations, where there are any.
    pub open spec fn status_destinations(self) -> Option<Seq<DestinationStatusView>> {
        match self.status {
            Some(status) => status.destinations,
            None => None,
        }
    }

    /// The status, an empty one where there is none.
    pub open spec fn status_or_unset(self) -> ObjectSyncStatusView {
        match self.status {
            Some(status) => status,
            None => ObjectSyncStatusView::unset(),
        }
    }

    /// The object with the condition `c` recorded at `time`.
    pub open spec fn with_condition(self, c: ConditionView, time: Text) -> ObjectSyncView {
        ObjectSyncView { status: Some(self.status_or_unset().with_condition(c, time)), ..self }
    }

    /// The object with the tracked destinations replaced.
    pub open spec fn with_destinations(self, destinations: Seq<DestinationStatusView>) -> ObjectSyncView {
        ObjectSyncView { status: Some(self.status_or_unset().with_destinations(destinations)), ..self }
    }
}

impl ObjectSync {
    /// The identifier: namespace and name.
    pub fn id(&self) -> (res: String)
        ensures
            res@ == self@.id(),
    {
        let mut res = meta::text_or_empty(&self.metadata.namespace);
        res.append("/");
        res.append(meta::text_or_empty(&self.metadata.name).as_str());
        res
    }

    /// The identifier with the version of the stored object.
    pub fn versioned_id(&self) -> (res: String)
        ensures
            res@ == self@.versioned_id(),
    {
        let mut res = self.id();
        res.append("@");
        res.append(meta::text_or_empty(&self.metadata.resource_version).as_str());
        res
    }

    /// The tracked destinations, where there are any.
    pub fn status_destinations(&self) -> (res: Option<&Vec<DestinationStatus>>)
        ensures
            (match res {
                Some(v) => Some(text::views(v@)),
                None => None,
            }) == self@.status_destinations(),
    {
        match &self.status {
            Some(status) => match &status.destinations {
                Some(destinations) => Some(destinations),
                None => None,
            },
            None => None,
        }
    }

    /// Records the condition `c` at the current time.
    pub fn update_condition(&mut self, c: Condition)
        ensures
            exists|time: Text|
                outside::is_utc_time(time) && final(self)@ == #[trigger] old(self)@.with_condition(
                    c@,
                    time,
                ),
    {
        let time = outside::utc_now_rfc3339();
        self.update_condition_at(c, time);
    }

    /// Records the condition `c` at `time`.
    pub fn update_condition_at(&mut self, c: Condition, time: String)
        ensures
            final(self)@ == old(self)@.with_condition(c@, time@),
    {
        let mut status = match self.status.take() {
            Some(status) => status,
            None => ObjectSyncStatus::default(),
        };
        status.update_condition_at(c, time);
        self.status = Some(status);
    }

    /// Replaces the tracked destinations.
    pub fn update_destinations(&mut self, destinations: Vec<DestinationStatus>)
        ensures
            final(self)@ == old(self)@.with_destinations(text::views(destinations@)),
    {
        let mut status = match self.status.take() {
            Some(status) => status,
            None => ObjectSyncStatus::default(),
        };
        status.update_destinations(destinations);
        self.status = Some(status);
    }

    /// The name of the source object.
    pub fn source_name(&self) -> (res: &str)
        ensures
            res@ == self@.spec.source.name,
    {
        self.spec.source.name.as_str()
    }

    /// Return the namespace of the source object, which defaults
    /// to the namespace of the ObjectSync object.
    pub fn source_namespace(&self) -> (res: Option<String>)
        ensures
            text::view_opt(res) == self@.source_namespace(),
    {
        match &self.spec.source.namespace {
            Some(ns) => Some(ns.clone()),
            None => self.metadata.namespace.clone(),
        }
    }
}

/// A copy is never the source itself: it has another name, or stands in another
/// namespace.
pub proof fn law_copy_is_not_the_source(d: DestinationView, o: ObjectSyncView, namespace: Text)
    ensures
        d.copy_in(o, namespace) matches Some(copy) ==> copy.0 == namespace && (copy.1
            != o.spec.source.name || copy.0 != text::or_empty(o.source_namespace())),
{
}

/// A destination for the empty namespace or the wildcard has a copy in every
/// namespace, but for the source itself.
pub proof fn law_wildcard_covers_every_namespace(
    d: DestinationView,
    o: ObjectSyncView,
    namespace: Text,
)
    requires
        d.namespace == ""@ || d.namespace == "*"@,
    ensures
        d.copy_in(o, namespace) is Some <==> d.copy_name(o) != o.spec.source.name || namespace
            != text::or_empty(o.source_namespace()),
{
}

/// A destination for a named namespace has a copy in no other.
pub proof fn law_named_namespace_is_the_only_one(
    d: DestinationView,
    o: ObjectSyncView,
    namespace: Text,
)
    requires
        !d.covers_all_namespaces(),
        namespace != d.namespace,
    ensures
        d.copy_in(o, namespace) is None,
{
}

/// Whether no two conditions are of the same type.
pub open spec fn one_of_each_type(conditions: Seq<ConditionView>) -> bool {
    forall|i: int, j: int|
        0 <= i < j < conditions.len() ==> (#[trigger] conditions[i]).type_ != (
        #[trigger] conditions[j]).type_
}

/// The conditions that are known, none where the list is not set.
pub open spec fn known_conditions(conditions: Option<Seq<ConditionView>>) -> Seq<ConditionView> {
    match conditions {
        Some(s) => s,
        None => Seq::empty(),
    }
}

/// Recording a condition leaves those of other types as they are.
pub proof fn law_other_conditions_stay(
    conditions: Option<Seq<ConditionView>>,
    c: ConditionView,
    time: Text,
    other: ConditionView,
)
    requires
        other.type_ != c.type_,
    ensures
        record_condition(conditions, c, time).contains(other) <==> known_conditions(
            conditions,
        ).contains(other),
{
    let known = known_conditions(conditions);
    let keep = |v: ConditionView| v.type_ != c.type_;
    text::lemma_filter_contains(known, keep, other);
    let existing = condition_of_type(known, c.type_);
    let new = ConditionView { last_transition_time: transition_time(existing, c, time), ..c };
    text::lemma_push_contains(known.filter(keep), new);
}

proof fn lemma_filter_one_of_each(known: Seq<ConditionView>, type_: Text)
    requires
        one_of_each_type(known),
    ensures
        one_of_each_type(known.filter(|v: ConditionView| v.type_ != type_)),
    decreases known.len(),
{
    reveal(Seq::filter);
    let keep = |v: ConditionView| v.type_ != type_;
    if known.len() > 0 {
        let r = known.drop_last();
        assert forall|i: int, j: int| 0 <= i < j < r.len() implies (#[trigger] r[i]).type_ != (
        #[trigger] r[j]).type_ by {
            assert(r[i] == known[i] && r[j] == known[j]);
        }
        lemma_filter_one_of_each(r, type_);
        let f = r.filter(keep);
        let rest = known.filter(keep);
        assert forall|i: int, j: int| 0 <= i < j < rest.len() implies (#[trigger] rest[i]).type_
            != (#[trigger] rest[j]).type_ by {
            if j < f.len() {
                assert(rest[i] == f[i] && rest[j] == f[j]);
            } else {
                assert(rest[i] == f[i]);
                text::lemma_filter_contains(r, keep, f[i]);
                assert(f.contains(f[i]));
                let k = choose|k: int| 0 <= k < r.len() && r[k] == f[i];
                assert(known[k] == f[i] && known[known.len() - 1] == known.last());
            }
        }
    }
}

/// There is at most one condition of each type, however many are recorded.
pub proof fn law_one_condition_of_each_type(
    conditions: Option<Seq<ConditionView>>,
    c: ConditionView,
    time: Text,
)
    requires
        one_of_each_type(known_conditions(conditions)),
    ensures
        one_of_each_type(record_condition(conditions, c, time)),
{
    let known = known_conditions(conditions);
    let keep = |v: ConditionView| v.type_ != c.type_;
    lemma_filter_one_of_each(known, c.type_);
    let kept = known.filter(keep);
    let existing = condition_of_type(known, c.type_);
    let new = ConditionView { last_transition_time: transition_time(existing, c, time), ..c };
    let after = kept.push(new);
    assert forall|i: int, j: int| 0 <= i < j < after.len() implies (#[trigger] after[i]).type_ != (
    #[trigger] after[j]).type_ by {
        if j < kept.len() {
            assert(after[i] == kept[i] && after[j] == kept[j]);
        } else {
            assert(after[i] == kept[i]);
            text::lemma_filter_contains(known, keep, kept[i]);
            assert(kept.contains(kept[i]));
        }
    }
}

proof fn lemma_condition_of_type(known: Seq<ConditionView>, type_: Text)
    ensures
        match condition_of_type(known, type_) {
            Some(v) => known.contains(v) && v.type_ == type_,
            None => forall|v: ConditionView| #[trigger] known.contains(v) ==> v.type_ != type_,
        },
    decreases known.len(),
{
    if known.len() > 0 {
        let rest = known.skip(1);
        assert(known =~= seq![known[0]] + rest);
        lemma_condition_of_type(rest, type_);
        assert forall|v: ConditionView| #[trigger] known.contains(v) implies v == known[0]
            || rest.contains(v) by {
            let k = choose|k: int| 0 <= k < known.len() && known[k] == v;
            if k > 0 {
                assert(rest[k - 1] == v);
            }
        }
        assert forall|v: ConditionView| #[trigger] rest.contains(v) implies known.contains(v) by {
            let k = choose|k: int| 0 <= k < rest.len() && rest[k] == v;
            assert(known[k + 1] == v);
        }
        assert(known.contains(known[0]));
    }
}

/// A list that holds no condition of a type, followed by one of that type.
proof fn lemma_condition_of_type_push(kept: Seq<ConditionView>, new: ConditionView)
    requires
        forall|k: int| 0 <= k < kept.len() ==> (#[trigger] kept[k]).type_ != new.type_,
    ensures
        condition_of_type(kept.push(new), new.type_) == Some(new),
    decreases kept.len(),
{
    let all = kept.push(new);
    if kept.len() > 0 {
        let rest = kept.skip(1);
        assert forall|k: int| 0 <= k < rest.len() implies (#[trigger] rest[k]).type_ != new.type_ by {
            assert(rest[k] == kept[k + 1]);
        }
        lemma_condition_of_type_push(rest, new);
        assert(all.skip(1) =~= rest.push(new));
        assert(all[0] == kept[0]);
    } else {
        assert(all[0] == new);
    }
}

/// What is read back for the type of `c` after `c` was recorded.
proof fn lemma_recorded(conditions: Option<Seq<ConditionView>>, c: ConditionView, time: Text)
    ensures
        ({
            let existing = condition_of_type(known_conditions(conditions), c.type_);
            let recorded = condition_of_type(record_condition(conditions, c, time), c.type_);
            if existing matches Some(v) && says_the_same(v, c) {
                recorded == existing
            } else {
                recorded == Some(
                    ConditionView { last_transition_time: transition_time(existing, c, time), ..c },
                )
            }
        }),
{
    let known = known_conditions(conditions);
    let existing = condition_of_type(known, c.type_);
    let keep = |v: ConditionView| v.type_ != c.type_;
    let kept = known.filter(keep);
    if !(existing matches Some(v) && says_the_same(v, c)) {
        assert forall|k: int| 0 <= k < kept.len() implies (#[trigger] kept[k]).type_ != c.type_ by {
            assert(kept.contains(kept[k]));
            text::lemma_filter_contains(known, keep, kept[k]);
        }
        lemma_condition_of_type_push(
            kept,
            ConditionView { last_transition_time: transition_time(existing, c, time), ..c },
        );
    }
}

/// A condition that was recorded can be read back by its type.
pub proof fn law_recorded_condition_is_there(
    conditions: Option<Seq<ConditionView>>,
    c: ConditionView,
    time: Text,
)
    ensures
        condition_of_type(record_condition(conditions, c, time), c.type_) matches Some(v)
            && v.type_ == c.type_ && says_the_same(v, c) && record_condition(
            conditions,
            c,
            time,
        ).contains(v),
{
    lemma_recorded(conditions, c, time);
    lemma_condition_of_type(known_conditions(conditions), c.type_);
    lemma_condition_of_type(record_condition(conditions, c, time), c.type_);
}

/// The time of the last transition of a condition changes with its status alone.
pub proof fn law_transition_time_follows_the_status(
    conditions: Option<Seq<ConditionView>>,
    c: ConditionView,
    time: Text,
)
    ensures
        ({
            let before = condition_of_type(known_conditions(conditions), c.type_);
            let after = condition_of_type(record_condition(conditions, c, time), c.type_);
            after matches Some(w) && (w.last_transition_time == match before {
                Some(v) if v.status == c.status => v.last_transition_time,
                _ => Some(time),
            })
        }),
{
    lemma_recorded(conditions, c, time);
}

/// A condition that says what the one of its type says already changes nothing.
pub proof fn law_unchanged_condition_keeps_its_time(
    status: ObjectSyncStatusView,
    c: ConditionView,
    time: Text,
)
    requires
        condition_of_type(known_conditions(status.conditions), c.type_) matches Some(v)
            && says_the_same(v, c),
    ensures
        status.with_condition(c, time) == status,
{
}

/// Recording the same condition again changes nothing.
pub proof fn law_recording_again_changes_nothing(
    status: ObjectSyncStatusView,
    c: ConditionView,
    time: Text,
    later: Text,
)
    ensures
        status.with_condition(c, time).with_condition(c, later) == status.with_condition(c, time),
{
    lemma_recorded(status.conditions, c, time);
}

/// Whether the source of `o` is to be looked for in `namespace`: the one that the
/// reference names, or else that of the object itself, or else the empty one.
pub open spec fn has_source_in(o: ObjectSyncView, namespace: Text) -> bool {
    match (o.spec.source.namespace, o.metadata.namespace) {
        (Some(ns), _) => namespace == ns,
        (None, Some(ns)) => namespace == ns,
        (None, None) => namespace.len() == 0,
    }
}

/// The namespace of the source is the one that the reference names. Only where it
/// names none, it is the namespace of the object itself.
pub proof fn law_source_namespace_is_the_one_named(o: ObjectSyncView)
    ensures
        o.spec.source.namespace matches Some(ns) ==> o.source_namespace() == Some(ns),
        o.spec.source.namespace is None ==> o.source_namespace() == o.metadata.namespace,
        has_source_in(o, text::or_empty(o.source_namespace())),
{
}

/// The copy that a destination has in a namespace: there is one exactly where the
/// destination names this namespace, or all of them, and its place is not that of
/// the source. Its name is the one that the destination gives, or else that of the
/// source.
pub proof fn law_copy_of_a_destination(
    d: DestinationView,
    o: ObjectSyncView,
    namespace: Text,
    name: Text,
)
    ensures
        d.copy_in(o, namespace) == Some((namespace, name)) <==> {
            &&& d.namespace == namespace || d.namespace == ""@ || d.namespace == "*"@
            &&& name == match d.name {
                Some(n) => n,
                None => o.spec.source.name,
            }
            &&& !(name == o.spec.source.name && has_source_in(o, namespace))
        },
        d.copy_in(o, namespace) matches Some(copy) ==> copy.0 == namespace,
{
    if text::or_empty(o.source_namespace()).len() == 0 && namespace.len() == 0 {
        assert(text::or_empty(o.source_namespace()) =~= namespace);
    }
}

/// The strategy is the one that is set, and server-side apply where none is.
pub proof fn law_strategy_defaults_to_apply(strategy: Option<SyncStrategy>)
    ensures
        strategy matches Some(s) ==> effective_strategy(strategy) == s,
        strategy is None ==> effective_strategy(strategy) == SyncStrategy::Apply,
{
}

/// A revision is told by uid and version, and by both of them.
pub proof fn law_revision_is_uid_and_version(m: meta::ObjectMetaView, n: meta::ObjectMetaView)
    ensures
        ObjectRevisionView::of(m).uid == m.uid,
        ObjectRevisionView::of(m).resource_version == m.resource_version,
        ObjectRevisionView::of(m) == ObjectRevisionView::of(n) <==> m.uid == n.uid
            && m.resource_version == n.resource_version,
{
}

/// A new condition says what it was made with, and nothing of the time.
pub proof fn law_condition_says_what_it_was_made_with(
    tpe: Text,
    status: Option<bool>,
    reason: Text,
    message: Text,
)
    ensures
        ({
            let c = condition(tpe, status, reason, message);
            &&& c.type_ == tpe
            &&& c.reason == reason
            &&& c.message == message
            &&& status == Some(true) ==> c.status == "True"@
            &&& status == Some(false) ==> c.status == "False"@
            &&& status is None ==> c.status == "Unknown"@
            &&& c.last_transition_time is None
            &&& c.observed_generation is None
        }),
{
}

/// Whether the list holds a condition of the type of `c` that says what `c` says,
/// with this transition time.
pub open spec fn holds_condition(
    conditions: Seq<ConditionView>,
    c: ConditionView,
    transition: Option<Text>,
) -> bool {
    exists|i: int|
        0 <= i < conditions.len() && (#[trigger] conditions[i]).type_ == c.type_
            && conditions[i].status == c.status && conditions[i].reason == c.reason
            && conditions[i].message == c.message && conditions[i].observed_generation
            == c.observed_generation && conditions[i].last_transition_time == transition
}

/// After a condition was recorded, the list holds it with status, reason, message
/// and generation as they were given. The transition time is the one that the
/// condition of this type had, as long as the status is the same, and else the
/// time of the record.
pub proof fn law_condition_is_recorded_as_given(
    conditions: Option<Seq<ConditionView>>,
    c: ConditionView,
    time: Text,
    k: int,
)
    requires
        conditions matches Some(known) ==> {
            ||| 0 <= k < known.len() && known[k].type_ == c.type_ && forall|j: int|
                0 <= j < known.len() && j != k ==> (#[trigger] known[j]).type_ != c.type_
            ||| k < 0 && forall|j: int|
                0 <= j < known.len() ==> (#[trigger] known[j]).type_ != c.type_
        },
        conditions is None ==> k < 0,
    ensures
        ({
            let after = record_condition(conditions, c, time);
            let transition = if k >= 0 && conditions->0[k].status == c.status {
                conditions->0[k].last_transition_time
            } else {
                Some(time)
            };
            &&& holds_condition(after, c, transition)
            &&& forall|i: int, j: int|
                0 <= i < after.len() && 0 <= j < after.len() && i != j && (
                #[trigger] after[i]).type_ == c.type_ ==> (#[trigger] after[j]).type_ != c.type_
        }),
{
    let known = known_conditions(conditions);
    let after = record_condition(conditions, c, time);
    lemma_recorded(conditions, c, time);
    lemma_condition_of_type(known, c.type_);
    lemma_condition_of_type(after, c.type_);
    let existing = condition_of_type(known, c.type_);
    if k >= 0 {
        assert(known.contains(known[k]));
        assert(existing == Some(known[k])) by {
            let v = existing->0;
            let j = choose|j: int| 0 <= j < known.len() && known[j] == v;
            if j != k {
                assert(known[j].type_ != c.type_);
            }
        }
    } else if let Some(v) = existing {
        let j = choose|j: int| 0 <= j < known.len() && known[j] == v;
        assert(known[j].type_ != c.type_);
    }
    let w = condition_of_type(after, c.type_)->0;
    let i = choose|i: int| 0 <= i < after.len() && after[i] == w;
    assert(after[i].type_ == c.type_);
    if !(existing matches Some(v) && says_the_same(v, c)) {
        let keep = |v: ConditionView| v.type_ != c.type_;
        let kept = known.filter(keep);
        assert forall|i: int, j: int|
            0 <= i < after.len() && 0 <= j < after.len() && i != j && (#[trigger] after[i]).type_
                == c.type_ implies (#[trigger] after[j]).type_ != c.type_ by {
            if i < kept.len() {
                assert(after[i] == kept[i]);
                assert(kept.contains(kept[i]));
                text::lemma_filter_contains(known, keep, kept[i]);
            }
            if j < kept.len() {
                assert(after[j] == kept[j]);
                assert(kept.contains(kept[j]));
                text::lemma_filter_contains(known, keep, kept[j]);
            }
        }
    }
}

/// Recording a condition, or replacing the tracked destinations, changes that alone.
pub proof fn law_status_changes_one_part(
    o: ObjectSyncView,
    c: ConditionView,
    time: Text,
    destinations: Seq<DestinationStatusView>,
)
    ensures
        ({
            let told = o.with_condition(c, time);
            &&& told.metadata == o.metadata
            &&& told.spec == o.spec
            &&& told.status matches Some(s)
            &&& s.destinations == match o.status {
                Some(t) => t.destinations,
                None => None,
            }
            &&& s.conditions == Some(
                record_condition(
                    match o.status {
                        Some(t) => t.conditions,
                        None => None,
                    },
                    c,
                    time,
                ),
            )
        }),
        ({
            let tracking = o.with_destinations(destinations);
            &&& tracking.metadata == o.metadata
            &&& tracking.spec == o.spec
            &&& tracking.status matches Some(s)
            &&& s.destinations == Some(destinations)
            &&& s.conditions == match o.status {
                Some(t) => t.conditions,
                None => None,
            }
            &&& tracking.status_destinations() == Some(destinations)
        }),
        o.status_destinations() == match o.status {
            Some(t) => t.destinations,
            None => None,
        },
{
}

/// The identifier of an object names its namespace and its name, with a slash
/// between them, and the versioned one names the stored version as well.
pub proof fn law_identifier_names_the_object(o: ObjectSyncView, ns: Text, name: Text)
    requires
        meta::is_in(o.metadata, ns),
        match o.metadata.name {
            Some(n) => name == n,
            None => name.len() == 0,
        },
    ensures
        o.id() == ns + seq!['/'] + name,
        o.metadata.resource_version matches Some(v) ==> o.versioned_id() == ns + seq!['/'] + name
            + seq!['@'] + v,
        o.metadata.resource_version is None ==> o.versioned_id() == ns + seq!['/'] + name + seq![
            '@',
        ],
{
    meta::law_used_name_is_its_own(o.metadata, name, ns);
    if o.metadata.name is None {
        assert(name =~= Seq::<char>::empty());
    }
    if o.metadata.resource_version is None {
        assert(o.versioned_id() =~= ns + seq!['/'] + name + seq!['@']) by {
            reveal_strlit("/");
            reveal_strlit("@");
        }
    }
    reveal_strlit("/");
    reveal_strlit("@");
    assert("/"@ =~= seq!['/']);
    assert("@"@ =~= seq!['@']);
}

/// The copy that a destination has in a namespace, as it is handed out: there is one
/// exactly where the destination names this namespace, the empty one or an asterisk,
/// and the place is not that of the source.
pub proof fn law_destination_applies_to_namespaces(
    d: &Destination,
    o: &ObjectSync,
    namespace: &str,
    res: Option<(String, String)>,
    applies_to_all: bool,
    strategy: SyncStrategy,
)
    requires
        call_ensures(Destination::applies_to, (d, o, namespace), res),
        call_ensures(Destination::applies_to_all_namespaces, (d,), applies_to_all),
        call_ensures(Destination::strategy, (d,), strategy),
    ensures
        applies_to_all <==> d.namespace@ == ""@ || d.namespace@ == "*"@,
        strategy == match d.strategy {
            Some(s) => s,
            None => SyncStrategy::Apply,
        },
        match res {
            Some((ns, name)) => {
                &&& ns@ == namespace@
                &&& name@ == match d.name {
                    Some(n) => n@,
                    None => o.spec.source.name@,
                }
                &&& d.namespace@ == namespace@ || applies_to_all
                &&& !(name@ == o.spec.source.name@ && has_source_in(o@, namespace@))
            },
            None => {
                let name = match d.name {
                    Some(n) => n@,
                    None => o.spec.source.name@,
                };
                ||| d.namespace@ != namespace@ && !applies_to_all
                ||| name == o.spec.source.name@ && has_source_in(o@, namespace@)
            },
        },
{
    let name = match d.name {
        Some(n) => n@,
        None => o.spec.source.name@,
    };
    law_copy_of_a_destination(d@, o@, namespace@, name);
    let v = text::view_opt(res);
    if let Some(pair) = res {
        law_copy_of_a_destination(d@, o@, namespace@, pair.1@);
        assert(v == Some((pair.0@, pair.1@)));
    } else {
        assert(v is None);
    }
}

/// The source of an object is named by its reference, in the namespace that it gives
/// or else in that of the object. Destinations are listed without repetition. What
/// has no strategy is applied.
pub proof fn law_what_an_object_refers_to(
    o: &ObjectSync,
    name: &str,
    namespace: Option<String>,
    desired: &ObjectSyncSpec,
    listed: Vec<&Destination>,
    d: DestinationView,
    entry: &DestinationStatus,
    strategy: SyncStrategy,
    by_default: SyncStrategy,
)
    requires
        call_ensures(ObjectSync::source_name, (o,), name),
        call_ensures(ObjectSync::source_namespace, (o,), namespace),
        call_ensures(ObjectSyncSpec::destinations, (desired,), listed),
        call_ensures(DestinationStatus::strategy, (entry,), strategy),
        call_ensures(<SyncStrategy as Default>::default, (), by_default),
    ensures
        name@ == o.spec.source.name@,
        o.spec.source.namespace matches Some(ns) ==> (namespace matches Some(n) && n@ == ns@),
        o.spec.source.namespace is None ==> (match o.metadata.namespace {
            Some(ns) => namespace matches Some(n) && n@ == ns@,
            None => namespace is None,
        }),
        text::views(listed@).contains(d) <==> desired@.destinations.contains(d),
        forall|i: int, j: int| 0 <= i < j < listed@.len() ==> listed@[i]@ != listed@[j]@,
        strategy == match entry.strategy {
            Some(s) => s,
            None => SyncStrategy::Apply,
        },
        by_default == SyncStrategy::Apply,
{
    let v = text::view_opt(namespace);
    assert(v == o@.source_namespace());
    assert((namespace is Some) == (v is Some));
    assert forall|i: int, j: int| 0 <= i < j < listed@.len() implies listed@[i]@ != listed@[j]@ by {
        assert(text::views(listed@)[i] == listed@[i]@);
        assert(text::views(listed@)[j] == listed@[j]@);
    }
}

/// The revision of an object is told by its uid and version, and two are the same
/// where both are. A new condition says what it was made with.
pub proof fn law_calls_on_revisions(
    m: &ObjectMeta,
    r: ObjectRevision,
    a: &ObjectRevision,
    b: &ObjectRevision,
    is_same: bool,
    tpe: &str,
    status: Option<bool>,
    reason: &str,
    message: String,
    c: Condition,
)
    requires
        call_ensures(<ObjectRevision as From<&ObjectMeta>>::from, (m,), r),
        call_ensures(ObjectRevision::same, (a, b), is_same),
        call_ensures(Condition::new, (tpe, status, reason, message), c),
    ensures
        text::view_opt(r.uid) == text::view_opt(m.uid),
        text::view_opt(r.resource_version) == text::view_opt(m.resource_version),
        is_same <==> text::view_opt(a.uid) == text::view_opt(b.uid) && text::view_opt(
            a.resource_version,
        ) == text::view_opt(b.resource_version),
        c.type_@ == tpe@,
        c.reason@ == reason@,
        c.message@ == message@,
        status == Some(true) ==> c.status@ == "True"@,
        status == Some(false) ==> c.status@ == "False"@,
        status is None ==> c.status@ == "Unknown"@,
        c.last_transition_time is None,
        c.observed_generation is None,
{
    assert(r@.uid == m@.uid);
    assert(c@.last_transition_time is None);
    assert((c.last_transition_time is None) == (text::view_opt(c.last_transition_time) is None));
}

/// Recording a condition at a time, or the tracked destinations, changes that part of
/// the status alone. The identifiers and the tracked destinations are as the laws on
/// them say.
pub proof fn law_calls_on_the_status(
    told: &mut ObjectSync,
    c: Condition,
    time: String,
    tracking: &mut ObjectSync,
    destinations: Vec<DestinationStatus>,
    o: &ObjectSync,
    id: String,
    versioned: String,
    known: Option<&Vec<DestinationStatus>>,
)
    requires
        call_ensures(ObjectSync::update_condition_at, (told, c, time), ()),
        call_ensures(ObjectSync::update_destinations, (tracking, destinations), ()),
        call_ensures(ObjectSync::id, (o,), id),
        call_ensures(ObjectSync::versioned_id, (o,), versioned),
        call_ensures(ObjectSync::status_destinations, (o,), known),
    ensures
        final(told)@ == old(told)@.with_condition(c@, time@),
        final(tracking)@ == old(tracking)@.with_destinations(text::views(destinations@)),
        id@ == o@.id(),
        versioned@ == o@.versioned_id(),
        match o.status {
            Some(s) => match s.destinations {
                Some(d) => known matches Some(k) && text::views(k@) == text::views(d@),
                None => known is None,
            },
            None => known is None,
        },
{
    assert(o@.status == text::view_opt(o.status));
    if let Some(s) = o.status {
        assert(o@.status == Some(s@));
    }
}

/// Also a status by itself changes in one part alone, and starts with nothing set. A
/// condition that is recorded at the time of the call is recorded at one time.
pub proof fn law_calls_on_a_status_alone(
    told: &mut ObjectSyncStatus,
    c: Condition,
    time: String,
    tracking: &mut ObjectSyncStatus,
    destinations: Vec<DestinationStatus>,
    unset: ObjectSyncStatus,
    now: &mut ObjectSync,
    d: Condition,
)
    requires
        call_ensures(ObjectSyncStatus::update_condition_at, (told, c, time), ()),
        call_ensures(ObjectSyncStatus::update_destinations, (tracking, destinations), ()),
        call_ensures(<ObjectSyncStatus as Default>::default, (), unset),
        call_ensures(ObjectSync::update_condition, (now, d), ()),
    ensures
        final(told)@.destinations == old(told)@.destinations,
        final(told)@.conditions == Some(record_condition(old(told)@.conditions, c@, time@)),
        final(tracking)@.conditions == old(tracking)@.conditions,
        final(tracking)@.destinations == Some(text::views(destinations@)),
        unset@.conditions is None && unset@.destinations is None,
        exists|t: Text|
            outside::is_utc_time(t) && final(now)@ == #[trigger] old(now)@.with_condition(d@, t),
{
}

/// A condition that is recorded takes the place of all of its type, at the end, and
/// the others stay in order. Where the first of its type says the same already,
/// status, reason, message and generation, nothing changes. The transition time
/// stays as long as the status does.
pub proof fn law_condition_takes_its_place(
    conditions: Option<Seq<ConditionView>>,
    c: ConditionView,
    time: Text,
    k: int,
)
    requires
        conditions matches Some(known) ==> {
            ||| 0 <= k < known.len() && known[k].type_ == c.type_ && forall|j: int|
                0 <= j < k ==> (#[trigger] known[j]).type_ != c.type_
            ||| k < 0 && forall|j: int|
                0 <= j < known.len() ==> (#[trigger] known[j]).type_ != c.type_
        },
        conditions is None ==> k < 0,
    ensures
        ({
            let after = record_condition(conditions, c, time);
            let known = match conditions {
                Some(s) => s,
                None => Seq::empty(),
            };
            let is_said = k >= 0 && known[k].status == c.status && known[k].reason == c.reason
                && known[k].message == c.message && known[k].observed_generation
                == c.observed_generation;
            &&& is_said ==> after == known
            &&& !is_said ==> {
                &&& after.len() > 0
                &&& after.last().type_ == c.type_
                &&& after.last().status == c.status
                &&& after.last().reason == c.reason
                &&& after.last().message == c.message
                &&& after.last().observed_generation == c.observed_generation
                &&& after.last().last_transition_time == if k >= 0 && known[k].status == c.status {
                    known[k].last_transition_time
                } else {
                    Some(time)
                }
                &&& after.drop_last() == known.filter(|v: ConditionView| v.type_ != c.type_)
            }
        }),
{
    let known = known_conditions(conditions);
    crate::conditions::lemma_first_of_type(known, c.type_);
    match condition_of_type(known, c.type_) {
        Some(v) => {
            let i = choose|i: int|
                0 <= i < known.len() && (#[trigger] known[i]) == v && v.type_ == c.type_ && forall|
                    j: int,
                |
                    0 <= j < i ==> (#[trigger] known[j]).type_ != c.type_;
            assert(known[i].type_ == c.type_);
            assert(i == k) by {
                if k >= 0 && i < k {
                    assert(known[i].type_ != c.type_);
                } else if k >= 0 && k < i {
                    assert(known[k].type_ != c.type_);
                }
            }
        },
        None => {
            if k >= 0 {
                assert(known[k].type_ != c.type_);
            }
        },
    }
    let kept = known.filter(|v: ConditionView| v.type_ != c.type_);
    assert forall|x: ConditionView| #[trigger] kept.push(x).drop_last() == kept by {
        assert(kept.push(x).drop_last() =~= kept);
    }
}

} // verus!
