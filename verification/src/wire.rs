//! The JSON form of the resources: which members an object has, under which
//! names, in which order, and which of them are left out where nothing is set.
use crate::api;
use crate::api::{
    Condition, Destination, DestinationStatus, ObjectRevision, ObjectSync, ObjectSyncSpec,
    ObjectSyncStatus, SourceObject, SyncStrategy,
};
use crate::meta;
use crate::meta::{DynamicObject, Entry, ObjectMeta};
use crate::outside;
use crate::text;
use crate::text::Text;
use vstd::prelude::*;
use vstd::string::*;

verus! {

/// The version of the API group of [`ObjectSync`], with the group.
pub const API_VERSION: &'static str = "sync.rustrial.org/v1alpha1";

/// The name of the kind of [`ObjectSync`].
pub const KIND: &'static str = "ObjectSync";

/// The items, with a comma between each two.
pub open spec fn listing(items: Seq<Text>) -> Text
    decreases items.len(),
{
    if items.len() == 0 {
        Seq::empty()
    } else if items.len() == 1 {
        items[0]
    } else {
        listing(items.drop_last()) + ","@ + items.last()
    }
}

/// A JSON object of the given members.
pub open spec fn object(members: Seq<Text>) -> Text {
    "{"@ + listing(members) + "}"@
}

/// A JSON array of the given elements.
pub open spec fn array(elements: Seq<Text>) -> Text {
    "["@ + listing(elements) + "]"@
}

/// One more member.
pub open spec fn put(members: Seq<Text>, key: Text, value: Text) -> Seq<Text> {
    members.push(outside::json_string(key) + ":"@ + value)
}

/// One more member, where it has a value.
pub open spec fn put_opt(members: Seq<Text>, key: Text, value: Option<Text>) -> Seq<Text> {
    match value {
        Some(v) => put(members, key, v),
        None => members,
    }
}

/// An optional text as a JSON string.
pub open spec fn string_opt(s: Option<Text>) -> Option<Text> {
    match s {
        Some(t) => Some(outside::json_string(t)),
        None => None,
    }
}

/// An optional number.
pub open spec fn number_opt(n: Option<i64>) -> Option<Text> {
    match n {
        Some(i) => Some(text::signed_decimal(i as int)),
        None => None,
    }
}

/// Texts as a JSON array of strings.
pub open spec fn string_array(s: Seq<Text>) -> Text {
    array(Seq::new(s.len(), |i: int| outside::json_string(s[i])))
}

fn listing_text(items: &Vec<String>) -> (res: String)
    ensures
        res@ == listing(text::views(items@)),
{
    let ghost all = text::views(items@);
    let mut res = String::new();
    let mut i: usize = 0;
    assert(all.take(0) =~= Seq::empty());
    while i < items.len()
        invariant
            i <= items@.len(),
            all == text::views(items@),
            res@ == listing(all.take(i as int)),
        decreases items@.len() - i,
    {
        assert(all.take(i + 1).drop_last() =~= all.take(i as int));
        assert(all.take(i + 1).last() == items@[i as int]@);
        if i > 0 {
            res.append(",");
        } else {
            assert(Seq::<char>::empty() + items@[0]@ =~= items@[0]@);
        }
        res.append(items[i].as_str());
        i = i + 1;
    }
    assert(all.take(i as int) =~= all);
    res
}

fn object_text(members: &Vec<String>) -> (res: String)
    ensures
        res@ == object(text::views(members@)),
{
    let mut res = "{".to_string();
    res.append(listing_text(members).as_str());
    res.append("}");
    res
}

fn array_text(elements: &Vec<String>) -> (res: String)
    ensures
        res@ == array(text::views(elements@)),
{
    let mut res = "[".to_string();
    res.append(listing_text(elements).as_str());
    res.append("]");
    res
}

fn no_members() -> (res: Vec<String>)
    ensures
        text::views(res@) == Seq::<Text>::empty(),
{
    let res: Vec<String> = Vec::new();
    assert(text::views(res@) =~= Seq::empty());
    res
}

fn add_member(members: &mut Vec<String>, key: &str, value: &str)
    ensures
        text::views(final(members)@) == put(text::views(old(members)@), key@, value@),
{
    let mut member = outside::quote_json(key);
    member.append(":");
    member.append(value);
    let ghost m = member@;
    members.push(member);
    assert(text::views(members@) =~= text::views(old(members)@).push(m));
}

fn add_member_opt(members: &mut Vec<String>, key: &str, value: Option<String>)
    ensures
        text::views(final(members)@) == put_opt(
            text::views(old(members)@),
            key@,
            text::view_opt(value),
        ),
{
    match value {
        Some(v) => add_member(members, key, v.as_str()),
        None => (),
    }
}

fn quote_opt(s: &Option<String>) -> (res: Option<String>)
    ensures
        text::view_opt(res) == string_opt(text::view_opt(*s)),
{
    match s {
        Some(t) => Some(outside::quote_json(t.as_str())),
        None => None,
    }
}

fn number_text(n: Option<i64>) -> (res: Option<String>)
    ensures
        text::view_opt(res) == number_opt(n),
{
    match n {
        Some(i) => Some(text::signed_decimal_text(i)),
        None => None,
    }
}

fn string_array_text(s: &Vec<String>) -> (res: String)
    ensures
        res@ == string_array(text::views(s@)),
{
    let mut items: Vec<String> = no_members();
    let mut i: usize = 0;
    while i < s.len()
        invariant
            i <= s@.len(),
            text::views(items@) == Seq::new(
                i as nat,
                |j: int| outside::json_string(text::views(s@)[j]),
            ),
        decreases s@.len() - i,
    {
        let ghost before = text::views(items@);
        let item = outside::quote_json(s[i].as_str());
        items.push(item);
        assert(text::views(items@) =~= before.push(item@));
        i = i + 1;
        assert(text::views(items@) =~= Seq::new(
            i as nat,
            |j: int| outside::json_string(text::views(s@)[j]),
        ));
    }
    array_text(&items)
}

/// The JSON form of a strategy.
pub open spec fn strategy_json(s: SyncStrategy) -> Text {
    match s {
        SyncStrategy::Apply => outside::json_string("apply"@),
        SyncStrategy::Replace => outside::json_string("replace"@),
    }
}

impl SyncStrategy {
    /// The JSON form.
    pub fn to_json(&self) -> (res: String)
        ensures
            res@ == strategy_json(*self),
    {
        match self {
            SyncStrategy::Apply => outside::quote_json("apply"),
            SyncStrategy::Replace => outside::quote_json("replace"),
        }
    }
}

/// The JSON form of an optional strategy.
pub open spec fn strategy_json_opt(s: Option<SyncStrategy>) -> Option<Text> {
    match s {
        Some(s) => Some(strategy_json(s)),
        None => None,
    }
}

fn strategy_text(s: Option<SyncStrategy>) -> (res: Option<String>)
    ensures
        text::view_opt(res) == strategy_json_opt(s),
{
    match s {
        Some(s) => Some(s.to_json()),
        None => None,
    }
}

/// The JSON form of a reference to a source object.
pub open spec fn source_json(s: api::SourceObjectView) -> Text {
    let m = put(Seq::empty(), "group"@, outside::json_string(s.group));
    let m = put_opt(m, "version"@, string_opt(s.version));
    let m = put(m, "kind"@, outside::json_string(s.kind));
    let m = put(m, "name"@, outside::json_string(s.name));
    let m = put_opt(m, "namespace"@, string_opt(s.namespace));
    object(m)
}

impl SourceObject {
    /// The JSON form.
    pub fn to_json(&self) -> (res: String)
        ensures
            res@ == source_json(self@),
    {
        let mut m = no_members();
        add_member(&mut m, "group", outside::quote_json(self.group.as_str()).as_str());
        add_member_opt(&mut m, "version", quote_opt(&self.version));
        add_member(&mut m, "kind", outside::quote_json(self.kind.as_str()).as_str());
        add_member(&mut m, "name", outside::quote_json(self.name.as_str()).as_str());
        add_member_opt(&mut m, "namespace", quote_opt(&self.namespace));
        object_text(&m)
    }
}

/// The JSON form of a destination.
pub open spec fn destination_json(d: api::DestinationView) -> Text {
    let m = put_opt(Seq::empty(), "name"@, string_opt(d.name));
    let m = put(m, "namespace"@, outside::json_string(d.namespace));
    let m = put_opt(m, "strategy"@, strategy_json_opt(d.strategy));
    object(m)
}

impl Destination {
    /// The JSON form.
    pub fn to_json(&self) -> (res: String)
        ensures
            res@ == destination_json(self@),
    {
        let mut m = no_members();
        add_member_opt(&mut m, "name", quote_opt(&self.name));
        add_member(&mut m, "namespace", outside::quote_json(self.namespace.as_str()).as_str());
        add_member_opt(&mut m, "strategy", strategy_text(self.strategy));
        object_text(&m)
    }
}

/// The JSON form of the desired synchronization.
pub open spec fn spec_json(s: api::ObjectSyncSpecView) -> Text {
    let m = put(Seq::empty(), "source"@, source_json(s.source));
    let m = put(
        m,
        "destinations"@,
        array(Seq::new(s.destinations.len(), |i: int| destination_json(s.destinations[i]))),
    );
    object(m)
}

impl ObjectSyncSpec {
    /// The JSON form.
    pub fn to_json(&self) -> (res: String)
        ensures
            res@ == spec_json(self@),
    {
        let mut items: Vec<String> = no_members();
        let mut i: usize = 0;
        while i < self.destinations.len()
            invariant
                i <= self.destinations@.len(),
                text::views(items@) == Seq::new(
                    i as nat,
                    |j: int| destination_json(self@.destinations[j]),
                ),
            decreases self.destinations@.len() - i,
        {
            let ghost before = text::views(items@);
            let item = self.destinations[i].to_json();
            items.push(item);
            assert(text::views(items@) =~= before.push(item@));
            i = i + 1;
            assert(text::views(items@) =~= Seq::new(
                i as nat,
                |j: int| destination_json(self@.destinations[j]),
            ));
        }
        let mut m = no_members();
        add_member(&mut m, "source", self.source.to_json().as_str());
        add_member(&mut m, "destinations", array_text(&items).as_str());
        object_text(&m)
    }
}

/// The JSON form of a revision.
pub open spec fn revision_json(r: api::ObjectRevisionView) -> Text {
    let m = put_opt(Seq::empty(), "uid"@, string_opt(r.uid));
    let m = put_opt(m, "resource_version"@, string_opt(r.resource_version));
    object(m)
}

/// The JSON form of an optional revision.
pub open spec fn revision_json_opt(r: Option<api::ObjectRevisionView>) -> Option<Text> {
    match r {
        Some(r) => Some(revision_json(r)),
        None => None,
    }
}

impl ObjectRevision {
    /// The JSON form.
    pub fn to_json(&self) -> (res: String)
        ensures
            res@ == revision_json(self@),
    {
        let mut m = no_members();
        add_member_opt(&mut m, "uid", quote_opt(&self.uid));
        add_member_opt(&mut m, "resource_version", quote_opt(&self.resource_version));
        object_text(&m)
    }
}

fn revision_text(r: &Option<ObjectRevision>) -> (res: Option<String>)
    ensures
        text::view_opt(res) == revision_json_opt(text::view_opt(*r)),
{
    match r {
        Some(r) => Some(r.to_json()),
        None => None,
    }
}

/// The JSON form of a tracked destination.
pub open spec fn destination_status_json(d: api::DestinationStatusView) -> Text {
    let m = put(Seq::empty(), "name"@, outside::json_string(d.name));
    let m = put(m, "namespace"@, outside::json_string(d.namespace));
    let m = put(m, "group"@, outside::json_string(d.group));
    let m = put(m, "version"@, outside::json_string(d.version));
    let m = put(m, "kind"@, outside::json_string(d.kind));
    let m = put_opt(m, "sourceVersion"@, revision_json_opt(d.source_version));
    let m = put_opt(m, "syncedVersion"@, revision_json_opt(d.synced_version));
    let m = put_opt(m, "strategy"@, strategy_json_opt(d.strategy));
    object(m)
}

impl DestinationStatus {
    /// The JSON form.
    pub fn to_json(&self) -> (res: String)
        ensures
            res@ == destination_status_json(self@),
    {
        let mut m = no_members();
        add_member(&mut m, "name", outside::quote_json(self.name.as_str()).as_str());
        add_member(&mut m, "namespace", outside::quote_json(self.namespace.as_str()).as_str());
        add_member(&mut m, "group", outside::quote_json(self.group.as_str()).as_str());
        add_member(&mut m, "version", outside::quote_json(self.version.as_str()).as_str());
        add_member(&mut m, "kind", outside::quote_json(self.kind.as_str()).as_str());
        add_member_opt(&mut m, "sourceVersion", revision_text(&self.source_version));
        add_member_opt(&mut m, "syncedVersion", revision_text(&self.synced_version));
        add_member_opt(&mut m, "strategy", strategy_text(self.strategy));
        object_text(&m)
    }
}

/// The JSON form of a condition.
pub open spec fn condition_json(c: api::ConditionView) -> Text {
    let m = put_opt(Seq::empty(), "lastTransitionTime"@, string_opt(c.last_transition_time));
    let m = put(m, "message"@, outside::json_string(c.message));
    let m = put_opt(m, "observedGeneration"@, number_opt(c.observed_generation));
    let m = put(m, "reason"@, outside::json_string(c.reason));
    let m = put(m, "status"@, outside::json_string(c.status));
    let m = put(m, "type"@, outside::json_string(c.type_));
    object(m)
}

impl Condition {
    /// The JSON form.
    pub fn to_json(&self) -> (res: String)
        ensures
            res@ == condition_json(self@),
    {
        let mut m = no_members();
        add_member_opt(&mut m, "lastTransitionTime", quote_opt(&self.last_transition_time));
        add_member(&mut m, "message", outside::quote_json(self.message.as_str()).as_str());
        add_member_opt(&mut m, "observedGeneration", number_text(self.observed_generation));
        add_member(&mut m, "reason", outside::quote_json(self.reason.as_str()).as_str());
        add_member(&mut m, "status", outside::quote_json(self.status.as_str()).as_str());
        add_member(&mut m, "type", outside::quote_json(self.type_.as_str()).as_str());
        object_text(&m)
    }
}

/// The JSON form of what is known of a synchronization.
pub open spec fn status_json(s: api::ObjectSyncStatusView) -> Text {
    let m = put_opt(
        Seq::empty(),
        "conditions"@,
        match s.conditions {
            Some(c) => Some(array(Seq::new(c.len(), |i: int| condition_json(c[i])))),
            None => None,
        },
    );
    let m = put_opt(
        m,
        "destinations"@,
        match s.destinations {
            Some(d) => Some(array(Seq::new(d.len(), |i: int| destination_status_json(d[i])))),
            None => None,
        },
    );
    object(m)
}

/// The JSON form of a status that may be absent.
pub open spec fn status_json_or_null(s: Option<api::ObjectSyncStatusView>) -> Text {
    match s {
        Some(s) => status_json(s),
        None => "null"@,
    }
}

fn conditions_text(c: &Vec<Condition>) -> (res: String)
    ensures
        res@ == array(
            Seq::new(c@.len(), |i: int| condition_json(text::views(c@)[i])),
        ),
{
    let mut items: Vec<String> = no_members();
    let mut i: usize = 0;
    while i < c.len()
        invariant
            i <= c@.len(),
            text::views(items@) == Seq::new(i as nat, |j: int| condition_json(text::views(c@)[j])),
        decreases c@.len() - i,
    {
        let ghost before = text::views(items@);
        let item = c[i].to_json();
        items.push(item);
        assert(text::views(items@) =~= before.push(item@));
        i = i + 1;
        assert(text::views(items@) =~= Seq::new(
            i as nat,
            |j: int| condition_json(text::views(c@)[j]),
        ));
    }
    array_text(&items)
}

fn destination_statuses_text(d: &Vec<DestinationStatus>) -> (res: String)
    ensures
        res@ == array(
            Seq::new(d@.len(), |i: int| destination_status_json(text::views(d@)[i])),
        ),
{
    let mut items: Vec<String> = no_members();
    let mut i: usize = 0;
    while i < d.len()
        invariant
            i <= d@.len(),
            text::views(items@) == Seq::new(
                i as nat,
                |j: int| destination_status_json(text::views(d@)[j]),
            ),
        decreases d@.len() - i,
    {
        let ghost before = text::views(items@);
        let item = d[i].to_json();
        items.push(item);
        assert(text::views(items@) =~= before.push(item@));
        i = i + 1;
        assert(text::views(items@) =~= Seq::new(
            i as nat,
            |j: int| destination_status_json(text::views(d@)[j]),
        ));
    }
    array_text(&items)
}

impl ObjectSyncStatus {
    /// The JSON form.
    pub fn to_json(&self) -> (res: String)
        ensures
            res@ == status_json(self@),
    {
        let conditions: Option<String> = match &self.conditions {
            Some(c) => Some(conditions_text(c)),
            None => None,
        };
        let destinations: Option<String> = match &self.destinations {
            Some(d) => Some(destination_statuses_text(d)),
            None => None,
        };
        let mut m = no_members();
        add_member_opt(&mut m, "conditions", conditions);
        add_member_opt(&mut m, "destinations", destinations);
        object_text(&m)
    }
}

/// The JSON form of a status that may be absent.
pub fn status_to_json(status: &Option<ObjectSyncStatus>) -> (res: String)
    ensures
        res@ == status_json_or_null(text::view_opt(*status)),
{
    match status {
        Some(s) => s.to_json(),
        None => "null".to_string(),
    }
}

/// The members that stand for pairs of a key and JSON text.
pub open spec fn raw_members(members: Seq<Text>, pairs: Seq<(Text, Text)>) -> Seq<Text>
    decreases pairs.len(),
{
    if pairs.len() == 0 {
        members
    } else {
        put(raw_members(members, pairs.drop_last()), pairs.last().0, pairs.last().1)
    }
}

/// The members that stand for pairs of a key and a text.
pub open spec fn text_members(members: Seq<Text>, pairs: Seq<(Text, Text)>) -> Seq<Text>
    decreases pairs.len(),
{
    if pairs.len() == 0 {
        members
    } else {
        put(
            text_members(members, pairs.drop_last()),
            pairs.last().0,
            outside::json_string(pairs.last().1),
        )
    }
}

/// The JSON form of optional labels or annotations.
pub open spec fn map_json_opt(pairs: Option<Seq<(Text, Text)>>) -> Option<Text> {
    match pairs {
        Some(p) => Some(object(text_members(Seq::empty(), p))),
        None => None,
    }
}

fn map_text(map: &Option<meta::StringMap>) -> (res: Option<String>)
    ensures
        text::view_opt(res) == map_json_opt(text::view_opt(*map)),
{
    match map {
        Some(map) => {
            let mut m = no_members();
            let entries = map.entries();
            let mut i: usize = 0;
            assert(map@.take(0) =~= Seq::empty());
            while i < entries.len()
                invariant
                    i <= entries@.len(),
                    map@ == text::views(entries@),
                    text::views(m@) == text_members(Seq::empty(), map@.take(i as int)),
                decreases entries@.len() - i,
            {
                assert(map@.take(i + 1).drop_last() =~= map@.take(i as int));
                assert(map@.take(i + 1).last() == entries@[i as int]@);
                let value = outside::quote_json(entries[i].value.as_str());
                add_member(&mut m, entries[i].key.as_str(), value.as_str());
                i = i + 1;
            }
            assert(map@.take(i as int) =~= map@);
            Some(object_text(&m))
        },
        None => None,
    }
}

/// The JSON form of an optional list of texts.
pub open spec fn string_array_opt(s: Option<Seq<Text>>) -> Option<Text> {
    match s {
        Some(s) => Some(string_array(s)),
        None => None,
    }
}

/// The JSON form of an optional list of JSON texts.
pub open spec fn array_opt(s: Option<Seq<Text>>) -> Option<Text> {
    match s {
        Some(s) => Some(array(s)),
        None => None,
    }
}

fn string_list_text(s: &Option<Vec<String>>) -> (res: Option<String>)
    ensures
        text::view_opt(res) == string_array_opt(text::view_opt_vec(*s)),
{
    match s {
        Some(s) => Some(string_array_text(s)),
        None => None,
    }
}

fn list_text(s: &Option<Vec<String>>) -> (res: Option<String>)
    ensures
        text::view_opt(res) == array_opt(text::view_opt_vec(*s)),
{
    match s {
        Some(s) => Some(array_text(s)),
        None => None,
    }
}

/// The JSON form of metadata.
pub open spec fn metadata_json(o: meta::ObjectMetaView) -> Text {
    let m = put_opt(Seq::empty(), "annotations"@, map_json_opt(o.annotations));
    let m = put_opt(m, "creationTimestamp"@, string_opt(o.creation_timestamp));
    let m = put_opt(m, "deletionGracePeriodSeconds"@, number_opt(o.deletion_grace_period_seconds));
    let m = put_opt(m, "deletionTimestamp"@, string_opt(o.deletion_timestamp));
    let m = put_opt(m, "finalizers"@, string_array_opt(o.finalizers));
    let m = put_opt(m, "generateName"@, string_opt(o.generate_name));
    let m = put_opt(m, "generation"@, number_opt(o.generation));
    let m = put_opt(m, "labels"@, map_json_opt(o.labels));
    let m = put_opt(m, "managedFields"@, array_opt(o.managed_fields));
    let m = put_opt(m, "name"@, string_opt(o.name));
    let m = put_opt(m, "namespace"@, string_opt(o.namespace));
    let m = put_opt(m, "ownerReferences"@, array_opt(o.owner_references));
    let m = put_opt(m, "resourceVersion"@, string_opt(o.resource_version));
    let m = put_opt(m, "selfLink"@, string_opt(o.self_link));
    let m = put_opt(m, "uid"@, string_opt(o.uid));
    object(m)
}

impl ObjectMeta {
    /// The JSON form.
    pub fn to_json(&self) -> (res: String)
        ensures
            res@ == metadata_json(self@),
    {
        let mut m = no_members();
        add_member_opt(&mut m, "annotations", map_text(&self.annotations));
        add_member_opt(&mut m, "creationTimestamp", quote_opt(&self.creation_timestamp));
        add_member_opt(
            &mut m,
            "deletionGracePeriodSeconds",
            number_text(self.deletion_grace_period_seconds),
        );
        add_member_opt(&mut m, "deletionTimestamp", quote_opt(&self.deletion_timestamp));
        add_member_opt(&mut m, "finalizers", string_list_text(&self.finalizers));
        add_member_opt(&mut m, "generateName", quote_opt(&self.generate_name));
        add_member_opt(&mut m, "generation", number_text(self.generation));
        add_member_opt(&mut m, "labels", map_text(&self.labels));
        add_member_opt(&mut m, "managedFields", list_text(&self.managed_fields));
        add_member_opt(&mut m, "name", quote_opt(&self.name));
        add_member_opt(&mut m, "namespace", quote_opt(&self.namespace));
        add_member_opt(&mut m, "ownerReferences", list_text(&self.owner_references));
        add_member_opt(&mut m, "resourceVersion", quote_opt(&self.resource_version));
        add_member_opt(&mut m, "selfLink", quote_opt(&self.self_link));
        add_member_opt(&mut m, "uid", quote_opt(&self.uid));
        object_text(&m)
    }
}

/// The JSON form of an [`ObjectSync`].
pub open spec fn object_sync_json(o: api::ObjectSyncView) -> Text {
    let m = put(Seq::empty(), "apiVersion"@, outside::json_string(API_VERSION@));
    let m = put(m, "kind"@, outside::json_string(KIND@));
    let m = put(m, "metadata"@, metadata_json(o.metadata));
    let m = put(m, "spec"@, spec_json(o.spec));
    let m = put_opt(
        m,
        "status"@,
        match o.status {
            Some(s) => Some(status_json(s)),
            None => None,
        },
    );
    object(m)
}

impl ObjectSync {
    /// The JSON form.
    pub fn to_json(&self) -> (res: String)
        ensures
            res@ == object_sync_json(self@),
    {
        let status: Option<String> = match &self.status {
            Some(s) => Some(s.to_json()),
            None => None,
        };
        let mut m = no_members();
        add_member(&mut m, "apiVersion", outside::quote_json(API_VERSION).as_str());
        add_member(&mut m, "kind", outside::quote_json(KIND).as_str());
        add_member(&mut m, "metadata", self.metadata.to_json().as_str());
        add_member(&mut m, "spec", self.spec.to_json().as_str());
        add_member_opt(&mut m, "status", status);
        object_text(&m)
    }
}

/// The JSON form of an object of any kind.
pub open spec fn dynamic_object_json(o: meta::DynamicObjectView) -> Text {
    let m = put_opt(
        Seq::empty(),
        "apiVersion"@,
        match o.types {
            Some(t) => Some(outside::json_string(t.api_version)),
            None => None,
        },
    );
    let m = put_opt(
        m,
        "kind"@,
        match o.types {
            Some(t) => Some(outside::json_string(t.kind)),
            None => None,
        },
    );
    let m = put(m, "metadata"@, metadata_json(o.metadata));
    object(raw_members(m, o.data))
}

fn add_raw_members(m: &mut Vec<String>, data: &Vec<Entry>)
    ensures
        text::views(final(m)@) == raw_members(text::views(old(m)@), text::views(data@)),
{
    let ghost all = text::views(data@);
    let mut i: usize = 0;
    assert(all.take(0) =~= Seq::empty());
    while i < data.len()
        invariant
            i <= data@.len(),
            all == text::views(data@),
            text::views(m@) == raw_members(text::views(old(m)@), all.take(i as int)),
        decreases data@.len() - i,
    {
        assert(all.take(i + 1).drop_last() =~= all.take(i as int));
        assert(all.take(i + 1).last() == data@[i as int]@);
        add_member(m, data[i].key.as_str(), data[i].value.as_str());
        i = i + 1;
    }
    assert(all.take(i as int) =~= all);
}

impl DynamicObject {
    /// The JSON form.
    pub fn to_json(&self) -> (res: String)
        ensures
            res@ == dynamic_object_json(self@),
    {
        let mut m = no_members();
        match &self.types {
            Some(t) => {
                add_member(&mut m, "apiVersion", outside::quote_json(t.api_version.as_str()).as_str());
                add_member(&mut m, "kind", outside::quote_json(t.kind.as_str()).as_str());
            },
            None => (),
        }
        add_member(&mut m, "metadata", self.metadata.to_json().as_str());
        add_raw_members(&mut m, &self.data);
        object_text(&m)
    }
}

/// Whether the texts are members of a JSON object, with values that are nested at
/// most `depth` deep.
#[verifier::opaque]
pub open spec fn are_members(members: Seq<Text>, depth: nat) -> bool {
    forall|k: int| 0 <= k < members.len() ==> outside::is_json_member(#[trigger] members[k], depth)
}

/// How the members of an object are put together, and what the values of single
/// members are.
proof fn lemma_members(depth: nat)
    ensures
        are_members(Seq::empty(), depth),
        forall|members: Seq<Text>, key: Text, value: Text|
            #![trigger are_members(put(members, key, value), depth)]
            are_members(members, depth) && outside::is_json(value, depth) ==> are_members(
                put(members, key, value),
                depth,
            ),
        forall|members: Seq<Text>, key: Text, value: Option<Text>|
            #![trigger are_members(put_opt(members, key, value), depth)]
            are_members(members, depth) && (value matches Some(v) ==> outside::is_json(v, depth))
                ==> are_members(put_opt(members, key, value), depth),
        forall|t: Text| #[trigger] outside::is_json(outside::json_string(t), depth),
        forall|t: Option<Text>|
            (#[trigger] string_opt(t)) matches Some(v) ==> outside::is_json(v, depth),
        forall|n: Option<i64>|
            (#[trigger] number_opt(n)) matches Some(v) ==> outside::is_json(v, depth),
        forall|s: Option<SyncStrategy>|
            (#[trigger] strategy_json_opt(s)) matches Some(v) ==> outside::is_json(v, depth),
{
    reveal(are_members);
    assert forall|members: Seq<Text>, key: Text, value: Text|
        #![trigger are_members(put(members, key, value), depth)]
        are_members(members, depth) && outside::is_json(value, depth) implies are_members(
        put(members, key, value),
        depth,
    ) by {
        lemma_put(members, key, value, depth);
    }
    assert forall|members: Seq<Text>, key: Text, value: Option<Text>|
        #![trigger are_members(put_opt(members, key, value), depth)]
        are_members(members, depth) && (value matches Some(v) ==> outside::is_json(
            v,
            depth,
        )) implies are_members(put_opt(members, key, value), depth) by {
        if let Some(v) = value {
            lemma_put(members, key, v, depth);
        }
    }
}

proof fn lemma_put(members: Seq<Text>, key: Text, value: Text, depth: nat)
    requires
        are_members(members, depth),
        outside::is_json(value, depth),
    ensures
        are_members(put(members, key, value), depth),
{
    reveal(are_members);
    let after = put(members, key, value);
    assert forall|k: int| 0 <= k < after.len() implies outside::is_json_member(
        #[trigger] after[k],
        depth,
    ) by {
        if k < members.len() {
            assert(after[k] == members[k]);
        } else {
            assert(after[k] == outside::json_member(key, value));
        }
    }
}

proof fn lemma_object(members: Seq<Text>, depth: nat)
    requires
        depth > 0,
        are_members(members, (depth - 1) as nat),
    ensures
        outside::is_json(object(members), depth),
{
    reveal(are_members);
}

proof fn lemma_array(elements: Seq<Text>, depth: nat)
    requires
        depth > 0,
        forall|k: int|
            0 <= k < elements.len() ==> outside::is_json(
                #[trigger] elements[k],
                (depth - 1) as nat,
            ),
    ensures
        outside::is_json(array(elements), depth),
{
}

proof fn lemma_revision_is_json(r: Option<api::ObjectRevisionView>, depth: nat)
    requires
        depth >= 1,
    ensures
        revision_json_opt(r) matches Some(v) ==> outside::is_json(v, depth),
{
    let d = (depth - 1) as nat;
    lemma_members(d);
    if let Some(r) = r {
        let m = put_opt(Seq::empty(), "uid"@, string_opt(r.uid));
        let m = put_opt(m, "resource_version"@, string_opt(r.resource_version));
        lemma_object(m, depth);
    }
}

proof fn lemma_destination_status_is_json(d: api::DestinationStatusView, depth: nat)
    requires
        depth >= 2,
    ensures
        outside::is_json(destination_status_json(d), depth),
{
    let inner = (depth - 1) as nat;
    lemma_members(inner);
    lemma_revision_is_json(d.source_version, inner);
    lemma_revision_is_json(d.synced_version, inner);
    let m = put(Seq::empty(), "name"@, outside::json_string(d.name));
    let m = put(m, "namespace"@, outside::json_string(d.namespace));
    let m = put(m, "group"@, outside::json_string(d.group));
    let m = put(m, "version"@, outside::json_string(d.version));
    let m = put(m, "kind"@, outside::json_string(d.kind));
    let m = put_opt(m, "sourceVersion"@, revision_json_opt(d.source_version));
    let m = put_opt(m, "syncedVersion"@, revision_json_opt(d.synced_version));
    let m = put_opt(m, "strategy"@, strategy_json_opt(d.strategy));
    lemma_object(m, depth);
}

proof fn lemma_condition_is_json(c: api::ConditionView, depth: nat)
    requires
        depth >= 1,
    ensures
        outside::is_json(condition_json(c), depth),
{
    lemma_members((depth - 1) as nat);
    let m = put_opt(Seq::empty(), "lastTransitionTime"@, string_opt(c.last_transition_time));
    let m = put(m, "message"@, outside::json_string(c.message));
    let m = put_opt(m, "observedGeneration"@, number_opt(c.observed_generation));
    let m = put(m, "reason"@, outside::json_string(c.reason));
    let m = put(m, "status"@, outside::json_string(c.status));
    let m = put(m, "type"@, outside::json_string(c.type_));
    lemma_object(m, depth);
}

proof fn lemma_status_is_json(s: api::ObjectSyncStatusView, depth: nat)
    requires
        depth >= 4,
    ensures
        outside::is_json(status_json(s), depth),
{
    let d = (depth - 1) as nat;
    lemma_members(d);
    if let Some(c) = s.conditions {
        let elements = Seq::new(c.len(), |i: int| condition_json(c[i]));
        assert forall|k: int| 0 <= k < elements.len() implies outside::is_json(
            #[trigger] elements[k],
            (d - 1) as nat,
        ) by {
            lemma_condition_is_json(c[k], (d - 1) as nat);
        }
        lemma_array(elements, d);
    }
    if let Some(t) = s.destinations {
        let elements = Seq::new(t.len(), |i: int| destination_status_json(t[i]));
        assert forall|k: int| 0 <= k < elements.len() implies outside::is_json(
            #[trigger] elements[k],
            (d - 1) as nat,
        ) by {
            lemma_destination_status_is_json(t[k], (d - 1) as nat);
        }
        lemma_array(elements, d);
    }
    let m = put_opt(
        Seq::empty(),
        "conditions"@,
        match s.conditions {
            Some(c) => Some(array(Seq::new(c.len(), |i: int| condition_json(c[i])))),
            None => None,
        },
    );
    let m = put_opt(
        m,
        "destinations"@,
        match s.destinations {
            Some(d) => Some(array(Seq::new(d.len(), |i: int| destination_status_json(d[i])))),
            None => None,
        },
    );
    assert(are_members(m, d));
    lemma_object(m, depth);
}

/// The JSON form of a status is a JSON value, whatever the status holds.
pub proof fn law_status_is_json(status: Option<api::ObjectSyncStatusView>)
    ensures
        outside::is_json(status_json_or_null(status), outside::json_depth()),
{
    if let Some(s) = status {
        lemma_status_is_json(s, outside::json_depth());
    }
}

/// Whether the texts are JSON values nested at most `depth` deep.
pub open spec fn all_json(texts: Seq<Text>, depth: nat) -> bool {
    forall|k: int| 0 <= k < texts.len() ==> outside::is_json(#[trigger] texts[k], depth)
}

/// Whether the parts of metadata that are held as JSON text are JSON values.
pub open spec fn metadata_parts_are_json(o: meta::ObjectMetaView) -> bool {
    let depth = (outside::json_depth() - 3) as nat;
    &&& o.managed_fields matches Some(s) ==> all_json(s, depth)
    &&& o.owner_references matches Some(s) ==> all_json(s, depth)
}

/// Whether the parts of an object that are held as JSON text are JSON values.
pub open spec fn parts_are_json(o: meta::DynamicObjectView) -> bool {
    &&& metadata_parts_are_json(o.metadata)
    &&& forall|k: int|
        0 <= k < o.data.len() ==> outside::is_json(
            (#[trigger] o.data[k]).1,
            (outside::json_depth() - 1) as nat,
        )
}

proof fn lemma_text_members(pairs: Seq<(Text, Text)>, depth: nat)
    ensures
        are_members(text_members(Seq::empty(), pairs), depth),
    decreases pairs.len(),
{
    lemma_members(depth);
    if pairs.len() > 0 {
        lemma_text_members(pairs.drop_last(), depth);
        lemma_put(
            text_members(Seq::empty(), pairs.drop_last()),
            pairs.last().0,
            outside::json_string(pairs.last().1),
            depth,
        );
    }
}

proof fn lemma_raw_members(members: Seq<Text>, pairs: Seq<(Text, Text)>, depth: nat)
    requires
        are_members(members, depth),
        forall|k: int| 0 <= k < pairs.len() ==> outside::is_json((#[trigger] pairs[k]).1, depth),
    ensures
        are_members(raw_members(members, pairs), depth),
    decreases pairs.len(),
{
    if pairs.len() > 0 {
        let earlier = pairs.drop_last();
        assert forall|k: int| 0 <= k < earlier.len() implies outside::is_json(
            (#[trigger] earlier[k]).1,
            depth,
        ) by {
            assert(earlier[k] == pairs[k]);
        }
        lemma_raw_members(members, earlier, depth);
        lemma_put(raw_members(members, earlier), pairs.last().0, pairs.last().1, depth);
    }
}

proof fn lemma_map_is_json(pairs: Option<Seq<(Text, Text)>>, depth: nat)
    requires
        depth >= 1,
    ensures
        map_json_opt(pairs) matches Some(v) ==> outside::is_json(v, depth),
{
    if let Some(p) = pairs {
        lemma_text_members(p, (depth - 1) as nat);
        lemma_object(text_members(Seq::empty(), p), depth);
    }
}

proof fn lemma_string_array_is_json(s: Option<Seq<Text>>, depth: nat)
    requires
        depth >= 1,
    ensures
        string_array_opt(s) matches Some(v) ==> outside::is_json(v, depth),
{
    if let Some(s) = s {
        lemma_members((depth - 1) as nat);
        lemma_array(Seq::new(s.len(), |i: int| outside::json_string(s[i])), depth);
    }
}

proof fn lemma_array_opt_is_json(s: Option<Seq<Text>>, depth: nat)
    requires
        depth >= 1,
        s matches Some(texts) ==> all_json(texts, (depth - 1) as nat),
    ensures
        array_opt(s) matches Some(v) ==> outside::is_json(v, depth),
{
    if let Some(s) = s {
        lemma_array(s, depth);
    }
}

proof fn lemma_metadata_is_json(o: meta::ObjectMetaView)
    requires
        metadata_parts_are_json(o),
    ensures
        outside::is_json(metadata_json(o), (outside::json_depth() - 1) as nat),
{
    let depth = (outside::json_depth() - 1) as nat;
    let d = (depth - 1) as nat;
    lemma_members(d);
    lemma_map_is_json(o.annotations, d);
    lemma_map_is_json(o.labels, d);
    lemma_string_array_is_json(o.finalizers, d);
    lemma_array_opt_is_json(o.managed_fields, d);
    lemma_array_opt_is_json(o.owner_references, d);
    let m = put_opt(Seq::empty(), "annotations"@, map_json_opt(o.annotations));
    let m = put_opt(m, "creationTimestamp"@, string_opt(o.creation_timestamp));
    let m = put_opt(m, "deletionGracePeriodSeconds"@, number_opt(o.deletion_grace_period_seconds));
    let m = put_opt(m, "deletionTimestamp"@, string_opt(o.deletion_timestamp));
    let m = put_opt(m, "finalizers"@, string_array_opt(o.finalizers));
    let m = put_opt(m, "generateName"@, string_opt(o.generate_name));
    let m = put_opt(m, "generation"@, number_opt(o.generation));
    assert(are_members(m, d));
    let m = put_opt(m, "labels"@, map_json_opt(o.labels));
    let m = put_opt(m, "managedFields"@, array_opt(o.managed_fields));
    let m = put_opt(m, "name"@, string_opt(o.name));
    let m = put_opt(m, "namespace"@, string_opt(o.namespace));
    assert(are_members(m, d));
    let m = put_opt(m, "ownerReferences"@, array_opt(o.owner_references));
    let m = put_opt(m, "resourceVersion"@, string_opt(o.resource_version));
    let m = put_opt(m, "selfLink"@, string_opt(o.self_link));
    let m = put_opt(m, "uid"@, string_opt(o.uid));
    lemma_object(m, depth);
}

proof fn lemma_source_is_json(s: api::SourceObjectView, depth: nat)
    requires
        depth >= 1,
    ensures
        outside::is_json(source_json(s), depth),
{
    lemma_members((depth - 1) as nat);
    let m = put(Seq::empty(), "group"@, outside::json_string(s.group));
    let m = put_opt(m, "version"@, string_opt(s.version));
    let m = put(m, "kind"@, outside::json_string(s.kind));
    let m = put(m, "name"@, outside::json_string(s.name));
    let m = put_opt(m, "namespace"@, string_opt(s.namespace));
    lemma_object(m, depth);
}

proof fn lemma_destination_is_json(d: api::DestinationView, depth: nat)
    requires
        depth >= 1,
    ensures
        outside::is_json(destination_json(d), depth),
{
    lemma_members((depth - 1) as nat);
    let m = put_opt(Seq::empty(), "name"@, string_opt(d.name));
    let m = put(m, "namespace"@, outside::json_string(d.namespace));
    let m = put_opt(m, "strategy"@, strategy_json_opt(d.strategy));
    lemma_object(m, depth);
}

proof fn lemma_spec_is_json(s: api::ObjectSyncSpecView, depth: nat)
    requires
        depth >= 3,
    ensures
        outside::is_json(spec_json(s), depth),
{
    let d = (depth - 1) as nat;
    lemma_members(d);
    lemma_source_is_json(s.source, d);
    let elements = Seq::new(s.destinations.len(), |i: int| destination_json(s.destinations[i]));
    assert forall|k: int| 0 <= k < elements.len() implies outside::is_json(
        #[trigger] elements[k],
        (d - 1) as nat,
    ) by {
        lemma_destination_is_json(s.destinations[k], (d - 1) as nat);
    }
    lemma_array(elements, d);
    let m = put(Seq::empty(), "source"@, source_json(s.source));
    let m = put(m, "destinations"@, array(elements));
    lemma_object(m, depth);
}

/// The JSON form of an [`ObjectSync`] is a JSON value, as long as the parts that
/// are held as JSON text are.
pub proof fn law_object_sync_is_json(o: api::ObjectSyncView)
    requires
        metadata_parts_are_json(o.metadata),
    ensures
        outside::is_json(object_sync_json(o), outside::json_depth()),
{
    let depth = outside::json_depth();
    let d = (depth - 1) as nat;
    lemma_members(d);
    lemma_metadata_is_json(o.metadata);
    lemma_spec_is_json(o.spec, d);
    let m = put(Seq::empty(), "apiVersion"@, outside::json_string(API_VERSION@));
    let m = put(m, "kind"@, outside::json_string(KIND@));
    let m = put(m, "metadata"@, metadata_json(o.metadata));
    let m = put(m, "spec"@, spec_json(o.spec));
    if let Some(s) = o.status {
        lemma_status_is_json(s, d);
    }
    let m = put_opt(
        m,
        "status"@,
        match o.status {
            Some(s) => Some(status_json(s)),
            None => None,
        },
    );
    assert(are_members(m, d));
    lemma_object(m, depth);
}

/// The JSON form of an object of any kind is a JSON value, as long as the parts
/// that are held as JSON text are.
pub proof fn law_dynamic_object_is_json(o: meta::DynamicObjectView)
    requires
        parts_are_json(o),
    ensures
        outside::is_json(dynamic_object_json(o), outside::json_depth()),
{
    let depth = outside::json_depth();
    let d = (depth - 1) as nat;
    lemma_members(d);
    lemma_metadata_is_json(o.metadata);
    let m = put_opt(
        Seq::empty(),
        "apiVersion"@,
        match o.types {
            Some(t) => Some(outside::json_string(t.api_version)),
            None => None,
        },
    );
    let m = put_opt(
        m,
        "kind"@,
        match o.types {
            Some(t) => Some(outside::json_string(t.kind)),
            None => None,
        },
    );
    let m = put(m, "metadata"@, metadata_json(o.metadata));
    assert(are_members(m, d));
    lemma_raw_members(m, o.data, d);
    lemma_object(raw_members(m, o.data), depth);
}

/// Whether `x` is the member of a JSON object under this key, with this value.
pub open spec fn is_member(x: Text, key: Text, value: Text) -> bool {
    x == outside::json_string(key) + seq![':'] + value
}

/// Whether the text is set, and `x` is the member under this key that holds it.
pub open spec fn is_text_member(x: Text, key: Text, value: Option<Text>) -> bool {
    match value {
        Some(v) => is_member(x, key, outside::json_string(v)),
        None => false,
    }
}

/// Whether the number is set, and `x` is the member under this key that holds it.
pub open spec fn is_number_member(x: Text, key: Text, value: Option<i64>) -> bool {
    match value {
        Some(n) => is_member(x, key, text::signed_decimal(n as int)),
        None => false,
    }
}

/// Whether the strategy is set, and `x` is the member under this key that holds its
/// name.
pub open spec fn is_strategy_member(x: Text, key: Text, value: Option<SyncStrategy>) -> bool {
    match value {
        Some(SyncStrategy::Apply) => is_member(x, key, outside::json_string("apply"@)),
        Some(SyncStrategy::Replace) => is_member(x, key, outside::json_string("replace"@)),
        None => false,
    }
}

/// Whether the revision is set, and `x` is the member under this key that holds it.
pub open spec fn is_revision_member(
    x: Text,
    key: Text,
    value: Option<api::ObjectRevisionView>,
) -> bool {
    match value {
        Some(r) => is_member(x, key, revision_json(r)),
        None => false,
    }
}

/// The JSON array of the elements.
pub open spec fn bracketed(elements: Seq<Text>) -> Text {
    seq!['['] + text::joined(elements, ',') + seq![']']
}

/// Whether `json` is a JSON object whose members are exactly those that `is_one`
/// tells.
pub open spec fn is_object_of(json: Text, is_one: spec_fn(Text) -> bool) -> bool {
    exists|members: Seq<Text>|
        json == seq!['{'] + #[trigger] text::joined(members, ',') + seq!['}'] && forall|x: Text| #[trigger]
            members.contains(x) <==> is_one(x)
}

proof fn lemma_listing(items: Seq<Text>)
    ensures
        listing(items) == text::joined(items, ','),
        object(items) == seq!['{'] + text::joined(items, ',') + seq!['}'],
        array(items) == bracketed(items),
    decreases items.len(),
{
    reveal_strlit("{");
    reveal_strlit("}");
    reveal_strlit("[");
    reveal_strlit("]");
    reveal_strlit(",");
    assert("{"@ =~= seq!['{'] && "}"@ =~= seq!['}'] && "["@ =~= seq!['['] && "]"@ =~= seq![']']
        && ","@ =~= seq![',']);
    if items.len() > 1 {
        lemma_listing(items.drop_last());
        assert(listing(items) =~= text::joined(items, ','));
    }
}

proof fn lemma_is_object_of(members: Seq<Text>, is_one: spec_fn(Text) -> bool)
    requires
        forall|x: Text| #[trigger] members.contains(x) <==> is_one(x),
    ensures
        is_object_of(object(members), is_one),
{
    lemma_listing(members);
}

proof fn lemma_put_contains(members: Seq<Text>, key: Text, value: Text, x: Text)
    ensures
        put(members, key, value).contains(x) <==> members.contains(x) || is_member(x, key, value),
{
    reveal_strlit(":");
    assert(":"@ =~= seq![':']);
    text::lemma_push_contains(members, outside::json_string(key) + ":"@ + value);
}

proof fn lemma_put_opt_contains(members: Seq<Text>, key: Text, value: Option<Text>, x: Text)
    ensures
        put_opt(members, key, value).contains(x) <==> members.contains(x) || (value matches Some(v)
            && is_member(x, key, v)),
{
    if let Some(v) = value {
        lemma_put_contains(members, key, v, x);
    }
}

/// The JSON form of a reference to a source: group, kind and name, and version and
/// namespace where they are set.
pub proof fn law_source_form(s: api::SourceObjectView)
    ensures
        is_object_of(
            source_json(s),
            |x: Text|
                is_text_member(x, "group"@, Some(s.group))
                    || is_text_member(x, "version"@, s.version)
                    || is_text_member(x, "kind"@, Some(s.kind))
                    || is_text_member(x, "name"@, Some(s.name))
                    || is_text_member(x, "namespace"@, s.namespace),
        ),
{
    let is_one = |x: Text|
        is_text_member(x, "group"@, Some(s.group))
            || is_text_member(x, "version"@, s.version)
            || is_text_member(x, "kind"@, Some(s.kind))
            || is_text_member(x, "name"@, Some(s.name))
            || is_text_member(x, "namespace"@, s.namespace);
    let m0 = Seq::<Text>::empty();
    let m1 = put(m0, "group"@, outside::json_string(s.group));
    let m2 = put_opt(m1, "version"@, string_opt(s.version));
    let m3 = put(m2, "kind"@, outside::json_string(s.kind));
    let m4 = put(m3, "name"@, outside::json_string(s.name));
    let m5 = put_opt(m4, "namespace"@, string_opt(s.namespace));
    assert forall|x: Text| #[trigger] m5.contains(x) <==> is_one(x) by {
        lemma_put_contains(m0, "group"@, outside::json_string(s.group), x);
        lemma_put_opt_contains(m1, "version"@, string_opt(s.version), x);
        lemma_put_contains(m2, "kind"@, outside::json_string(s.kind), x);
        lemma_put_contains(m3, "name"@, outside::json_string(s.name), x);
        lemma_put_opt_contains(m4, "namespace"@, string_opt(s.namespace), x);
    }
    lemma_is_object_of(m5, is_one);
}

/// The JSON form of a destination: the namespace, and name and strategy where they are
/// set.
pub proof fn law_destination_form(d: api::DestinationView)
    ensures
        is_object_of(
            destination_json(d),
            |x: Text|
                is_text_member(x, "name"@, d.name)
                    || is_text_member(x, "namespace"@, Some(d.namespace))
                    || is_strategy_member(x, "strategy"@, d.strategy),
        ),
{
    let is_one = |x: Text|
        is_text_member(x, "name"@, d.name)
            || is_text_member(x, "namespace"@, Some(d.namespace))
            || is_strategy_member(x, "strategy"@, d.strategy);
    let m0 = Seq::<Text>::empty();
    let m1 = put_opt(m0, "name"@, string_opt(d.name));
    let m2 = put(m1, "namespace"@, outside::json_string(d.namespace));
    let m3 = put_opt(m2, "strategy"@, strategy_json_opt(d.strategy));
    assert forall|x: Text| #[trigger] m3.contains(x) <==> is_one(x) by {
        lemma_put_opt_contains(m0, "name"@, string_opt(d.name), x);
        lemma_put_contains(m1, "namespace"@, outside::json_string(d.namespace), x);
        lemma_put_opt_contains(m2, "strategy"@, strategy_json_opt(d.strategy), x);
    }
    lemma_is_object_of(m3, is_one);
}

/// The JSON form of a revision: uid and version, where they are set.
pub proof fn law_revision_form(r: api::ObjectRevisionView)
    ensures
        is_object_of(
            revision_json(r),
            |x: Text|
                is_text_member(x, "uid"@, r.uid)
                    || is_text_member(x, "resource_version"@, r.resource_version),
        ),
{
    let is_one = |x: Text|
        is_text_member(x, "uid"@, r.uid)
            || is_text_member(x, "resource_version"@, r.resource_version);
    let m0 = Seq::<Text>::empty();
    let m1 = put_opt(m0, "uid"@, string_opt(r.uid));
    let m2 = put_opt(m1, "resource_version"@, string_opt(r.resource_version));
    assert forall|x: Text| #[trigger] m2.contains(x) <==> is_one(x) by {
        lemma_put_opt_contains(m0, "uid"@, string_opt(r.uid), x);
        lemma_put_opt_contains(m1, "resource_version"@, string_opt(r.resource_version), x);
    }
    lemma_is_object_of(m2, is_one);
}

/// The JSON form of a tracked destination: name, namespace, group, version and kind,
/// and the revisions and the strategy where they are set.
pub proof fn law_tracked_destination_form(d: api::DestinationStatusView)
    ensures
        is_object_of(
            destination_status_json(d),
            |x: Text|
                is_text_member(x, "name"@, Some(d.name))
                    || is_text_member(x, "namespace"@, Some(d.namespace))
                    || is_text_member(x, "group"@, Some(d.group))
                    || is_text_member(x, "version"@, Some(d.version))
                    || is_text_member(x, "kind"@, Some(d.kind))
                    || is_revision_member(x, "sourceVersion"@, d.source_version)
                    || is_revision_member(x, "syncedVersion"@, d.synced_version)
                    || is_strategy_member(x, "strategy"@, d.strategy),
        ),
{
    let is_one = |x: Text|
        is_text_member(x, "name"@, Some(d.name))
            || is_text_member(x, "namespace"@, Some(d.namespace))
            || is_text_member(x, "group"@, Some(d.group))
            || is_text_member(x, "version"@, Some(d.version))
            || is_text_member(x, "kind"@, Some(d.kind))
            || is_revision_member(x, "sourceVersion"@, d.source_version)
            || is_revision_member(x, "syncedVersion"@, d.synced_version)
            || is_strategy_member(x, "strategy"@, d.strategy);
    let m0 = Seq::<Text>::empty();
    let m1 = put(m0, "name"@, outside::json_string(d.name));
    let m2 = put(m1, "namespace"@, outside::json_string(d.namespace));
    let m3 = put(m2, "group"@, outside::json_string(d.group));
    let m4 = put(m3, "version"@, outside::json_string(d.version));
    let m5 = put(m4, "kind"@, outside::json_string(d.kind));
    let m6 = put_opt(m5, "sourceVersion"@, revision_json_opt(d.source_version));
    let m7 = put_opt(m6, "syncedVersion"@, revision_json_opt(d.synced_version));
    let m8 = put_opt(m7, "strategy"@, strategy_json_opt(d.strategy));
    assert forall|x: Text| #[trigger] m8.contains(x) <==> is_one(x) by {
        lemma_put_contains(m0, "name"@, outside::json_string(d.name), x);
        lemma_put_contains(m1, "namespace"@, outside::json_string(d.namespace), x);
        lemma_put_contains(m2, "group"@, outside::json_string(d.group), x);
        lemma_put_contains(m3, "version"@, outside::json_string(d.version), x);
        lemma_put_contains(m4, "kind"@, outside::json_string(d.kind), x);
        lemma_put_opt_contains(m5, "sourceVersion"@, revision_json_opt(d.source_version), x);
        lemma_put_opt_contains(m6, "syncedVersion"@, revision_json_opt(d.synced_version), x);
        lemma_put_opt_contains(m7, "strategy"@, strategy_json_opt(d.strategy), x);
    }
    lemma_is_object_of(m8, is_one);
}

/// The JSON form of a condition: type, status, reason and message, and the time and
/// the generation where they are set.
pub proof fn law_condition_form(c: api::ConditionView)
    ensures
        is_object_of(
            condition_json(c),
            |x: Text|
                is_text_member(x, "lastTransitionTime"@, c.last_transition_time)
                    || is_text_member(x, "message"@, Some(c.message))
                    || is_number_member(x, "observedGeneration"@, c.observed_generation)
                    || is_text_member(x, "reason"@, Some(c.reason))
                    || is_text_member(x, "status"@, Some(c.status))
                    || is_text_member(x, "type"@, Some(c.type_)),
        ),
{
    let is_one = |x: Text|
        is_text_member(x, "lastTransitionTime"@, c.last_transition_time)
            || is_text_member(x, "message"@, Some(c.message))
            || is_number_member(x, "observedGeneration"@, c.observed_generation)
            || is_text_member(x, "reason"@, Some(c.reason))
            || is_text_member(x, "status"@, Some(c.status))
            || is_text_member(x, "type"@, Some(c.type_));
    let m0 = Seq::<Text>::empty();
    let m1 = put_opt(m0, "lastTransitionTime"@, string_opt(c.last_transition_time));
    let m2 = put(m1, "message"@, outside::json_string(c.message));
    let m3 = put_opt(m2, "observedGeneration"@, number_opt(c.observed_generation));
    let m4 = put(m3, "reason"@, outside::json_string(c.reason));
    let m5 = put(m4, "status"@, outside::json_string(c.status));
    let m6 = put(m5, "type"@, outside::json_string(c.type_));
    assert forall|x: Text| #[trigger] m6.contains(x) <==> is_one(x) by {
        lemma_put_opt_contains(m0, "lastTransitionTime"@, string_opt(c.last_transition_time), x);
        lemma_put_contains(m1, "message"@, outside::json_string(c.message), x);
        lemma_put_opt_contains(m2, "observedGeneration"@, number_opt(c.observed_generation), x);
        lemma_put_contains(m3, "reason"@, outside::json_string(c.reason), x);
        lemma_put_contains(m4, "status"@, outside::json_string(c.status), x);
        lemma_put_contains(m5, "type"@, outside::json_string(c.type_), x);
    }
    lemma_is_object_of(m6, is_one);
}

/// The JSON form of a desired synchronization: the source, and the destinations in
/// their order.
pub proof fn law_spec_form(s: api::ObjectSyncSpecView)
    ensures
        is_object_of(
            spec_json(s),
            |x: Text|
                is_member(x, "source"@, source_json(s.source)) || is_member(
                    x,
                    "destinations"@,
                    bracketed(
                        Seq::new(
                            s.destinations.len(),
                            |i: int| destination_json(s.destinations[i]),
                        ),
                    ),
                ),
        ),
{
    let all = Seq::new(s.destinations.len(), |i: int| destination_json(s.destinations[i]));
    let is_one = |x: Text|
        is_member(x, "source"@, source_json(s.source)) || is_member(
            x,
            "destinations"@,
            bracketed(all),
        );
    let m1 = put(Seq::empty(), "source"@, source_json(s.source));
    let m2 = put(m1, "destinations"@, array(all));
    lemma_listing(all);
    assert forall|x: Text| #[trigger] m2.contains(x) <==> is_one(x) by {
        lemma_put_contains(Seq::empty(), "source"@, source_json(s.source), x);
        lemma_put_contains(m1, "destinations"@, array(all), x);
    }
    lemma_is_object_of(m2, is_one);
}

/// The JSON form of a status: the conditions and the tracked destinations, in their
/// order, where they are set.
pub proof fn law_status_form(s: api::ObjectSyncStatusView)
    ensures
        is_object_of(
            status_json(s),
            |x: Text|
                (s.conditions matches Some(c) && is_member(
                    x,
                    "conditions"@,
                    bracketed(Seq::new(c.len(), |i: int| condition_json(c[i]))),
                )) || (s.destinations matches Some(d) && is_member(
                    x,
                    "destinations"@,
                    bracketed(Seq::new(d.len(), |i: int| destination_status_json(d[i]))),
                )),
        ),
        status_json_or_null(Some(s)) == status_json(s),
        status_json_or_null(None) == "null"@,
{
    let first = match s.conditions {
        Some(c) => Some(array(Seq::new(c.len(), |i: int| condition_json(c[i])))),
        None => None,
    };
    let second = match s.destinations {
        Some(d) => Some(array(Seq::new(d.len(), |i: int| destination_status_json(d[i])))),
        None => None,
    };
    let is_one = |x: Text|
        (s.conditions matches Some(c) && is_member(
            x,
            "conditions"@,
            bracketed(Seq::new(c.len(), |i: int| condition_json(c[i]))),
        )) || (s.destinations matches Some(d) && is_member(
            x,
            "destinations"@,
            bracketed(Seq::new(d.len(), |i: int| destination_status_json(d[i]))),
        ));
    if let Some(c) = s.conditions {
        lemma_listing(Seq::new(c.len(), |i: int| condition_json(c[i])));
    }
    if let Some(d) = s.destinations {
        lemma_listing(Seq::new(d.len(), |i: int| destination_status_json(d[i])));
    }
    let m1 = put_opt(Seq::empty(), "conditions"@, first);
    let m2 = put_opt(m1, "destinations"@, second);
    assert forall|x: Text| #[trigger] m2.contains(x) <==> is_one(x) by {
        lemma_put_opt_contains(Seq::empty(), "conditions"@, first, x);
        lemma_put_opt_contains(m1, "destinations"@, second, x);
    }
    lemma_is_object_of(m2, is_one);
}

/// Whether labels or annotations are set, and `x` is the member under this key that
/// holds them, each entry as a member.
pub open spec fn is_map_member(x: Text, key: Text, pairs: Option<Seq<(Text, Text)>>) -> bool {
    pairs matches Some(p) && is_member(
        x,
        key,
        seq!['{'] + text::joined(
            Seq::new(
                p.len(),
                |i: int|
                    outside::json_string(p[i].0) + seq![':'] + outside::json_string(p[i].1),
            ),
            ',',
        ) + seq!['}'],
    )
}

/// Whether a list of texts is set, and `x` is the member under this key that holds
/// it.
pub open spec fn is_texts_member(x: Text, key: Text, list: Option<Seq<Text>>) -> bool {
    list matches Some(s) && is_member(
        x,
        key,
        bracketed(Seq::new(s.len(), |i: int| outside::json_string(s[i]))),
    )
}

/// Whether a list of JSON values is set, and `x` is the member under this key that
/// holds it.
pub open spec fn is_values_member(x: Text, key: Text, list: Option<Seq<Text>>) -> bool {
    list matches Some(s) && is_member(x, key, bracketed(s))
}

proof fn lemma_map_form(p: Seq<(Text, Text)>)
    ensures
        text_members(Seq::empty(), p) == Seq::new(
            p.len(),
            |i: int| outside::json_string(p[i].0) + seq![':'] + outside::json_string(p[i].1),
        ),
    decreases p.len(),
{
    reveal_strlit(":");
    assert(":"@ =~= seq![':']);
    if p.len() > 0 {
        lemma_map_form(p.drop_last());
    }
    assert(text_members(Seq::empty(), p) =~= Seq::new(
        p.len(),
        |i: int| outside::json_string(p[i].0) + seq![':'] + outside::json_string(p[i].1),
    ));
}

proof fn lemma_list_forms(x: Text, key: Text, s: Option<Seq<Text>>, p: Option<Seq<(Text, Text)>>)
    ensures
        (map_json_opt(p) matches Some(v) && is_member(x, key, v)) <==> is_map_member(x, key, p),
        (string_array_opt(s) matches Some(v) && is_member(x, key, v)) <==> is_texts_member(
            x,
            key,
            s,
        ),
        (array_opt(s) matches Some(v) && is_member(x, key, v)) <==> is_values_member(x, key, s),
{
    if let Some(p) = p {
        lemma_map_form(p);
        lemma_listing(text_members(Seq::empty(), p));
    }
    if let Some(s) = s {
        lemma_listing(Seq::new(s.len(), |i: int| outside::json_string(s[i])));
        lemma_listing(s);
    }
}

/// Whether `x` is one of the first members of the JSON form of metadata.
pub open spec fn is_leading(x: Text, o: meta::ObjectMetaView) -> bool {
    ||| is_map_member(x, "annotations"@, o.annotations)
    ||| is_text_member(x, "creationTimestamp"@, o.creation_timestamp)
    ||| is_number_member(x, "deletionGracePeriodSeconds"@, o.deletion_grace_period_seconds)
    ||| is_text_member(x, "deletionTimestamp"@, o.deletion_timestamp)
    ||| is_texts_member(x, "finalizers"@, o.finalizers)
    ||| is_text_member(x, "generateName"@, o.generate_name)
    ||| is_number_member(x, "generation"@, o.generation)
    ||| is_map_member(x, "labels"@, o.labels)
}

proof fn lemma_leading(before: Seq<Text>, o: meta::ObjectMetaView, x: Text)
    ensures
        leading_members(before, o).contains(x) <==> before.contains(x) || is_leading(x, o),
{
    let m0 = before;
    let m1 = put_opt(m0, "annotations"@, map_json_opt(o.annotations));
    let m2 = put_opt(m1, "creationTimestamp"@, string_opt(o.creation_timestamp));
    let m3 = put_opt(m2, "deletionGracePeriodSeconds"@, number_opt(o.deletion_grace_period_seconds));
    let m4 = put_opt(m3, "deletionTimestamp"@, string_opt(o.deletion_timestamp));
    let m5 = put_opt(m4, "finalizers"@, string_array_opt(o.finalizers));
    let m6 = put_opt(m5, "generateName"@, string_opt(o.generate_name));
    let m7 = put_opt(m6, "generation"@, number_opt(o.generation));
    let m8 = put_opt(m7, "labels"@, map_json_opt(o.labels));
    lemma_put_opt_contains(m0, "annotations"@, map_json_opt(o.annotations), x);
    lemma_list_forms(x, "annotations"@, None, o.annotations);
    lemma_put_opt_contains(m1, "creationTimestamp"@, string_opt(o.creation_timestamp), x);
    lemma_put_opt_contains(m2, "deletionGracePeriodSeconds"@, number_opt(o.deletion_grace_period_seconds), x);
    lemma_put_opt_contains(m3, "deletionTimestamp"@, string_opt(o.deletion_timestamp), x);
    lemma_put_opt_contains(m4, "finalizers"@, string_array_opt(o.finalizers), x);
    lemma_list_forms(x, "finalizers"@, o.finalizers, None);
    lemma_put_opt_contains(m5, "generateName"@, string_opt(o.generate_name), x);
    lemma_put_opt_contains(m6, "generation"@, number_opt(o.generation), x);
    lemma_put_opt_contains(m7, "labels"@, map_json_opt(o.labels), x);
    lemma_list_forms(x, "labels"@, None, o.labels);
}

spec fn leading_members(before: Seq<Text>, o: meta::ObjectMetaView) -> Seq<Text> {
    let m = put_opt(before, "annotations"@, map_json_opt(o.annotations));
    let m = put_opt(m, "creationTimestamp"@, string_opt(o.creation_timestamp));
    let m = put_opt(m, "deletionGracePeriodSeconds"@, number_opt(o.deletion_grace_period_seconds));
    let m = put_opt(m, "deletionTimestamp"@, string_opt(o.deletion_timestamp));
    let m = put_opt(m, "finalizers"@, string_array_opt(o.finalizers));
    let m = put_opt(m, "generateName"@, string_opt(o.generate_name));
    let m = put_opt(m, "generation"@, number_opt(o.generation));
    let m = put_opt(m, "labels"@, map_json_opt(o.labels));
    m
}

/// Whether `x` is one of the other members of the JSON form of metadata.
pub open spec fn is_trailing(x: Text, o: meta::ObjectMetaView) -> bool {
    ||| is_values_member(x, "managedFields"@, o.managed_fields)
    ||| is_text_member(x, "name"@, o.name)
    ||| is_text_member(x, "namespace"@, o.namespace)
    ||| is_values_member(x, "ownerReferences"@, o.owner_references)
    ||| is_text_member(x, "resourceVersion"@, o.resource_version)
    ||| is_text_member(x, "selfLink"@, o.self_link)
    ||| is_text_member(x, "uid"@, o.uid)
}

proof fn lemma_trailing(before: Seq<Text>, o: meta::ObjectMetaView, x: Text)
    ensures
        trailing_members(before, o).contains(x) <==> before.contains(x) || is_trailing(x, o),
{
    let m0 = before;
    let m1 = put_opt(m0, "managedFields"@, array_opt(o.managed_fields));
    let m2 = put_opt(m1, "name"@, string_opt(o.name));
    let m3 = put_opt(m2, "namespace"@, string_opt(o.namespace));
    let m4 = put_opt(m3, "ownerReferences"@, array_opt(o.owner_references));
    let m5 = put_opt(m4, "resourceVersion"@, string_opt(o.resource_version));
    let m6 = put_opt(m5, "selfLink"@, string_opt(o.self_link));
    let m7 = put_opt(m6, "uid"@, string_opt(o.uid));
    lemma_put_opt_contains(m0, "managedFields"@, array_opt(o.managed_fields), x);
    lemma_list_forms(x, "managedFields"@, o.managed_fields, None);
    lemma_put_opt_contains(m1, "name"@, string_opt(o.name), x);
    lemma_put_opt_contains(m2, "namespace"@, string_opt(o.namespace), x);
    lemma_put_opt_contains(m3, "ownerReferences"@, array_opt(o.owner_references), x);
    lemma_list_forms(x, "ownerReferences"@, o.owner_references, None);
    lemma_put_opt_contains(m4, "resourceVersion"@, string_opt(o.resource_version), x);
    lemma_put_opt_contains(m5, "selfLink"@, string_opt(o.self_link), x);
    lemma_put_opt_contains(m6, "uid"@, string_opt(o.uid), x);
}

spec fn trailing_members(before: Seq<Text>, o: meta::ObjectMetaView) -> Seq<Text> {
    let m = put_opt(before, "managedFields"@, array_opt(o.managed_fields));
    let m = put_opt(m, "name"@, string_opt(o.name));
    let m = put_opt(m, "namespace"@, string_opt(o.namespace));
    let m = put_opt(m, "ownerReferences"@, array_opt(o.owner_references));
    let m = put_opt(m, "resourceVersion"@, string_opt(o.resource_version));
    let m = put_opt(m, "selfLink"@, string_opt(o.self_link));
    let m = put_opt(m, "uid"@, string_opt(o.uid));
    m
}

/// The JSON form of metadata: what is set stands under its own name, and nothing
/// else is there.
pub proof fn law_metadata_form(o: meta::ObjectMetaView)
    ensures
        is_object_of(metadata_json(o), |x: Text| is_leading(x, o) || is_trailing(x, o)),
{
    let is_one = |x: Text| is_leading(x, o) || is_trailing(x, o);
    let first = leading_members(Seq::empty(), o);
    let all = trailing_members(first, o);
    assert forall|x: Text| #[trigger] all.contains(x) <==> is_one(x) by {
        lemma_leading(Seq::empty(), o, x);
        lemma_trailing(first, o, x);
    }
    assert(metadata_json(o) == object(all));
    lemma_is_object_of(all, is_one);
}

/// The JSON form of an object: its version and kind, metadata and the desired
/// synchronization, and the status where it is set.
pub proof fn law_object_sync_form(o: api::ObjectSyncView)
    ensures
        is_object_of(
            object_sync_json(o),
            |x: Text|
                is_text_member(x, "apiVersion"@, Some("sync.rustrial.org/v1alpha1"@))
                    || is_text_member(x, "kind"@, Some("ObjectSync"@)) || is_member(
                    x,
                    "metadata"@,
                    metadata_json(o.metadata),
                ) || is_member(x, "spec"@, spec_json(o.spec)) || (o.status matches Some(s)
                    && is_member(x, "status"@, status_json(s))),
        ),
{
    let is_one = |x: Text|
        is_text_member(x, "apiVersion"@, Some("sync.rustrial.org/v1alpha1"@)) || is_text_member(
            x,
            "kind"@,
            Some("ObjectSync"@),
        ) || is_member(x, "metadata"@, metadata_json(o.metadata)) || is_member(
            x,
            "spec"@,
            spec_json(o.spec),
        ) || (o.status matches Some(s) && is_member(x, "status"@, status_json(s)));
    let status = match o.status {
        Some(s) => Some(status_json(s)),
        None => None,
    };
    let m0 = Seq::<Text>::empty();
    let m1 = put(m0, "apiVersion"@, outside::json_string(API_VERSION@));
    let m2 = put(m1, "kind"@, outside::json_string(KIND@));
    let m3 = put(m2, "metadata"@, metadata_json(o.metadata));
    let m4 = put(m3, "spec"@, spec_json(o.spec));
    let m5 = put_opt(m4, "status"@, status);
    assert forall|x: Text| #[trigger] m5.contains(x) <==> is_one(x) by {
        lemma_put_contains(m0, "apiVersion"@, outside::json_string(API_VERSION@), x);
        lemma_put_contains(m1, "kind"@, outside::json_string(KIND@), x);
        lemma_put_contains(m2, "metadata"@, metadata_json(o.metadata), x);
        lemma_put_contains(m3, "spec"@, spec_json(o.spec), x);
        lemma_put_opt_contains(m4, "status"@, status, x);
    }
    lemma_is_object_of(m5, is_one);
}

/// The JSON form of an object of any kind: its version and kind where they are set,
/// its metadata, and the rest of its content as it is.
pub proof fn law_dynamic_object_form(o: meta::DynamicObjectView)
    ensures
        is_object_of(
            dynamic_object_json(o),
            |x: Text|
                (o.types matches Some(t) && (is_text_member(x, "apiVersion"@, Some(t.api_version))
                    || is_text_member(x, "kind"@, Some(t.kind)))) || is_member(
                    x,
                    "metadata"@,
                    metadata_json(o.metadata),
                ) || exists|k: int|
                    0 <= k < o.data.len() && is_member(x, (#[trigger] o.data[k]).0, o.data[k].1),
        ),
{
    let is_one = |x: Text|
        (o.types matches Some(t) && (is_text_member(x, "apiVersion"@, Some(t.api_version))
            || is_text_member(x, "kind"@, Some(t.kind)))) || is_member(
            x,
            "metadata"@,
            metadata_json(o.metadata),
        ) || exists|k: int|
            0 <= k < o.data.len() && is_member(x, (#[trigger] o.data[k]).0, o.data[k].1);
    let version = match o.types {
        Some(t) => Some(outside::json_string(t.api_version)),
        None => None,
    };
    let kind = match o.types {
        Some(t) => Some(outside::json_string(t.kind)),
        None => None,
    };
    let m0 = Seq::<Text>::empty();
    let m1 = put_opt(m0, "apiVersion"@, version);
    let m2 = put_opt(m1, "kind"@, kind);
    let m3 = put(m2, "metadata"@, metadata_json(o.metadata));
    let m4 = raw_members(m3, o.data);
    assert forall|x: Text| #[trigger] m4.contains(x) <==> is_one(x) by {
        lemma_put_opt_contains(m0, "apiVersion"@, version, x);
        lemma_put_opt_contains(m1, "kind"@, kind, x);
        lemma_put_contains(m2, "metadata"@, metadata_json(o.metadata), x);
        lemma_raw_form(m3, o.data, x);
    }
    lemma_is_object_of(m4, is_one);
}

proof fn lemma_raw_form(members: Seq<Text>, p: Seq<(Text, Text)>, x: Text)
    ensures
        raw_members(members, p).contains(x) <==> members.contains(x) || exists|k: int|
            0 <= k < p.len() && is_member(x, (#[trigger] p[k]).0, p[k].1),
    decreases p.len(),
{
    if p.len() > 0 {
        let r = p.drop_last();
        lemma_raw_form(members, r, x);
        lemma_put_contains(raw_members(members, r), p.last().0, p.last().1, x);
        assert(p.last() == p[p.len() - 1]);
        if exists|k: int| 0 <= k < r.len() && is_member(x, (#[trigger] r[k]).0, r[k].1) {
            let k = choose|k: int| 0 <= k < r.len() && is_member(x, (#[trigger] r[k]).0, r[k].1);
            assert(p[k] == r[k]);
        }
        if exists|k: int| 0 <= k < p.len() && is_member(x, (#[trigger] p[k]).0, p[k].1) {
            let k = choose|k: int| 0 <= k < p.len() && is_member(x, (#[trigger] p[k]).0, p[k].1);
            if k < r.len() {
                assert(r[k] == p[k]);
            }
        }
    }
}

/// The JSON texts that are handed out are those that the laws on them speak of.
pub proof fn law_texts_that_are_handed_out(
    strategy: &SyncStrategy,
    strategy_text: String,
    source: &SourceObject,
    source_text: String,
    destination: &Destination,
    destination_text: String,
    desired: &ObjectSyncSpec,
    desired_text: String,
    revision: &ObjectRevision,
    revision_text: String,
    entry: &DestinationStatus,
    entry_text: String,
    condition: &Condition,
    condition_text: String,
    status: &ObjectSyncStatus,
    status_text: String,
    metadata: &ObjectMeta,
    metadata_text: String,
    object: &ObjectSync,
    object_text: String,
    other: &DynamicObject,
    other_text: String,
    may_be: &Option<ObjectSyncStatus>,
    may_be_text: String,
)
    requires
        call_ensures(SyncStrategy::to_json, (strategy,), strategy_text),
        call_ensures(SourceObject::to_json, (source,), source_text),
        call_ensures(Destination::to_json, (destination,), destination_text),
        call_ensures(ObjectSyncSpec::to_json, (desired,), desired_text),
        call_ensures(ObjectRevision::to_json, (revision,), revision_text),
        call_ensures(DestinationStatus::to_json, (entry,), entry_text),
        call_ensures(Condition::to_json, (condition,), condition_text),
        call_ensures(ObjectSyncStatus::to_json, (status,), status_text),
        call_ensures(ObjectMeta::to_json, (metadata,), metadata_text),
        call_ensures(ObjectSync::to_json, (object,), object_text),
        call_ensures(DynamicObject::to_json, (other,), other_text),
        call_ensures(status_to_json, (may_be,), may_be_text),
    ensures
        strategy_text@ == strategy_json(*strategy),
        source_text@ == source_json(source@),
        destination_text@ == destination_json(destination@),
        desired_text@ == spec_json(desired@),
        revision_text@ == revision_json(revision@),
        entry_text@ == destination_status_json(entry@),
        condition_text@ == condition_json(condition@),
        status_text@ == status_json(status@),
        metadata_text@ == metadata_json(metadata@),
        object_text@ == object_sync_json(object@),
        other_text@ == dynamic_object_json(other@),
        *strategy is Apply ==> strategy_text@ == outside::json_string("apply"@),
        *strategy is Replace ==> strategy_text@ == outside::json_string("replace"@),
        may_be is None ==> may_be_text@ == "null"@,
        may_be matches Some(s) ==> may_be_text@ == status_json(s@),
{
}

} // verus!
