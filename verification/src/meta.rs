//! The parts of Kubernetes objects that the syncer reads and writes: type
//! information, object metadata and objects of any kind.
use crate::outside;
use crate::text;
use crate::text::Text;
use vstd::prelude::*;
use vstd::string::*;

verus! {

/// A value under a key.
#[derive(Debug, PartialEq, Eq)]
pub struct Entry {
    pub key: String,
    pub value: String,
}

impl View for Entry {
    type V = (Text, Text);

    open spec fn view(&self) -> (Text, Text) {
        (self.key@, self.value@)
    }
}

impl Clone for Entry {
    fn clone(&self) -> (res: Self)
        ensures
            res@ == self@,
    {
        Entry { key: self.key.clone(), value: self.value.clone() }
    }
}

/// Labels or annotations: values under keys, by ascending key.
#[derive(Debug, PartialEq, Eq)]
pub struct StringMap {
    entries: Vec<Entry>,
}

/// Whether each key comes before the next, so that no key occurs twice.
pub open spec fn ascending(pairs: Seq<(Text, Text)>) -> bool {
    forall|i: int, j: int|
        0 <= i < j < pairs.len() ==> text::text_precedes(
            (#[trigger] pairs[i]).0,
            (#[trigger] pairs[j]).0,
        )
}

impl View for StringMap {
    type V = Seq<(Text, Text)>;

    closed spec fn view(&self) -> Seq<(Text, Text)> {
        text::views(self.entries@)
    }
}

/// The value of the first pair with key `key`.
pub open spec fn lookup(pairs: Seq<(Text, Text)>, key: Text) -> Option<Text>
    decreases pairs.len(),
{
    if pairs.len() == 0 {
        None
    } else if pairs[0].0 == key {
        Some(pairs[0].1)
    } else {
        lookup(pairs.drop_first(), key)
    }
}

/// `pairs` with `value` under `key`, in place of what was there, or else at the
/// place of `key` in the order of keys.
pub open spec fn with_entry(pairs: Seq<(Text, Text)>, key: Text, value: Text) -> Seq<(Text, Text)>
    decreases pairs.len(),
{
    if pairs.len() == 0 {
        seq![(key, value)]
    } else if pairs[0].0 == key {
        seq![(key, value)] + pairs.drop_first()
    } else if text::text_precedes(key, pairs[0].0) {
        seq![(key, value)] + pairs
    } else {
        seq![pairs[0]] + with_entry(pairs.drop_first(), key, value)
    }
}

impl StringMap {
    #[verifier::type_invariant]
    spec fn inv(self) -> bool {
        ascending(self@)
    }

    /// A map without entries.
    pub fn new() -> (res: Self)
        ensures
            res@ == Seq::<(Text, Text)>::empty(),
    {
        let res = StringMap { entries: Vec::new() };
        assert(res@ =~= Seq::empty());
        res
    }

    /// The value under `key`.
    pub fn get(&self, key: &str) -> (res: Option<&String>)
        ensures
            (match res {
                Some(v) => Some(v@),
                None => None,
            }) == lookup(self@, key@),
    {
        let mut i: usize = 0;
        assert(self@.skip(0) =~= self@);
        while i < self.entries.len()
            invariant
                i <= self.entries@.len(),
                lookup(self@, key@) == lookup(self@.skip(i as int), key@),
            decreases self.entries@.len() - i,
        {
            assert(self@.skip(i as int)[0] == self.entries@[i as int]@);
            assert(self@.skip(i as int).drop_first() =~= self@.skip(i + 1));
            if text::same_text(self.entries[i].key.as_str(), key) {
                return Some(&self.entries[i].value);
            }
            i = i + 1;
        }
        None
    }

    /// The entries, by ascending key.
    pub fn entries(&self) -> (res: &Vec<Entry>)
        ensures
            text::views(res@) == self@,
            ascending(self@),
    {
        proof {
            use_type_invariant(self);
        }
        &self.entries
    }

    /// Puts `value` under `key`.
    pub fn insert(&mut self, key: String, value: String)
        ensures
            final(self)@ == with_entry(old(self)@, key@, value@),
    {
        proof {
            use_type_invariant(&*self);
            law_keys_ascend(self@, key@, value@);
        }
        let mut entries: Vec<Entry> = Vec::new();
        std::mem::swap(&mut entries, &mut self.entries);
        insert_entry(&mut entries, key, value);
        self.entries = entries;
    }
}

/// Puts `value` under `key` into a list of entries.
fn insert_entry(entries: &mut Vec<Entry>, key: String, value: String)
    ensures
        text::views(final(entries)@) == with_entry(text::views(old(entries)@), key@, value@),
{
    let ghost before = text::views(entries@);
    let ghost k = key@;
    let ghost v = value@;
    let mut i: usize = 0;
    assert(before.take(0) + with_entry(before.skip(0), k, v) =~= with_entry(before, k, v)) by {
        assert(before.skip(0) =~= before);
    }
    while i < entries.len()
        invariant
            i <= entries@.len(),
            *entries == *old(entries),
            before == text::views(entries@),
            k == key@,
            v == value@,
            before.take(i as int) + with_entry(before.skip(i as int), k, v) == with_entry(
                before,
                k,
                v,
            ),
        decreases entries@.len() - i,
    {
        let ghost rest = before.skip(i as int);
        assert(rest[0] == entries@[i as int]@);
        assert(rest.drop_first() =~= before.skip(i + 1));
        if text::same_text(entries[i].key.as_str(), key.as_str()) {
            entries.set(i, Entry { key, value });
            assert(text::views(entries@) =~= before.take(i as int) + (seq![(k, v)]
                + rest.drop_first()));
            return ;
        }
        if text::text_before(key.as_str(), entries[i].key.as_str()) {
            entries.insert(i, Entry { key, value });
            assert(text::views(entries@) =~= before.take(i as int) + (seq![(k, v)] + rest));
            return ;
        }
        assert(before.take(i + 1) + with_entry(before.skip(i + 1), k, v) =~= before.take(i as int)
            + with_entry(rest, k, v));
        i = i + 1;
    }
    assert(before.skip(i as int).len() == 0);
    entries.push(Entry { key, value });
    assert(text::views(entries@) =~= before.take(i as int) + seq![(k, v)]);
}

impl Clone for StringMap {
    fn clone(&self) -> (res: Self)
        ensures
            res@ == self@,
    {
        proof {
            use_type_invariant(self);
        }
        let entries = self.entries.clone();
        assert(text::views(entries@) =~= self@);
        let res = StringMap { entries };
        res
    }
}

/// An insertion keeps the order of keys.
pub proof fn law_keys_ascend(pairs: Seq<(Text, Text)>, key: Text, value: Text)
    requires
        ascending(pairs),
    ensures
        ascending(with_entry(pairs, key, value)),
    decreases pairs.len(),
{
    let after = with_entry(pairs, key, value);
    if pairs.len() > 0 {
        let rest = pairs.drop_first();
        assert forall|i: int| 0 <= i < rest.len() implies #[trigger] rest[i] == pairs[i + 1] by {}
        assert(ascending(rest)) by {
            assert forall|i: int, j: int| 0 <= i < j < rest.len() implies text::text_precedes(
                (#[trigger] rest[i]).0,
                (#[trigger] rest[j]).0,
            ) by {
                assert(text::text_precedes(pairs[i + 1].0, pairs[j + 1].0));
            }
        }
        if pairs[0].0 == key {
            assert forall|i: int, j: int| 0 <= i < j < after.len() implies text::text_precedes(
                (#[trigger] after[i]).0,
                (#[trigger] after[j]).0,
            ) by {
                assert(after[i].0 == pairs[i].0 && after[j].0 == pairs[j].0);
            }
        } else if text::text_precedes(key, pairs[0].0) {
            assert forall|i: int, j: int| 0 <= i < j < after.len() implies text::text_precedes(
                (#[trigger] after[i]).0,
                (#[trigger] after[j]).0,
            ) by {
                assert(after[j] == pairs[j - 1]);
                if i > 0 {
                    assert(after[i] == pairs[i - 1]);
                } else if j > 1 {
                    text::lemma_text_order(key, pairs[0].0, pairs[j - 1].0);
                }
            }
        } else {
            law_keys_ascend(rest, key, value);
            let tail = with_entry(rest, key, value);
            text::lemma_text_order(key, pairs[0].0, key);
            assert forall|j: int| 0 <= j < tail.len() implies text::text_precedes(
                pairs[0].0,
                (#[trigger] tail[j]).0,
            ) by {
                lemma_with_entry_keys(rest, key, value, j);
            }
            assert forall|i: int, j: int| 0 <= i < j < after.len() implies text::text_precedes(
                (#[trigger] after[i]).0,
                (#[trigger] after[j]).0,
            ) by {
                assert(after[j] == tail[j - 1]);
                if i > 0 {
                    assert(after[i] == tail[i - 1]);
                }
            }
        }
    }
}

/// The keys after an insertion are those there were, and the new one.
proof fn lemma_with_entry_keys(pairs: Seq<(Text, Text)>, key: Text, value: Text, j: int)
    requires
        0 <= j < with_entry(pairs, key, value).len(),
    ensures
        with_entry(pairs, key, value)[j].0 == key || exists|i: int|
            0 <= i < pairs.len() && #[trigger] pairs[i] == with_entry(pairs, key, value)[j],
    decreases pairs.len(),
{
    let after = with_entry(pairs, key, value);
    if pairs.len() > 0 {
        let rest = pairs.drop_first();
        if pairs[0].0 == key {
            if j > 0 {
                assert(pairs[j] == after[j]);
            }
        } else if text::text_precedes(key, pairs[0].0) {
            if j > 0 {
                assert(pairs[j - 1] == after[j]);
            }
        } else if j == 0 {
            assert(pairs[0] == after[0]);
        } else {
            let tail = with_entry(rest, key, value);
            assert(after[j] == tail[j - 1]);
            lemma_with_entry_keys(rest, key, value, j - 1);
            if tail[j - 1].0 != key {
                let i = choose|i: int| 0 <= i < rest.len() && #[trigger] rest[i] == tail[j - 1];
                assert(pairs[i + 1] == after[j]);
            }
        }
    }
}

/// What is under a key after an insertion: the new value under the key that
/// was inserted, and what was there before under any other.
pub proof fn lemma_with_entry_lookup(pairs: Seq<(Text, Text)>, key: Text, value: Text, other: Text)
    ensures
        lookup(with_entry(pairs, key, value), other) == (if other == key {
            Some(value)
        } else {
            lookup(pairs, other)
        }),
    decreases pairs.len(),
{
    let after = with_entry(pairs, key, value);
    if pairs.len() == 0 {
        assert(after.drop_first() =~= Seq::empty());
        reveal_with_fuel(lookup, 2);
    } else if pairs[0].0 == key {
        assert(after.drop_first() =~= pairs.drop_first());
    } else if text::text_precedes(key, pairs[0].0) {
        assert(after.drop_first() =~= pairs);
    } else {
        lemma_with_entry_lookup(pairs.drop_first(), key, value, other);
        assert(after.drop_first() =~= with_entry(pairs.drop_first(), key, value));
    }
}

/// Type information of an object.
#[derive(Debug, PartialEq, Eq)]
pub struct TypeMeta {
    /// The version of the API, with its group where it has one.
    pub api_version: String,
    /// The name of the kind.
    pub kind: String,
}

/// The model of [`TypeMeta`].
#[verifier::ext_equal]
pub struct TypeMetaView {
    pub api_version: Text,
    pub kind: Text,
}

impl View for TypeMeta {
    type V = TypeMetaView;

    open spec fn view(&self) -> TypeMetaView {
        TypeMetaView {
            api_version: self.api_version@,
            kind: self.kind@,
        }
    }
}

impl Clone for TypeMeta {
    fn clone(&self) -> (res: Self)
        ensures
            res@ == self@,
    {
        let res = TypeMeta {
            api_version: self.api_version.clone(),
            kind: self.kind.clone(),
        };
        assert(res@ =~~= self@);
        res
    }
}

/// A kind of objects: the API group, its version and the name of the kind.
#[derive(Debug, PartialEq, Eq)]
pub struct GroupVersionKind {
    /// The API group, empty for the core group.
    pub group: String,
    /// The version of the API group.
    pub version: String,
    /// The name of the kind.
    pub kind: String,
}

/// The model of [`GroupVersionKind`].
#[verifier::ext_equal]
pub struct GroupVersionKindView {
    pub group: Text,
    pub version: Text,
    pub kind: Text,
}

impl View for GroupVersionKind {
    type V = GroupVersionKindView;

    open spec fn view(&self) -> GroupVersionKindView {
        GroupVersionKindView {
            group: self.group@,
            version: self.version@,
            kind: self.kind@,
        }
    }
}

impl Clone for GroupVersionKind {
    fn clone(&self) -> (res: Self)
        ensures
            res@ == self@,
    {
        let res = GroupVersionKind {
            group: self.group.clone(),
            version: self.version.clone(),
            kind: self.kind.clone(),
        };
        assert(res@ =~~= self@);
        res
    }
}

/// Where the API serves the objects of a kind.
#[derive(Debug, PartialEq, Eq)]
pub struct ApiResource {
    /// The API group, empty for the core group.
    pub group: String,
    /// The version of the API group.
    pub version: String,
    /// The version with the group in front of it where there is one.
    pub api_version: String,
    /// The name of the kind.
    pub kind: String,
    /// The plural name of the resource, as it stands in request paths.
    pub plural: String,
}

/// The model of [`ApiResource`].
#[verifier::ext_equal]
pub struct ApiResourceView {
    pub group: Text,
    pub version: Text,
    pub api_version: Text,
    pub kind: Text,
    pub plural: Text,
}

impl View for ApiResource {
    type V = ApiResourceView;

    open spec fn view(&self) -> ApiResourceView {
        ApiResourceView {
            group: self.group@,
            version: self.version@,
            api_version: self.api_version@,
            kind: self.kind@,
            plural: self.plural@,
        }
    }
}

impl Clone for ApiResource {
    fn clone(&self) -> (res: Self)
        ensures
            res@ == self@,
    {
        let res = ApiResource {
            group: self.group.clone(),
            version: self.version.clone(),
            api_version: self.api_version.clone(),
            kind: self.kind.clone(),
            plural: self.plural.clone(),
        };
        assert(res@ =~~= self@);
        res
    }
}

/// The metadata of an object.
#[derive(Debug, PartialEq, Eq)]
pub struct ObjectMeta {
    /// Annotations.
    pub annotations: Option<StringMap>,
    /// When the object was created.
    pub creation_timestamp: Option<String>,
    /// How long the object may take to terminate.
    pub deletion_grace_period_seconds: Option<i64>,
    /// When the deletion of the object was requested.
    pub deletion_timestamp: Option<String>,
    /// What has to be done before the object is removed.
    pub finalizers: Option<Vec<String>>,
    /// The prefix of a name that the server generates.
    pub generate_name: Option<String>,
    /// The generation of the desired state.
    pub generation: Option<i64>,
    /// Labels.
    pub labels: Option<StringMap>,
    /// The field managers, each entry as JSON text.
    pub managed_fields: Option<Vec<String>>,
    /// The name of the object.
    pub name: Option<String>,
    /// The namespace of the object.
    pub namespace: Option<String>,
    /// The owners of the object, each as JSON text.
    pub owner_references: Option<Vec<String>>,
    /// The version of the stored object.
    pub resource_version: Option<String>,
    /// The former link of the object to itself.
    pub self_link: Option<String>,
    /// The identity of the object.
    pub uid: Option<String>,
}

/// The model of [`ObjectMeta`].
#[verifier::ext_equal]
pub struct ObjectMetaView {
    pub annotations: Option<Seq<(Text, Text)>>,
    pub creation_timestamp: Option<Text>,
    pub deletion_grace_period_seconds: Option<i64>,
    pub deletion_timestamp: Option<Text>,
    pub finalizers: Option<Seq<Text>>,
    pub generate_name: Option<Text>,
    pub generation: Option<i64>,
    pub labels: Option<Seq<(Text, Text)>>,
    pub managed_fields: Option<Seq<Text>>,
    pub name: Option<Text>,
    pub namespace: Option<Text>,
    pub owner_references: Option<Seq<Text>>,
    pub resource_version: Option<Text>,
    pub self_link: Option<Text>,
    pub uid: Option<Text>,
}

impl View for ObjectMeta {
    type V = ObjectMetaView;

    open spec fn view(&self) -> ObjectMetaView {
        ObjectMetaView {
            annotations: text::view_opt(self.annotations),
            creation_timestamp: text::view_opt(self.creation_timestamp),
            deletion_grace_period_seconds: self.deletion_grace_period_seconds,
            deletion_timestamp: text::view_opt(self.deletion_timestamp),
            finalizers: text::view_opt_vec(self.finalizers),
            generate_name: text::view_opt(self.generate_name),
            generation: self.generation,
            labels: text::view_opt(self.labels),
            managed_fields: text::view_opt_vec(self.managed_fields),
            name: text::view_opt(self.name),
            namespace: text::view_opt(self.namespace),
            owner_references: text::view_opt_vec(self.owner_references),
            resource_version: text::view_opt(self.resource_version),
            self_link: text::view_opt(self.self_link),
            uid: text::view_opt(self.uid),
        }
    }
}

impl Clone for ObjectMeta {
    fn clone(&self) -> (res: Self)
        ensures
            res@ == self@,
    {
        let res = ObjectMeta {
            annotations: self.annotations.clone(),
            creation_timestamp: self.creation_timestamp.clone(),
            deletion_grace_period_seconds: self.deletion_grace_period_seconds,
            deletion_timestamp: self.deletion_timestamp.clone(),
            finalizers: self.finalizers.clone(),
            generate_name: self.generate_name.clone(),
            generation: self.generation,
            labels: self.labels.clone(),
            managed_fields: self.managed_fields.clone(),
            name: self.name.clone(),
            namespace: self.namespace.clone(),
            owner_references: self.owner_references.clone(),
            resource_version: self.resource_version.clone(),
            self_link: self.self_link.clone(),
            uid: self.uid.clone(),
        };
        assert(res@ =~~= self@);
        res
    }
}

/// An object of any kind.
#[derive(Debug, PartialEq, Eq)]
pub struct DynamicObject {
    /// The kind of the object, where it is known.
    pub types: Option<TypeMeta>,
    /// The metadata of the object.
    pub metadata: ObjectMeta,
    /// All other members of the object, each value as JSON text.
    pub data: Vec<Entry>,
}

/// The model of [`DynamicObject`].
#[verifier::ext_equal]
pub struct DynamicObjectView {
    pub types: Option<TypeMetaView>,
    pub metadata: ObjectMetaView,
    pub data: Seq<(Text, Text)>,
}

impl View for DynamicObject {
    type V = DynamicObjectView;

    open spec fn view(&self) -> DynamicObjectView {
        DynamicObjectView {
            types: text::view_opt(self.types),
            metadata: self.metadata@,
            data: text::views(self.data@),
        }
    }
}

impl Clone for DynamicObject {
    fn clone(&self) -> (res: Self)
        ensures
            res@ == self@,
    {
        let res = DynamicObject {
            types: self.types.clone(),
            metadata: self.metadata.clone(),
            data: self.data.clone(),
        };
        assert(res@ =~~= self@);
        res
    }
}

impl ObjectMetaView {
    /// Metadata in which nothing is set.
    pub open spec fn unset() -> ObjectMetaView {
        ObjectMetaView {
            annotations: None,
            creation_timestamp: None,
            deletion_grace_period_seconds: None,
            deletion_timestamp: None,
            finalizers: None,
            generate_name: None,
            generation: None,
            labels: None,
            managed_fields: None,
            name: None,
            namespace: None,
            owner_references: None,
            resource_version: None,
            self_link: None,
            uid: None,
        }
    }

    /// The name, or else the prefix of a generated name, or else the empty text.
    pub open spec fn name_any(self) -> Text {
        match self.name {
            Some(name) => name,
            None => text::or_empty(self.generate_name),
        }
    }

    /// The finalizers, none where the list is not set.
    pub open spec fn finalizer_list(self) -> Seq<Text> {
        match self.finalizers {
            Some(finalizers) => finalizers,
            None => Seq::empty(),
        }
    }
}

impl Default for ObjectMeta {
    fn default() -> (res: Self)
        ensures
            res@ == ObjectMetaView::unset(),
    {
        ObjectMeta {
            annotations: None,
            creation_timestamp: None,
            deletion_grace_period_seconds: None,
            deletion_timestamp: None,
            finalizers: None,
            generate_name: None,
            generation: None,
            labels: None,
            managed_fields: None,
            name: None,
            namespace: None,
            owner_references: None,
            resource_version: None,
            self_link: None,
            uid: None,
        }
    }
}

impl ObjectMeta {
    /// The name of the object, or else the prefix its name is generated from,
    /// or else the empty string.
    pub fn name_any(&self) -> (res: String)
        ensures
            res@ == self@.name_any(),
    {
        match &self.name {
            Some(name) => name.clone(),
            None => text_or_empty(&self.generate_name),
        }
    }

    /// The namespace of the object, or else the empty string.
    pub fn namespace_or_empty(&self) -> (res: String)
        ensures
            res@ == text::or_empty(self@.namespace),
    {
        text_or_empty(&self.namespace)
    }
}

/// The string, or else the empty one.
pub fn text_or_empty(o: &Option<String>) -> (res: String)
    ensures
        res@ == text::or_empty(text::view_opt(*o)),
{
    match o {
        Some(t) => t.clone(),
        None => String::new(),
    }
}

impl GroupVersionKindView {
    /// The version, with the group in front of it where there is one.
    pub open spec fn api_version(self) -> Text {
        if self.group.len() == 0 {
            self.version
        } else {
            self.group + "/"@ + self.version
        }
    }
}

impl GroupVersionKind {
    /// The version, with the group in front of it where there is one.
    pub fn api_version(&self) -> (res: String)
        ensures
            res@ == self@.api_version(),
    {
        if self.group.as_str().is_empty() {
            self.version.clone()
        } else {
            let mut res = self.group.clone();
            res.append("/");
            res.append(self.version.as_str());
            res
        }
    }

    /// Whether both are the same kind.
    pub fn same(&self, other: &Self) -> (res: bool)
        ensures
            res == (self@ == other@),
    {
        self.group == other.group && self.version == other.version && self.kind == other.kind
    }
}

impl GroupVersionKindView {
    /// Whether a plural can be guessed for the kind.
    pub open spec fn has_plural(self) -> bool {
        self.kind != "y"@ && self.kind != "Y"@
    }

    /// Where the API serves the objects of the kind.
    pub open spec fn api_resource(self) -> ApiResourceView {
        ApiResourceView {
            group: self.group,
            version: self.version,
            api_version: self.api_version(),
            kind: self.kind,
            plural: outside::guessed_plural(self.kind),
        }
    }
}

impl GroupVersionKind {
    /// Whether a plural can be guessed for the kind.
    pub fn has_plural(&self) -> (res: bool)
        ensures
            res == self@.has_plural(),
    {
        !text::same_text(self.kind.as_str(), "y") && !text::same_text(self.kind.as_str(), "Y")
    }
}

impl ApiResource {
    /// Where the API serves the objects of the kind, with a guessed plural.
    pub fn from_gvk(gvk: &GroupVersionKind) -> (res: Self)
        requires
            gvk@.has_plural(),
        ensures
            res@ == gvk@.api_resource(),
    {
        outside::guess_api_resource(gvk)
    }
}

/// Looking a key up gives the value of the first pair that has it, and nothing
/// where none has.
pub proof fn law_lookup_finds_the_first(pairs: Seq<(Text, Text)>, key: Text)
    ensures
        match lookup(pairs, key) {
            Some(v) => exists|i: int|
                0 <= i < pairs.len() && #[trigger] pairs[i] == (key, v) && forall|j: int|
                    0 <= j < i ==> (#[trigger] pairs[j]).0 != key,
            None => forall|i: int| 0 <= i < pairs.len() ==> (#[trigger] pairs[i]).0 != key,
        },
    decreases pairs.len(),
{
    if pairs.len() > 0 {
        let rest = pairs.drop_first();
        if pairs[0].0 == key {
            assert(pairs[0] == (key, pairs[0].1));
        } else {
            law_lookup_finds_the_first(rest, key);
            match lookup(rest, key) {
                Some(v) => {
                    let i = choose|i: int|
                        0 <= i < rest.len() && #[trigger] rest[i] == (key, v) && forall|j: int|
                            0 <= j < i ==> (#[trigger] rest[j]).0 != key;
                    assert(pairs[i + 1] == (key, v));
                    assert forall|j: int| 0 <= j < i + 1 implies (#[trigger] pairs[j]).0 != key by {
                        if j > 0 {
                            assert(rest[j - 1] == pairs[j]);
                        }
                    }
                },
                None => {
                    assert forall|i: int| 0 <= i < pairs.len() implies (#[trigger] pairs[i]).0
                        != key by {
                        if i > 0 {
                            assert(rest[i - 1] == pairs[i]);
                        }
                    }
                },
            }
        }
    }
}

/// What a map holds after an insertion: the new pair, and the pairs under other
/// keys that it held before.
pub proof fn law_insertion_replaces_one_pair(
    pairs: Seq<(Text, Text)>,
    key: Text,
    value: Text,
    pair: (Text, Text),
)
    requires
        ascending(pairs),
    ensures
        with_entry(pairs, key, value).contains(pair) <==> if pair.0 == key {
            pair.1 == value
        } else {
            pairs.contains(pair)
        },
    decreases pairs.len(),
{
    let after = with_entry(pairs, key, value);
    lemma_with_entry_lookup(pairs, key, value, pair.0);
    law_keys_ascend(pairs, key, value);
    lemma_ascending_lookup(pairs, pair);
    lemma_ascending_lookup(after, pair);
}

/// In a map, a pair is there exactly where it is found under its key.
proof fn lemma_ascending_lookup(pairs: Seq<(Text, Text)>, pair: (Text, Text))
    requires
        ascending(pairs),
    ensures
        pairs.contains(pair) <==> lookup(pairs, pair.0) == Some(pair.1),
{
    law_lookup_finds_the_first(pairs, pair.0);
    if pairs.contains(pair) {
        let k = choose|k: int| 0 <= k < pairs.len() && pairs[k] == pair;
        match lookup(pairs, pair.0) {
            Some(v) => {
                let i = choose|i: int|
                    0 <= i < pairs.len() && #[trigger] pairs[i] == (pair.0, v) && forall|j: int|
                        0 <= j < i ==> (#[trigger] pairs[j]).0 != pair.0;
                text::lemma_text_order(pair.0, pair.0, pair.0);
                if i < k {
                    assert(text::text_precedes(pairs[i].0, pairs[k].0));
                }
                if k < i {
                    assert(pairs[k].0 != pair.0);
                }
            },
            None => {
                assert(pairs[k].0 != pair.0);
            },
        }
    }
    if lookup(pairs, pair.0) == Some(pair.1) {
        let i = choose|i: int|
            0 <= i < pairs.len() && #[trigger] pairs[i] == (pair.0, pair.1) && forall|j: int|
                0 <= j < i ==> (#[trigger] pairs[j]).0 != pair.0;
        assert(pairs[i] == pair);
    }
}

/// The name of an object is the one that is set. Only where none is, the prefix of
/// a generated name stands for it, and the empty text where there is none either.
pub proof fn law_name_is_the_one_that_is_set(m: ObjectMetaView)
    ensures
        m.name matches Some(n) ==> m.name_any() == n,
        m.name is None ==> (m.generate_name matches Some(n) ==> m.name_any() == n),
        m.name is None && m.generate_name is None ==> m.name_any().len() == 0,
{
}

/// The finalizers are those of the list, none where there is no list.
pub proof fn law_finalizers_are_those_listed(m: ObjectMetaView, f: Text)
    ensures
        m.finalizer_list().contains(f) <==> (m.finalizers matches Some(list) && list.contains(f)),
        m.finalizers matches Some(list) ==> m.finalizer_list() == list,
{
}

/// The version of the API names the group, but for the core group, which has no
/// name: the two can be told apart again.
pub proof fn law_api_version_names_the_group(g: GroupVersionKindView)
    ensures
        g.group.len() == 0 ==> g.api_version() == g.version,
        g.group.len() > 0 ==> g.api_version() == g.group + seq!['/'] + g.version,
        g.group.len() > 0 && !g.group.contains('/') && !g.version.contains('/') ==> text::split(
            g.api_version(),
            '/',
        ) == seq![g.group, g.version],
{
    reveal_strlit("/");
    assert("/"@ =~= seq!['/']);
    if g.group.len() > 0 && !g.group.contains('/') && !g.version.contains('/') {
        text::lemma_split_pair(g.group, g.version, '/');
        assert(g.api_version() =~= g.group.push('/') + g.version);
    }
}

/// The API is asked for the objects of a kind at the group, version and kind of
/// that kind, and the plural depends on the kind alone.
pub proof fn law_resource_is_that_of_the_kind(g: GroupVersionKindView)
    ensures
        g.api_resource().group == g.group,
        g.api_resource().version == g.version,
        g.api_resource().kind == g.kind,
        g.api_resource().api_version == if g.group.len() == 0 {
            g.version
        } else {
            g.group + "/"@ + g.version
        },
        g.api_resource().plural == outside::guessed_plural(g.kind),
        g.kind != "y"@ && g.kind != "Y"@ ==> g.has_plural(),
{
}

/// Whether the finalizer is among those that are listed.
pub open spec fn carries(m: ObjectMetaView, finalizer: Text) -> bool {
    match m.finalizers {
        Some(list) => list.contains(finalizer),
        None => false,
    }
}

/// A map hands out what was put in last under a key, and keeps what stands under the
/// other keys. A new one holds nothing.
pub proof fn law_map_hands_out_what_was_put_in(
    empty: StringMap,
    m: &mut StringMap,
    key: String,
    value: String,
    n: &StringMap,
    asked: &str,
    found: Option<&String>,
)
    requires
        call_ensures(StringMap::new, (), empty),
        call_ensures(StringMap::insert, (m, key, value), ()),
        call_ensures(StringMap::get, (n, asked), found),
        n@ == final(m)@,
    ensures
        empty@.len() == 0,
        asked@ == key@ ==> (found matches Some(v) && v@ == value@),
        asked@ != key@ ==> (match lookup(old(m)@, asked@) {
            Some(w) => found matches Some(v) && v@ == w,
            None => found is None,
        }),
{
    lemma_with_entry_lookup(old(m)@, key@, value@, asked@);
}

/// What metadata and kinds are asked for is what the laws on them say.
pub proof fn law_what_metadata_tells(
    m: &ObjectMeta,
    name: String,
    namespace: String,
    unset: ObjectMeta,
    g: &GroupVersionKind,
    h: &GroupVersionKind,
    version: String,
    is_same: bool,
    plural: bool,
    resource: ApiResource,
)
    requires
        call_ensures(ObjectMeta::name_any, (m,), name),
        call_ensures(ObjectMeta::namespace_or_empty, (m,), namespace),
        call_ensures(<ObjectMeta as Default>::default, (), unset),
        call_ensures(GroupVersionKind::api_version, (g,), version),
        call_ensures(GroupVersionKind::same, (g, h), is_same),
        call_ensures(GroupVersionKind::has_plural, (g,), plural),
        call_ensures(ApiResource::from_gvk, (g,), resource),
    ensures
        m.name matches Some(n) ==> name@ == n@,
        m.name is None ==> (m.generate_name matches Some(n) ==> name@ == n@),
        m.namespace matches Some(n) ==> namespace@ == n@,
        m.namespace is None ==> namespace@.len() == 0,
        unset@ == (ObjectMetaView {
            annotations: None,
            creation_timestamp: None,
            deletion_grace_period_seconds: None,
            deletion_timestamp: None,
            finalizers: None,
            generate_name: None,
            generation: None,
            labels: None,
            managed_fields: None,
            name: None,
            namespace: None,
            owner_references: None,
            resource_version: None,
            self_link: None,
            uid: None,
        }),
        version@ == if g.group@.len() == 0 {
            g.version@
        } else {
            g.group@ + "/"@ + g.version@
        },
        is_same <==> g.group@ == h.group@ && g.version@ == h.version@ && g.kind@ == h.kind@,
        plural == g@.has_plural(),
        resource.group@ == g.group@ && resource.version@ == g.version@ && resource.kind@ == g.kind@,
        resource.api_version@ == version@,
{
}

/// Whether this is the name of the object: the one that is set, or else the prefix
/// that it is generated from, or else the empty one.
pub open spec fn is_named(m: ObjectMetaView, name: Text) -> bool {
    match (m.name, m.generate_name) {
        (Some(n), _) => name == n,
        (None, Some(n)) => name == n,
        (None, None) => name.len() == 0,
    }
}

/// Whether this is the namespace of the object: the one that is set, or else the
/// empty one.
pub open spec fn is_in(m: ObjectMetaView, namespace: Text) -> bool {
    match m.namespace {
        Some(n) => namespace == n,
        None => namespace.len() == 0,
    }
}

/// The name and the namespace of an object that are used are its own.
pub proof fn law_used_name_is_its_own(m: ObjectMetaView, name: Text, namespace: Text)
    ensures
        is_named(m, name) <==> m.name_any() == name,
        is_in(m, namespace) <==> text::or_empty(m.namespace) == namespace,
{
    if m.name is None && m.generate_name is None && name.len() == 0 {
        assert(name =~= Seq::<char>::empty());
    }
    if m.namespace is None && namespace.len() == 0 {
        assert(namespace =~= Seq::<char>::empty());
    }
}

} // verus!
