use object_syncer::api::{
    Condition, Destination, DestinationStatus, ObjectRevision, ObjectSync, ObjectSyncSpec,
    ObjectSyncStatus, SourceObject, SyncStrategy,
};
use object_syncer::meta::{ApiResource, DynamicObject, Entry, GroupVersionKind, ObjectMeta, StringMap};
use object_syncer::utils::{NamespacedName, ObjectSyncRef, SourceRef};
use object_syncer::wire::status_to_json;
use std::cmp::Ordering;

fn meta(namespace: &str, name: &str) -> ObjectMeta {
    ObjectMeta {
        name: Some(name.to_string()),
        namespace: Some(namespace.to_string()),
        ..Default::default()
    }
}

fn object_sync(namespace: &str, name: &str, source: &str) -> ObjectSync {
    ObjectSync {
        metadata: meta(namespace, name),
        spec: ObjectSyncSpec {
            source: SourceObject {
                group: "".to_string(),
                version: None,
                kind: "ConfigMap".to_string(),
                name: source.to_string(),
                namespace: None,
            },
            destinations: vec![],
        },
        status: None,
    }
}

fn status(namespace: &str, name: &str) -> DestinationStatus {
    DestinationStatus {
        name: name.to_string(),
        namespace: namespace.to_string(),
        group: "".to_string(),
        version: "v1".to_string(),
        kind: "ConfigMap".to_string(),
        source_version: None,
        synced_version: None,
        strategy: None,
    }
}

#[test]
fn it_works() {
    let p = ObjectSyncSpec {
        source: SourceObject {
            group: "".to_string(),
            version: Default::default(),
            kind: "ConfigMap".to_string(),
            name: "x".to_string(),
            namespace: None,
        },
        destinations: vec![],
    };
    assert_eq!(
        r#"{"source":{"group":"","kind":"ConfigMap","name":"x"},"destinations":[]}"#,
        p.to_json()
    );
}

#[test]
fn sync_strategy() {
    assert_eq!(r#""apply""#, SyncStrategy::Apply.to_json());
    assert_eq!(r#""replace""#, SyncStrategy::Replace.to_json());
}

#[test]
fn destination() {
    let source_namespace = Destination {
        name: None,
        namespace: "source_namespace".to_string(),
        strategy: None,
    };

    let source_namespace_other_name = Destination {
        name: Some("you".to_string()),
        namespace: "source_namespace".to_string(),
        strategy: None,
    };

    let other_namespace = Destination {
        name: None,
        namespace: "other_namespace".to_string(),
        strategy: None,
    };

    let all_namespaces = Destination {
        name: None,
        namespace: "*".to_string(),
        strategy: None,
    };

    let all_namespaces_other_name = Destination {
        name: Some("you".to_string()),
        namespace: "*".to_string(),
        strategy: None,
    };

    let obj = ObjectSync {
        metadata: ObjectMeta {
            name: Some("me".to_string()),
            namespace: Some("source_namespace".to_string()),
            ..Default::default()
        },
        spec: ObjectSyncSpec {
            source: SourceObject {
                group: "".to_string(),
                version: None,
                kind: "ConfigMap".to_string(),
                name: "me".to_string(),
                namespace: None,
            },
            destinations: Default::default(),
        },
        status: None,
    };

    // Do not overwrite source (same name & namespace)
    assert!(all_namespaces.applies_to(&obj, "source_namespace").is_none());
    assert!(source_namespace.applies_to(&obj, "source_namespace").is_none());
    // Apply if not source but same namespace
    assert!(all_namespaces_other_name.applies_to(&obj, "source_namespace").is_some());
    assert!(source_namespace_other_name.applies_to(&obj, "source_namespace").is_some());
    // Apply if different namespace
    assert!(all_namespaces.applies_to(&obj, "other_namespace").is_some());
    assert!(other_namespace.applies_to(&obj, "other_namespace").is_some());
    assert!(all_namespaces_other_name.applies_to(&obj, "other_namespace").is_some());
    // Refuse if destination namespace does not match
    assert!(source_namespace_other_name.applies_to(&obj, "other_namespace").is_none());
    assert!(other_namespace.applies_to(&obj, "source_namespace").is_none());
}

#[test]
fn copy_has_the_name_that_was_asked_for() {
    let o = object_sync("default", "sync", "config");
    let renamed = Destination {
        name: Some("other".to_string()),
        namespace: "".to_string(),
        strategy: Some(SyncStrategy::Replace),
    };
    let same = Destination { name: None, namespace: "*".to_string(), strategy: None };
    assert_eq!(
        renamed.applies_to(&o, "default"),
        Some(("default".to_string(), "other".to_string()))
    );
    assert_eq!(same.applies_to(&o, "a"), Some(("a".to_string(), "config".to_string())));
    assert_eq!(same.applies_to(&o, "default"), None);
    assert!(renamed.applies_to_all_namespaces());
    assert_eq!(renamed.strategy(), SyncStrategy::Replace);
    assert_eq!(same.strategy(), SyncStrategy::Apply);
}

#[test]
fn source_namespace_defaults_to_own_namespace() {
    let mut o = object_sync("default", "sync", "config");
    assert_eq!(o.source_namespace(), Some("default".to_string()));
    assert_eq!(o.source_name(), "config");
    o.spec.source.namespace = Some("public".to_string());
    assert_eq!(o.source_namespace(), Some("public".to_string()));
    assert_eq!(o.id(), "default/sync");
    assert_eq!(o.versioned_id(), "default/sync@");
    o.metadata.resource_version = Some("17".to_string());
    assert_eq!(o.versioned_id(), "default/sync@17");
    let none = ObjectSync { metadata: ObjectMeta::default(), ..o };
    assert_eq!(none.id(), "/");
}

#[test]
fn equal_destinations_are_listed_once() {
    let a = Destination { name: None, namespace: "a".to_string(), strategy: None };
    let b = Destination { name: None, namespace: "b".to_string(), strategy: None };
    let mut o = object_sync("default", "sync", "config");
    o.spec.destinations = vec![a.clone(), b.clone(), a.clone()];
    assert_eq!(o.spec.destinations(), vec![&a, &b]);
}

#[test]
fn condition_status_is_spelled_out() {
    let c = Condition::new("Ready", Some(true), "Success", "fine".to_string());
    assert_eq!(
        (c.type_.as_str(), c.status.as_str(), c.reason.as_str(), c.message.as_str()),
        ("Ready", "True", "Success", "fine")
    );
    assert_eq!(c.last_transition_time, None);
    assert_eq!(Condition::new("Ready", Some(false), "", "".to_string()).status, "False");
    assert_eq!(Condition::new("Ready", None, "", "".to_string()).status, "Unknown");
}

#[test]
fn conditions_are_replaced_by_type() {
    let mut s = ObjectSyncStatus::default();
    s.update_condition_at(
        Condition::new("Ready", Some(true), "Success", "registered".to_string()),
        "2024-01-01T00:00:00Z".to_string(),
    );
    s.update_condition_at(
        Condition::new("InSync", Some(false), "Failure", "1 out of 2".to_string()),
        "2024-01-02T00:00:00Z".to_string(),
    );
    s.update_condition_at(
        Condition::new("Ready", Some(false), "Failure", "lost".to_string()),
        "2024-01-03T00:00:00Z".to_string(),
    );
    let conditions = s.conditions.clone().unwrap();
    let types: Vec<&str> = conditions.iter().map(|c| c.type_.as_str()).collect();
    assert_eq!(types, vec!["InSync", "Ready"]);
    assert_eq!(conditions[0].last_transition_time.as_deref(), Some("2024-01-02T00:00:00Z"));
    assert_eq!(conditions[1].last_transition_time.as_deref(), Some("2024-01-03T00:00:00Z"));
    // The condition of that type already says so.
    s.update_condition_at(
        Condition::new("InSync", Some(false), "Failure", "1 out of 2".to_string()),
        "2024-01-04T00:00:00Z".to_string(),
    );
    assert_eq!(s.conditions, Some(conditions));
}

#[test]
fn conditions_of_different_types_may_say_the_same() {
    let mut s = ObjectSyncStatus::default();
    s.update_condition_at(
        Condition::new("Ready", Some(true), "Success", "m".to_string()),
        "2024-01-01T00:00:00Z".to_string(),
    );
    s.update_condition_at(
        Condition::new("InSync", Some(true), "Success", "m".to_string()),
        "2024-01-02T00:00:00Z".to_string(),
    );
    let conditions = s.conditions.clone().unwrap();
    let said: Vec<(&str, &str)> =
        conditions.iter().map(|c| (c.type_.as_str(), c.status.as_str())).collect();
    assert_eq!(said, vec![("Ready", "True"), ("InSync", "True")]);
    // Neither is recorded again, wherever it stands in the list.
    for type_ in ["InSync", "Ready"] {
        s.update_condition_at(
            Condition::new(type_, Some(true), "Success", "m".to_string()),
            "2024-01-03T00:00:00Z".to_string(),
        );
    }
    assert_eq!(s.conditions, Some(conditions));
}

#[test]
fn transition_time_follows_the_status() {
    let mut s = ObjectSyncStatus::default();
    let mut record = |status: bool, message: &str, time: &str| {
        s.update_condition_at(
            Condition::new("InSync", Some(status), "Reason", message.to_string()),
            time.to_string(),
        );
        let c = s.conditions.clone().unwrap();
        assert_eq!(c.len(), 1);
        (c[0].message.clone(), c[0].last_transition_time.clone().unwrap())
    };
    let first = "2024-01-01T00:00:00Z".to_string();
    assert_eq!(record(false, "1 out of 3", &first), ("1 out of 3".to_string(), first.clone()));
    // Another message for the same status keeps the time.
    assert_eq!(
        record(false, "2 out of 3", "2024-01-02T00:00:00Z"),
        ("2 out of 3".to_string(), first)
    );
    let last = "2024-01-03T00:00:00Z".to_string();
    assert_eq!(record(true, "3 out of 3", &last), ("3 out of 3".to_string(), last));
}

#[test]
fn condition_is_recorded_at_the_current_time() {
    let mut o = object_sync("default", "sync", "config");
    o.update_condition(Condition::new("Ready", Some(true), "Success", "".to_string()));
    let conditions = o.status.clone().unwrap().conditions.unwrap();
    let time = conditions[0].last_transition_time.clone().unwrap();
    assert_eq!(time.len(), 20);
    assert!(time.starts_with("20") && time.ends_with('Z') && !time.contains('.'));
    let separators: Vec<(usize, char)> =
        time.char_indices().filter(|(_, c)| !c.is_ascii_digit()).collect();
    assert_eq!(
        separators,
        vec![(4, '-'), (7, '-'), (10, 'T'), (13, ':'), (16, ':'), (19, 'Z')]
    );
    let mut s = ObjectSyncStatus::default();
    s.update_condition(Condition::new("Ready", None, "", "".to_string()));
    assert!(s.conditions.unwrap()[0].last_transition_time.is_some());
}

#[test]
fn destinations_are_replaced() {
    let mut o = object_sync("default", "sync", "config");
    assert!(o.status_destinations().is_none());
    o.update_destinations(vec![status("a", "x")]);
    assert_eq!(o.status_destinations(), Some(&vec![status("a", "x")]));
    o.update_destinations(vec![]);
    assert_eq!(o.status_destinations(), Some(&vec![]));
}

#[test]
fn destinations_are_ordered_by_place() {
    let a = status("a", "z");
    let b = status("b", "a");
    let c = status("b", "c");
    assert_eq!(a.cmp(&b), Ordering::Less);
    assert_eq!(c.cmp(&b), Ordering::Greater);
    let mut other = status("b", "a");
    other.kind = "Secret".to_string();
    assert_eq!(b.cmp(&other), Ordering::Equal);
    assert!(a < b && b < c);
    assert_eq!(b.partial_cmp(&c), Some(Ordering::Less));
    // Capital letters come first, and a prefix comes before what continues it.
    assert!(status("B", "a") < status("a", "a"));
    assert!(status("ns", "a") < status("ns1", "a"));
}

#[test]
fn sorting_is_stable_and_deterministic() {
    let mut x = status("b", "a");
    x.kind = "Secret".to_string();
    let list = vec![status("c", "a"), x.clone(), status("b", "a"), status("a", "q")];
    let sorted = object_syncer::destination_order::sort_destinations(list);
    assert_eq!(sorted, vec![status("a", "q"), x, status("b", "a"), status("c", "a")]);
    let one = vec![status("a", "1"), status("b", "2"), status("a", "2")];
    let two = vec![status("b", "2"), status("a", "2"), status("a", "1")];
    assert_eq!(
        object_syncer::destination_order::sort_destinations(one),
        object_syncer::destination_order::sort_destinations(two)
    );
}

#[test]
fn revision_is_taken_from_metadata() {
    let mut m = meta("a", "b");
    m.uid = Some("u".to_string());
    m.resource_version = Some("7".to_string());
    let r = ObjectRevision::from(&m);
    assert_eq!(r.uid.as_deref(), Some("u"));
    assert_eq!(r.resource_version.as_deref(), Some("7"));
    assert!(r.same(&ObjectRevision { uid: m.uid, resource_version: m.resource_version }));
    assert!(!r.same(&ObjectRevision { uid: None, resource_version: Some("7".to_string()) }));
}

#[test]
fn status_is_written_as_json() {
    assert_eq!(status_to_json(&None), "null");
    let mut d = status("a", "quo\"ted\n");
    d.source_version = Some(ObjectRevision { uid: Some("u".to_string()), resource_version: None });
    let s = ObjectSyncStatus { conditions: None, destinations: Some(vec![d]) };
    let json = status_to_json(&Some(s));
    let value: serde_json::Value = serde_json::from_str(&json).unwrap();
    assert_eq!(value["destinations"][0]["name"], "quo\"ted\n");
    assert_eq!(value["destinations"][0]["namespace"], "a");
    assert_eq!(value["destinations"][0]["sourceVersion"]["uid"], "u");
    assert!(value["conditions"].is_null());
}

#[test]
fn texts_are_escaped_in_json() {
    let d = Destination {
        name: Some("\"\\\u{8}\u{c}\n\r\t\u{1}\u{1f}\u{7f}\u{fc}/".to_string()),
        namespace: "a".to_string(),
        strategy: None,
    };
    assert_eq!(
        d.to_json(),
        "{\"name\":\"\\\"\\\\\\b\\f\\n\\r\\t\\u0001\\u001f\u{7f}\u{fc}/\",\"namespace\":\"a\"}"
    );
}

#[test]
fn objects_are_written_as_json() {
    let mut o = object_sync("default", "sync", "config");
    o.metadata.generation = Some(-3);
    let value: serde_json::Value = serde_json::from_str(&o.to_json()).unwrap();
    assert_eq!(value["apiVersion"], "sync.rustrial.org/v1alpha1");
    assert_eq!(value["kind"], "ObjectSync");
    assert_eq!(value["metadata"]["generation"], -3);
    assert_eq!(value["spec"]["source"]["name"], "config");
    let d = DynamicObject {
        types: None,
        metadata: meta("a", "b"),
        data: vec![Entry { key: "data".to_string(), value: "{\"k\":\"v\"}".to_string() }],
    };
    let value: serde_json::Value = serde_json::from_str(&d.to_json()).unwrap();
    assert_eq!(value["metadata"]["name"], "b");
    assert_eq!(value["data"]["k"], "v");
}

#[test]
fn labels_keep_the_order_of_keys() {
    let mut m = StringMap::new();
    m.insert("b".to_string(), "1".to_string());
    m.insert("a".to_string(), "2".to_string());
    m.insert("c".to_string(), "3".to_string());
    m.insert("b".to_string(), "4".to_string());
    let keys: Vec<&str> = m.entries().iter().map(|e| e.key.as_str()).collect();
    assert_eq!(keys, vec!["a", "b", "c"]);
    assert_eq!(m.get("b"), Some(&"4".to_string()));
    assert_eq!(m.get("d"), None);
}

#[test]
fn plural_of_a_kind_is_guessed() {
    let gvk = GroupVersionKind {
        group: "networking.k8s.io".to_string(),
        version: "v1".to_string(),
        kind: "NetworkPolicy".to_string(),
    };
    assert!(gvk.has_plural());
    let r = ApiResource::from_gvk(&gvk);
    assert_eq!(r.plural, "networkpolicies");
    assert_eq!(r.api_version, "networking.k8s.io/v1");
    assert_eq!(gvk.path(), "networking.k8s.io/v1/NetworkPolicy");
    let core = GroupVersionKind { group: "".to_string(), ..gvk.clone() };
    assert_eq!(core.api_version(), "v1");
    assert!(!core.same(&gvk));
    assert!(!GroupVersionKind { kind: "y".to_string(), ..gvk }.has_plural());
}

#[test]
fn names_are_written_with_a_slash() {
    let o = object_sync("default", "sync", "config");
    assert_eq!(ObjectSyncRef::from(&o).to_string(), "default/sync");
    let m = object_syncer::object_sync_modifications::ObjectSyncModifications::new(o);
    assert_eq!(m.id().to_string(), "default/sync");
    assert_eq!(SourceRef::from(&m).to_string(), "default/config");
    let generated = ObjectMeta { generate_name: Some("g-".to_string()), ..Default::default() };
    let d = DynamicObject { types: None, metadata: generated, data: vec![] };
    assert_eq!(NamespacedName::from(&d).to_string(), "/g-");
    let r = NamespacedName::from(&d).object_ref(&ApiResource::from_gvk(&GroupVersionKind {
        group: "".to_string(),
        version: "v1".to_string(),
        kind: "Secret".to_string(),
    }));
    assert_eq!((r.name.as_str(), r.namespace.as_deref()), ("g-", Some("")));
    assert_eq!(r.resource.plural, "secrets");
}
