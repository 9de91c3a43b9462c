use object_syncer::api::{
    Destination, DestinationStatus, ObjectRevision, ObjectSync, ObjectSyncSpec, ObjectSyncStatus,
    SourceObject, SyncStrategy, SOURCE_OBJECT_ANNOTATION,
};
use object_syncer::conditions::in_sync_condition;
use object_syncer::configuration::Configuration;
use object_syncer::delete_destinations::{DeleteAction, DeleteDestinations, DeleteReply};
use object_syncer::destinations::ExpectedDestination;
use object_syncer::errors::{ControllerError, KubeError};
use object_syncer::meta::{DynamicObject, Entry, GroupVersionKind, ObjectMeta, StringMap};
use object_syncer::object_sync_modifications::ObjectSyncModifications;
use object_syncer::reconcile_source::{ReconcileAction, ReconcileReply, ReconcileSource};
use object_syncer::request::{FINALIZER, MANAGER};
use object_syncer::resource_controller::ResourceControllerImpl;
use object_syncer::source_deleted::{SourceDeleted, SourceDeletedAction, SourceDeletedReply};
use object_syncer::upsert_destinations::{
    make_copy, UpsertAction, UpsertDestinations, UpsertOutcome, UpsertReply, MANAGED_BY_LABEL,
};

fn gvk() -> GroupVersionKind {
    GroupVersionKind {
        group: "".to_string(),
        version: "v1".to_string(),
        kind: "ConfigMap".to_string(),
    }
}

fn controller() -> ResourceControllerImpl {
    ResourceControllerImpl::new(Configuration::new(None, None, None), gvk())
}

fn revision(uid: &str, version: &str) -> ObjectRevision {
    ObjectRevision { uid: Some(uid.to_string()), resource_version: Some(version.to_string()) }
}

fn object(namespace: &str, name: &str, uid: &str, version: &str) -> DynamicObject {
    DynamicObject {
        types: None,
        metadata: ObjectMeta {
            name: Some(name.to_string()),
            namespace: Some(namespace.to_string()),
            uid: Some(uid.to_string()),
            resource_version: Some(version.to_string()),
            ..Default::default()
        },
        data: vec![Entry { key: "data".to_string(), value: "{\"k\":\"v\"}".to_string() }],
    }
}

fn source() -> DynamicObject {
    object("default", "config", "src", "1")
}

fn unsynced(namespace: &str) -> DestinationStatus {
    DestinationStatus {
        name: "config".to_string(),
        namespace: namespace.to_string(),
        group: "".to_string(),
        version: "v1".to_string(),
        kind: "ConfigMap".to_string(),
        source_version: None,
        synced_version: None,
        strategy: None,
    }
}

fn synced(namespace: &str, source: &str, copy: &str) -> DestinationStatus {
    DestinationStatus {
        source_version: Some(revision("src", source)),
        synced_version: Some(revision("dst", copy)),
        ..unsynced(namespace)
    }
}

fn to(namespace: &str) -> Destination {
    Destination { name: None, namespace: namespace.to_string(), strategy: None }
}

fn namespace(name: &str, deleted: bool) -> ObjectMeta {
    ObjectMeta {
        name: Some(name.to_string()),
        deletion_timestamp: if deleted { Some("2024-01-01T00:00:00Z".to_string()) } else { None },
        ..Default::default()
    }
}

fn event(destinations: Vec<Destination>, known: Option<Vec<DestinationStatus>>) -> ObjectSyncModifications {
    ObjectSyncModifications::new(ObjectSync {
        metadata: ObjectMeta {
            name: Some("sync".to_string()),
            namespace: Some("default".to_string()),
            ..Default::default()
        },
        spec: ObjectSyncSpec {
            source: SourceObject {
                group: "".to_string(),
                version: None,
                kind: "ConfigMap".to_string(),
                name: "config".to_string(),
                namespace: None,
            },
            destinations,
        },
        status: known.map(|d| ObjectSyncStatus { conditions: None, destinations: Some(d) }),
    })
}

fn refused(code: u16) -> KubeError {
    KubeError::Api { code, message: format!("code {}", code) }
}

fn expected(namespace: &str) -> ExpectedDestination {
    ExpectedDestination {
        namespace: namespace.to_string(),
        name: "config".to_string(),
        strategy: None,
    }
}

const TIME: &str = "2024-01-01T00:00:00Z";

#[test]
fn wildcard_expects_a_copy_in_every_live_namespace() {
    let e = event(vec![to("*")], None);
    let all = vec![
        namespace("default", false),
        namespace("a", false),
        namespace("gone", true),
        namespace("b", false),
    ];
    assert_eq!(
        ResourceControllerImpl::expected_destinations(&e.modified, &all),
        vec![expected("a"), expected("b")]
    );
}

#[test]
fn named_namespace_has_to_be_there_and_live() {
    let e = event(vec![to("a"), to("gone"), to("missing"), to("default"), to("a")], None);
    let all = vec![namespace("default", false), namespace("a", false), namespace("gone", true)];
    assert_eq!(
        ResourceControllerImpl::expected_destinations(&e.modified, &all),
        vec![expected("a"), expected("a")]
    );
}

#[test]
fn plan_keeps_what_is_known_and_finds_stale_copies() {
    let known = vec![synced("a", "1", "7"), synced("old", "1", "8")];
    let e = event(vec![to("a"), to("b"), to("a")], Some(known));
    let all = vec![namespace("a", false), namespace("b", false), namespace("old", false)];
    let plan = controller().plan(&e.modified, &all);
    // Only the first expectation of a copy takes over what is known of it.
    assert_eq!(plan.expected, vec![synced("a", "1", "7"), unsynced("b"), unsynced("a")]);
    assert_eq!(plan.stale, vec![synced("old", "1", "8")]);
}

#[test]
fn plan_forgets_revisions_when_the_strategy_changes() {
    let known = vec![synced("a", "1", "7")];
    let replace = Destination { strategy: Some(SyncStrategy::Replace), ..to("a") };
    let e = event(vec![replace], Some(known.clone()));
    let plan = controller().plan(&e.modified, &vec![namespace("a", false)]);
    assert_eq!(
        plan.expected,
        vec![DestinationStatus { strategy: Some(SyncStrategy::Replace), ..unsynced("a") }]
    );
    assert!(plan.stale.is_empty());
    // The default strategy is the same whether it is spelled out or not.
    let apply = Destination { strategy: Some(SyncStrategy::Apply), ..to("a") };
    let plan = controller().plan(&event(vec![apply], Some(known)).modified, &vec![namespace("a", false)]);
    assert_eq!(plan.expected[0].synced_version, Some(revision("dst", "7")));
}

#[test]
fn same_destination_looks_at_the_kind_but_not_at_the_version() {
    let a = unsynced("a");
    let newer = DestinationStatus { version: "v2".to_string(), ..unsynced("a") };
    let other = DestinationStatus { kind: "Secret".to_string(), ..unsynced("a") };
    assert!(ResourceControllerImpl::is_same_destination(&a, &newer));
    assert!(!ResourceControllerImpl::is_same_destination(&a, &other));
    assert!(!ResourceControllerImpl::is_same_destination(&a, &unsynced("b")));
}

#[test]
fn copies_are_deleted_one_after_the_other() {
    let mut m = DeleteDestinations::new(vec![unsynced("a"), unsynced("b"), unsynced("c")]);
    // A copy with the finalizer is patched first.
    assert!(matches!(m.action(), DeleteAction::Get { ref namespace, ref name, .. }
        if namespace == "a" && name == "config"));
    let mut copy = object("a", "config", "u", "1");
    copy.metadata.finalizers = Some(vec![FINALIZER.to_string()]);
    m.step(DeleteReply::Got(Ok(copy)));
    match m.action() {
        DeleteAction::Patch { resource, namespace, patch } => {
            assert_eq!((resource.plural.as_str(), namespace.as_str()), ("configmaps", "a"));
            assert_eq!(patch.operations.len(), 1);
        }
        _ => panic!("no patch"),
    }
    m.step(DeleteReply::Patched(Err(refused(500))));
    assert!(matches!(m.action(), DeleteAction::Delete { ref namespace, .. } if namespace == "a"));
    m.step(DeleteReply::Deleted(Ok(())));
    // A copy that is not there is deleted all the same.
    m.step(DeleteReply::Got(Err(refused(404))));
    assert!(matches!(m.action(), DeleteAction::Delete { ref namespace, .. } if namespace == "b"));
    m.step(DeleteReply::Deleted(Err(refused(410))));
    // A copy without the finalizer is deleted at once.
    m.step(DeleteReply::Got(Ok(object("c", "config", "u", "1"))));
    m.step(DeleteReply::Deleted(Err(refused(403))));
    match m.action() {
        DeleteAction::Done(Ok(remaining)) => assert_eq!(remaining, vec![unsynced("c")]),
        _ => panic!("not done"),
    }
}

#[test]
fn unreadable_copy_ends_the_deletion() {
    let mut m = DeleteDestinations::new(vec![unsynced("a"), unsynced("b")]);
    // An answer that is not waited for changes nothing.
    m.step(DeleteReply::Deleted(Ok(())));
    assert!(matches!(m.action(), DeleteAction::Get { .. }));
    m.step(DeleteReply::Got(Err(refused(500))));
    assert!(matches!(m.action(), DeleteAction::Done(Err(ControllerError::KubeApi(_)))));
    assert!(matches!(
        DeleteDestinations::new(vec![]).action(),
        DeleteAction::Done(Ok(ref r)) if r.is_empty()
    ));
}

#[test]
fn copy_is_marked_and_cleaned() {
    let mut s = source();
    let mut labels = StringMap::new();
    labels.insert("app".to_string(), "x".to_string());
    s.metadata.labels = Some(labels);
    s.metadata.generation = Some(4);
    s.metadata.generate_name = Some("g".to_string());
    s.metadata.managed_fields = Some(vec!["{}".to_string()]);
    s.metadata.owner_references = Some(vec!["{}".to_string()]);
    s.metadata.self_link = Some("l".to_string());
    s.metadata.creation_timestamp = Some(TIME.to_string());
    s.metadata.finalizers = Some(vec!["other".to_string()]);
    let c = make_copy(&s, &unsynced("a"), &revision("u", "3"));
    let m = &c.metadata;
    assert_eq!((m.namespace.as_deref(), m.name.as_deref()), (Some("a"), Some("config")));
    assert_eq!((m.uid.as_deref(), m.resource_version.as_deref()), (Some("u"), Some("3")));
    assert_eq!(m.finalizers, Some(vec![FINALIZER.to_string()]));
    let labels = m.labels.as_ref().unwrap();
    assert_eq!(labels.get(MANAGED_BY_LABEL), Some(&MANAGER.to_string()));
    assert_eq!(labels.get("app"), Some(&"x".to_string()));
    let annotations = m.annotations.as_ref().unwrap();
    assert_eq!(annotations.get(SOURCE_OBJECT_ANNOTATION), Some(&"default/config".to_string()));
    assert!(m.generation.is_none() && m.generate_name.is_none() && m.managed_fields.is_none());
    assert!(m.owner_references.is_none() && m.self_link.is_none() && m.creation_timestamp.is_none());
    assert_eq!(c.data, s.data);
}

#[test]
fn missing_copy_is_created() {
    let mut m = UpsertDestinations::new(source(), vec![unsynced("a")], vec![]);
    assert!(matches!(m.action(), UpsertAction::Get { ref namespace, ref name }
        if namespace == "a" && name == "config"));
    m.step(UpsertReply::Got(Err(refused(404))));
    match m.action() {
        UpsertAction::Create { namespace, params, object } => {
            assert_eq!(namespace, "a");
            assert_eq!(params.field_manager.as_deref(), Some(MANAGER));
            assert_eq!(object.metadata.uid, None);
            assert_eq!(object.metadata.resource_version, None);
        }
        _ => panic!("not created"),
    }
    m.step(UpsertReply::Created(Ok(object("a", "config", "dst", "9"))));
    match m.action() {
        UpsertAction::Done(o) => {
            assert_eq!(o.destinations, vec![synced("a", "1", "9")]);
            assert_eq!((o.changed, o.expected, o.observed), (true, 1, 1));
        }
        _ => panic!("not done"),
    }
}

#[test]
fn copy_in_sync_is_left_alone() {
    let mut m = UpsertDestinations::new(source(), vec![synced("a", "1", "9")], vec![]);
    m.step(UpsertReply::Got(Ok(object("a", "config", "dst", "9"))));
    match m.action() {
        UpsertAction::Done(o) => {
            assert_eq!(o.destinations, vec![synced("a", "1", "9")]);
            assert_eq!((o.changed, o.expected, o.observed), (false, 1, 1));
        }
        _ => panic!("not done"),
    }
}

#[test]
fn drift_is_replaced_or_applied_by_strategy() {
    let replace = DestinationStatus { strategy: Some(SyncStrategy::Replace), ..synced("a", "1", "9") };
    let changed_source = synced("b", "0", "5");
    let mut m = UpsertDestinations::new(source(), vec![replace, changed_source], vec![]);
    m.step(UpsertReply::Got(Ok(object("a", "config", "dst", "10"))));
    match m.action() {
        UpsertAction::Replace { namespace, name, object, .. } => {
            assert_eq!((namespace.as_str(), name.as_str()), ("a", "config"));
            assert_eq!(object.metadata.resource_version.as_deref(), Some("10"));
        }
        _ => panic!("not replaced"),
    }
    m.step(UpsertReply::Written(Ok(object("a", "config", "dst", "11"))));
    m.step(UpsertReply::Got(Ok(object("b", "config", "dst", "5"))));
    match m.action() {
        UpsertAction::Apply { namespace, apply } => {
            assert_eq!((namespace.as_str(), apply.name.as_str()), ("b", "config"));
            assert!(apply.params.force);
            assert_eq!(apply.params.field_manager.as_deref(), Some(MANAGER));
            assert_eq!(apply.object.metadata.uid.as_deref(), Some("dst"));
        }
        _ => panic!("not applied"),
    }
    m.step(UpsertReply::Written(Err(refused(403))));
    match m.action() {
        UpsertAction::Done(o) => {
            assert_eq!(o.destinations[0].synced_version, Some(revision("dst", "11")));
            assert_eq!(o.destinations[0].source_version, Some(revision("src", "1")));
            assert_eq!(o.destinations[1], synced("b", "0", "5"));
            assert_eq!((o.changed, o.expected, o.observed), (true, 2, 1));
        }
        _ => panic!("not done"),
    }
}

#[test]
fn conflicts_are_tried_three_times() {
    let mut m = UpsertDestinations::new(source(), vec![unsynced("a")], vec![]);
    for _ in 0..2 {
        m.step(UpsertReply::Got(Err(refused(404))));
        m.step(UpsertReply::Created(Err(refused(409))));
        assert!(matches!(m.action(), UpsertAction::Get { .. }));
    }
    m.step(UpsertReply::Got(Ok(object("a", "config", "dst", "1"))));
    m.step(UpsertReply::Written(Err(refused(409))));
    match m.action() {
        UpsertAction::Done(o) => assert_eq!((o.changed, o.expected, o.observed), (false, 1, 0)),
        _ => panic!("not done"),
    }
}

#[test]
fn copy_that_is_being_deleted_loses_the_finalizer() {
    let mut m = UpsertDestinations::new(source(), vec![synced("a", "1", "9")], vec![]);
    let mut dying = object("a", "config", "dst", "9");
    dying.metadata.deletion_timestamp = Some(TIME.to_string());
    dying.metadata.finalizers = Some(vec![FINALIZER.to_string()]);
    m.step(UpsertReply::Got(Ok(dying.clone())));
    assert!(matches!(m.action(), UpsertAction::Patch { ref patch, .. } if patch.name == "config"));
    m.step(UpsertReply::Patched(Ok(())));
    assert!(matches!(m.action(), UpsertAction::Get { .. }));
    // Where the patch fails, the copy is looked at as it is.
    m.step(UpsertReply::Got(Ok(dying.clone())));
    m.step(UpsertReply::Patched(Err(refused(500))));
    assert!(matches!(m.action(), UpsertAction::Done(ref o) if o.observed == 1));
    // Without the finalizer there is nothing to patch.
    dying.metadata.finalizers = None;
    let mut m = UpsertDestinations::new(source(), vec![unsynced("a")], vec![]);
    m.step(UpsertReply::Got(Ok(dying)));
    assert!(matches!(m.action(), UpsertAction::Apply { .. }));
}

#[test]
fn remnants_are_not_written() {
    let list = vec![unsynced("a"), unsynced("b"), unsynced("c")];
    let remnants = vec![unsynced("a"), unsynced("c")];
    let mut m = UpsertDestinations::new(source(), list.clone(), remnants);
    assert!(matches!(m.action(), UpsertAction::Get { ref namespace, .. } if namespace == "b"));
    m.step(UpsertReply::Got(Err(refused(500))));
    match m.action() {
        UpsertAction::Done(o) => {
            assert_eq!(o.destinations, list);
            assert_eq!((o.changed, o.expected, o.observed), (false, 3, 0));
        }
        _ => panic!("not done"),
    }
}

#[test]
fn copies_are_tracked_before_they_are_written() {
    let mut e = event(vec![to("*")], Some(vec![unsynced("old"), unsynced("older")]));
    let all = vec![namespace("b", false), namespace("a", false)];
    let mut m = ReconcileSource::new(&controller(), &e, source(), &all);
    assert!(matches!(m.action(), ReconcileAction::DeleteDestinations(ref d)
        if *d == vec![unsynced("old"), unsynced("older")]));
    m.step(&mut e, ReconcileReply::StaleDeleted(Ok(vec![unsynced("old")])));
    assert!(matches!(m.action(), ReconcileAction::ReplaceStatus));
    let listed = vec![unsynced("a"), unsynced("b"), unsynced("old")];
    assert_eq!(e.modified.status_destinations(), Some(&listed));
    assert_eq!(e.status_has_changed(), Ok(true));
    m.step(&mut e, ReconcileReply::StatusReplaced(Ok(())));
    match m.action() {
        ReconcileAction::UpsertDestinations { source: s, destinations, remnants } => {
            assert_eq!(s, source());
            assert_eq!(destinations, listed);
            assert_eq!(remnants, vec![unsynced("old")]);
        }
        _ => panic!("nothing written"),
    }
    let written = vec![synced("a", "1", "2"), synced("b", "1", "2"), unsynced("old")];
    m.step_at(
        &mut e,
        ReconcileReply::Upserted(UpsertOutcome {
            destinations: written.clone(),
            changed: true,
            expected: 3,
            observed: 2,
        }),
        TIME.to_string(),
    );
    assert!(matches!(m.action(), ReconcileAction::ReplaceStatus));
    assert_eq!(e.modified.status_destinations(), Some(&written));
    let c = &e.modified.status.as_ref().unwrap().conditions.as_ref().unwrap()[0];
    assert_eq!((c.type_.as_str(), c.status.as_str(), c.reason.as_str()), ("InSync", "False", "Failure"));
    assert_eq!(c.message, "2 out of 3 destinations are in sync");
    assert_eq!(c.last_transition_time.as_deref(), Some(TIME));
    m.step(&mut e, ReconcileReply::StatusReplaced(Ok(())));
    assert!(matches!(m.action(), ReconcileAction::Done(Ok(()))));
}

#[test]
fn the_state_is_reported_where_no_copy_was_written() {
    let mut e = event(vec![to("a")], Some(vec![synced("a", "1", "2")]));
    let mut m = ReconcileSource::new(&controller(), &e, source(), &vec![namespace("a", false)]);
    m.step(&mut e, ReconcileReply::StaleDeleted(Ok(vec![])));
    assert_eq!(e.status_has_changed(), Ok(false));
    m.step(&mut e, ReconcileReply::StatusReplaced(Ok(())));
    m.step(
        &mut e,
        ReconcileReply::Upserted(UpsertOutcome {
            destinations: vec![synced("a", "1", "2")],
            changed: false,
            expected: 1,
            observed: 1,
        }),
    );
    assert!(matches!(m.action(), ReconcileAction::ReplaceStatus));
    let c = &e.modified.status.as_ref().unwrap().conditions.as_ref().unwrap()[0];
    assert_eq!((c.type_.as_str(), c.status.as_str()), ("InSync", "True"));
    assert_eq!(c.reason, "Success");
    assert_eq!(e.status_has_changed(), Ok(true));
    m.step(&mut e, ReconcileReply::StatusReplaced(Ok(())));
    assert!(matches!(m.action(), ReconcileAction::Done(Ok(()))));
}

#[test]
fn nothing_is_written_where_the_state_is_reported_already() {
    let upserted = |observed: usize| {
        ReconcileReply::Upserted(UpsertOutcome {
            destinations: vec![synced("a", "1", "2")],
            changed: false,
            expected: 1,
            observed,
        })
    };
    let mut e = event(vec![to("a")], Some(vec![synced("a", "1", "2")]));
    e.modified.update_condition_at(in_sync_condition(1, 1), TIME.to_string());
    let stored = e.modified.clone();
    for (observed, changed) in [(1, false), (0, true)] {
        let mut e = ObjectSyncModifications::new(stored.clone());
        let mut m = ReconcileSource::new(&controller(), &e, source(), &vec![namespace("a", false)]);
        m.step(&mut e, ReconcileReply::StaleDeleted(Ok(vec![])));
        m.step(&mut e, ReconcileReply::StatusReplaced(Ok(())));
        m.step(&mut e, upserted(observed));
        assert!(matches!(m.action(), ReconcileAction::ReplaceStatus));
        assert_eq!(e.status_has_changed(), Ok(changed));
        assert_eq!(e.replace_status().unwrap().is_some(), changed);
    }
}

#[test]
fn no_state_is_reported_without_destinations() {
    let mut e = event(vec![], Some(vec![]));
    let mut m = ReconcileSource::new(&controller(), &e, source(), &vec![]);
    m.step(&mut e, ReconcileReply::StaleDeleted(Ok(vec![])));
    m.step(&mut e, ReconcileReply::StatusReplaced(Ok(())));
    m.step(
        &mut e,
        ReconcileReply::Upserted(UpsertOutcome {
            destinations: vec![],
            changed: false,
            expected: 0,
            observed: 0,
        }),
    );
    assert!(matches!(m.action(), ReconcileAction::Done(Ok(()))));
    assert_eq!(e.status_has_changed(), Ok(false));
}

#[test]
fn tracking_is_stable_whatever_the_order_of_namespaces() {
    let known = vec![synced("a", "1", "2"), synced("b", "1", "3")];
    for all in [["a", "b"], ["b", "a"]] {
        let mut e = event(vec![to("*")], Some(known.clone()));
        let namespaces = all.iter().map(|n| namespace(n, false)).collect();
        let mut m = ReconcileSource::new(&controller(), &e, source(), &namespaces);
        assert!(matches!(m.action(), ReconcileAction::DeleteDestinations(ref d) if d.is_empty()));
        m.step(&mut e, ReconcileReply::StaleDeleted(Ok(vec![])));
        assert_eq!(e.modified.status_destinations(), Some(&known));
        assert_eq!(e.replace_status(), Ok(None));
    }
}

#[test]
fn removed_copies_are_reported_as_success() {
    let mut e = event(vec![], Some(vec![unsynced("old")]));
    let mut m = ReconcileSource::new(&controller(), &e, source(), &vec![]);
    m.step(&mut e, ReconcileReply::StaleDeleted(Ok(vec![])));
    m.step(&mut e, ReconcileReply::StatusReplaced(Ok(())));
    m.step(
        &mut e,
        ReconcileReply::Upserted(UpsertOutcome {
            destinations: vec![],
            changed: false,
            expected: 0,
            observed: 0,
        }),
    );
    assert!(matches!(m.action(), ReconcileAction::ReplaceStatus));
    let c = &e.modified.status.as_ref().unwrap().conditions.as_ref().unwrap()[0];
    assert_eq!((c.status.as_str(), c.reason.as_str()), ("True", "Success"));
    assert_eq!(c.message, "0 out of 0 destinations are in sync");
    let failure = ControllerError::Any("x".to_string());
    m.step(&mut e, ReconcileReply::StatusReplaced(Err(failure.clone())));
    assert!(matches!(m.action(), ReconcileAction::Done(Err(ref x)) if *x == failure));
}

#[test]
fn failures_end_the_synchronization() {
    let failure = ControllerError::Any("x".to_string());
    let mut e = event(vec![to("a")], None);
    let mut m = ReconcileSource::new(&controller(), &e, source(), &vec![namespace("a", false)]);
    m.step(&mut e, ReconcileReply::StaleDeleted(Err(failure.clone())));
    assert!(matches!(m.action(), ReconcileAction::Done(Err(ref x)) if *x == failure));
    let mut m = ReconcileSource::new(&controller(), &e, source(), &vec![namespace("a", false)]);
    m.step(&mut e, ReconcileReply::StaleDeleted(Ok(vec![])));
    m.step(&mut e, ReconcileReply::StatusReplaced(Err(failure.clone())));
    assert!(matches!(m.action(), ReconcileAction::Done(Err(ref x)) if *x == failure));
    // The server may answer with a status that tracks nothing.
    let mut m = ReconcileSource::new(&controller(), &e, source(), &vec![namespace("a", false)]);
    m.step(&mut e, ReconcileReply::StaleDeleted(Ok(vec![])));
    e.modified.status = None;
    m.step(&mut e, ReconcileReply::StatusReplaced(Ok(())));
    assert!(matches!(m.action(), ReconcileAction::Done(Ok(()))));
}

#[test]
fn copies_of_a_deleted_source_are_deleted() {
    let list = vec![unsynced("a"), unsynced("b")];
    let mut e = event(vec![to("*")], Some(list.clone()));
    let mut m = SourceDeleted::new(&e);
    assert!(matches!(m.action(), SourceDeletedAction::DeleteDestinations(ref d) if *d == list));
    m.step_at(
        &mut e,
        SourceDeletedReply::Deleted(Ok(vec![unsynced("b")])),
        TIME.to_string(),
    );
    assert!(matches!(m.action(), SourceDeletedAction::ReplaceStatus));
    assert_eq!(e.modified.status_destinations(), Some(&vec![unsynced("b")]));
    let c = &e.modified.status.as_ref().unwrap().conditions.as_ref().unwrap()[0];
    assert_eq!((c.status.as_str(), c.reason.as_str()), ("False", "Failure"));
    assert_eq!(c.message, "failed to remove 1 out of 2 destinations");
    m.step(&mut e, SourceDeletedReply::StatusReplaced(Ok(())));
    assert!(matches!(m.action(), SourceDeletedAction::Done { result: Ok(()), remaining: 1 }));
}

#[test]
fn deletion_of_all_copies_is_a_success() {
    let mut e = event(vec![to("*")], Some(vec![unsynced("a")]));
    let mut m = SourceDeleted::new(&e);
    m.step(&mut e, SourceDeletedReply::Deleted(Ok(vec![])));
    assert_eq!(e.modified.status_destinations(), Some(&vec![]));
    let c = &e.modified.status.as_ref().unwrap().conditions.as_ref().unwrap()[0];
    assert_eq!((c.type_.as_str(), c.status.as_str()), ("InSync", "True"));
    assert_eq!(c.message, "successfully removed all 1 destination objects");
    m.step(&mut e, SourceDeletedReply::StatusReplaced(Ok(())));
    assert!(matches!(m.action(), SourceDeletedAction::Done { result: Ok(()), remaining: 0 }));
    // Without tracked copies there is nothing to do.
    assert!(matches!(
        SourceDeleted::new(&event(vec![], None)).action(),
        SourceDeletedAction::Done { result: Ok(()), remaining: 0 }
    ));
    let mut e = event(vec![], Some(vec![unsynced("a")]));
    let mut m = SourceDeleted::new(&e);
    m.step(&mut e, SourceDeletedReply::Deleted(Err(ControllerError::Any("x".to_string()))));
    assert!(matches!(m.action(), SourceDeletedAction::Done { result: Err(_), remaining: 1 }));
}
