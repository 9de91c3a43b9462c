use object_syncer::api::{
    DestinationStatus, ObjectSync, ObjectSyncSpec, ObjectSyncStatus, SourceObject,
    SOURCE_OBJECT_ANNOTATION,
};
use object_syncer::check_object_sync::{CheckAction, CheckObjectSync, CheckReply};
use object_syncer::configuration::Configuration;
use object_syncer::delete_object_sync::{DeleteObjectSync, DeletionAction, DeletionReply};
use object_syncer::conditions::registered_condition;
use object_syncer::discovery::{
    get_api_resource, get_gvk, DiscoveredGroup, DiscoveredResource, DiscoveredVersion,
};
use object_syncer::errors::{ControllerError, KubeError};
use object_syncer::meta::{
    ApiResource, DynamicObject, GroupVersionKind, ObjectMeta, StringMap, TypeMeta,
};
use object_syncer::object_sync_controller::ObjectSyncController;
use object_syncer::object_sync_modifications::ObjectSyncModifications;
use object_syncer::reconcile_object_sync::{ReconcileObjectSync, SyncAction, SyncReply};
use object_syncer::reconcile_resource::{ReconcileResource, ResourceAction, ResourceReply};
use object_syncer::request::FINALIZER;
use object_syncer::resource_controller::ResourceControllerImpl;
use object_syncer::schedule::{run_reaction, RunError, Schedule};
use object_syncer::sources::{ResourceController, Sources};
use object_syncer::upsert_destinations::make_copy;
use object_syncer::utils::NamespacedName;
use object_syncer::watches::label_selector;

const TIME: &str = "2024-01-01T00:00:00Z";

fn gvk(kind: &str) -> GroupVersionKind {
    GroupVersionKind { group: "".to_string(), version: "v1".to_string(), kind: kind.to_string() }
}

fn name(namespace: &str, name: &str) -> NamespacedName {
    NamespacedName { namespace: namespace.to_string(), name: name.to_string() }
}

fn meta(namespace: &str, name: &str) -> ObjectMeta {
    ObjectMeta {
        name: Some(name.to_string()),
        namespace: Some(namespace.to_string()),
        ..Default::default()
    }
}

fn object_sync(id: &str, kind: &str) -> ObjectSync {
    ObjectSync {
        metadata: meta("default", id),
        spec: ObjectSyncSpec {
            source: SourceObject {
                group: "".to_string(),
                version: None,
                kind: kind.to_string(),
                name: "config".to_string(),
                namespace: None,
            },
            destinations: vec![],
        },
        status: None,
    }
}

fn event(id: &str, kind: &str) -> ObjectSyncModifications {
    ObjectSyncModifications::new(object_sync(id, kind))
}

fn finalized(id: &str, kind: &str) -> ObjectSyncModifications {
    let mut o = object_sync(id, kind);
    o.metadata.finalizers = Some(vec![FINALIZER.to_string()]);
    ObjectSyncModifications::new(o)
}

fn source(finalizers: Vec<&str>, deleted: bool) -> DynamicObject {
    DynamicObject {
        types: None,
        metadata: ObjectMeta {
            finalizers: Some(finalizers.iter().map(|f| f.to_string()).collect()),
            deletion_timestamp: if deleted { Some(TIME.to_string()) } else { None },
            ..meta("default", "config")
        },
        data: vec![],
    }
}

fn impl_for(configuration: Configuration) -> ResourceControllerImpl {
    ResourceControllerImpl::new(configuration, gvk("ConfigMap"))
}

fn unrestricted() -> Configuration {
    Configuration::new(None, None, None)
}

fn unsynced(namespace: &str) -> DestinationStatus {
    DestinationStatus {
        name: "config".to_string(),
        namespace: namespace.to_string(),
        group: "".to_string(),
        version: "v1".to_string(),
        kind: "ConfigMap".to_string(),
        source_version: None,
        synced_version: None,
        strategy: None,
    }
}

fn resource(kind: &str, version: &str, namespaced: bool) -> DiscoveredResource {
    DiscoveredResource {
        resource: ApiResource {
            group: "".to_string(),
            version: version.to_string(),
            api_version: version.to_string(),
            kind: kind.to_string(),
            plural: format!("{}s", kind.to_lowercase()),
        },
        namespaced,
    }
}

fn core_group() -> DiscoveredGroup {
    DiscoveredGroup {
        preferred: "v1".to_string(),
        versions: vec![DiscoveredVersion {
            version: "v1".to_string(),
            resources: vec![
                resource("Node", "v1", false),
                resource("ConfigMap", "v1", true),
                resource("Secret", "v1", true),
            ],
        }],
    }
}

fn refused(code: u16) -> KubeError {
    KubeError::Api { code, message: format!("code {}", code) }
}

fn any(message: &str) -> ControllerError {
    ControllerError::Any(message.to_string())
}

/// Registers an `ObjectSync`, and says whether a resource controller was started.
fn register(c: &mut ObjectSyncController, id: &str, kind: &str) -> bool {
    let mut e = finalized(id, kind);
    let mut m = CheckObjectSync::new(&mut e);
    m.step(c, &mut e, CheckReply::Discovered(Ok(core_group())));
    match m.action(&e) {
        CheckAction::Change(change) => change.started,
        _ => panic!("not registered"),
    }
}

#[test]
fn references_are_kept_once() {
    let mut s = Sources::new();
    s.insert(name("a", "src"), name("x", "one"));
    s.insert(name("a", "src"), name("x", "two"));
    s.insert(name("a", "src"), name("x", "one"));
    s.insert(name("b", "src"), name("x", "one"));
    assert_eq!(s.of(&name("a", "src")), vec![name("x", "one"), name("x", "two")]);
    assert_eq!(s.of(&name("c", "src")), vec![]);
    assert_eq!(s.referred_by(&name("x", "one")), vec![name("a", "src"), name("b", "src")]);
    assert_eq!(s.referred(), vec![name("a", "src"), name("b", "src")]);
    assert!(s.contains(&name("a", "src"), &name("x", "two")));
    s.remove(&name("a", "src"), &name("x", "two"));
    assert!(!s.contains(&name("a", "src"), &name("x", "two")));
    assert_eq!(s.referred(), vec![name("a", "src"), name("b", "src")]);
    s.remove(&name("a", "src"), &name("x", "one"));
    assert_eq!(s.referred(), vec![name("b", "src")]);
}

#[test]
fn registration_is_taken_back() {
    let mut c = ResourceController::new(gvk("ConfigMap"));
    let handle = c.register(&event("sync", "ConfigMap"));
    assert_eq!((handle.src.clone(), handle.crd.clone()), (name("default", "config"), name("default", "sync")));
    assert!(c.sources.contains(&handle.src, &handle.crd));
    handle.release(&mut c.sources);
    assert_eq!(c.sources, Sources::new());
}

#[test]
fn untracked_source_is_ignored() {
    let s = Sources::new();
    let m = ReconcileResource::new(&impl_for(unrestricted()), source(vec![], false), &s);
    assert!(matches!(m.action(), ResourceAction::Done(Schedule::AwaitChange)));
    let mut s = Sources::new();
    s.insert(name("default", "config"), name("default", "sync"));
    let elsewhere = Configuration::new(None, Some("public".to_string()), None);
    let m = ReconcileResource::new(&impl_for(elsewhere), source(vec![], false), &s);
    assert!(matches!(m.action(), ResourceAction::Done(Schedule::AwaitChange)));
}

#[test]
fn live_source_is_synchronized_for_every_configuration() {
    let mut s = Sources::new();
    s.insert(name("default", "config"), name("default", "one"));
    s.insert(name("default", "config"), name("default", "two"));
    let mut m = ReconcileResource::new(&impl_for(unrestricted()), source(vec!["other"], false), &s);
    match m.action() {
        ResourceAction::AddFinalizer { namespace, apply } => {
            assert_eq!(namespace, "default");
            assert_eq!(apply.object.metadata.finalizers, Some(vec![FINALIZER.to_string()]));
        }
        _ => panic!("no finalizer"),
    }
    m.step(ResourceReply::FinalizerAdded(Ok(())));
    assert!(matches!(m.action(), ResourceAction::Get(ref n) if *n == name("default", "one")));
    m.step(ResourceReply::Got(Ok(object_sync("one", "ConfigMap"))));
    match m.action() {
        ResourceAction::ReconcileSource { event: e, source } => {
            assert_eq!(e, event("one", "ConfigMap"));
            assert_eq!(
                source.metadata.finalizers,
                Some(vec!["other".to_string(), FINALIZER.to_string()])
            );
            assert_eq!(
                source.types,
                Some(TypeMeta { api_version: "v1".to_string(), kind: "ConfigMap".to_string() })
            );
        }
        _ => panic!("not synchronized"),
    }
    m.step(ResourceReply::Reconciled(Err(any("x"))));
    assert!(matches!(m.action(), ResourceAction::Get(ref n) if *n == name("default", "two")));
    m.step(ResourceReply::Got(Err(refused(404))));
    assert!(matches!(m.action(), ResourceAction::Done(Schedule::Requeue(300))));
}

/// The reconciliation of a deleted source that three `ObjectSync` objects refer to.
fn deleted_source() -> ReconcileResource {
    let mut s = Sources::new();
    s.insert(name("default", "config"), name("default", "one"));
    s.insert(name("default", "config"), name("default", "two"));
    s.insert(name("default", "config"), name("default", "three"));
    ReconcileResource::new(&impl_for(unrestricted()), source(vec![FINALIZER], true), &s)
}

#[test]
fn deleted_source_loses_the_finalizer_after_the_copies() {
    let mut m = deleted_source();
    m.step(ResourceReply::Got(Ok(object_sync("one", "ConfigMap"))));
    assert!(matches!(m.action(), ResourceAction::SourceDeleted(ref e) if *e == event("one", "ConfigMap")));
    m.step(ResourceReply::SourceDeleted { result: Ok(()), remaining: 0 });
    // The other configurations come first.
    assert!(matches!(m.action(), ResourceAction::Get(ref n) if *n == name("default", "two")));
    m.step(ResourceReply::Got(Err(refused(404))));
    assert!(matches!(m.action(), ResourceAction::Get(ref n) if *n == name("default", "three")));
    m.step(ResourceReply::Got(Ok(object_sync("three", "ConfigMap"))));
    m.step(ResourceReply::SourceDeleted { result: Ok(()), remaining: 0 });
    assert!(matches!(m.action(), ResourceAction::RemoveFinalizer { ref namespace, ref patch }
        if namespace == "default" && patch.name == "config"));
    m.step(ResourceReply::FinalizerRemoved(Err(refused(500))));
    assert!(matches!(m.action(), ResourceAction::Done(Schedule::Requeue(300))));
}

#[test]
fn finalizer_stays_while_copies_may_be_left() {
    let clear = ResourceReply::SourceDeleted { result: Ok(()), remaining: 0 };
    let refuse = ResourceReply::SourceDeleted { result: Ok(()), remaining: 1 };
    let fail = ResourceReply::SourceDeleted { result: Err(any("x")), remaining: 0 };
    for (first, last) in [(refuse, clear), (fail, ResourceReply::Got(Err(refused(410))))] {
        let mut m = deleted_source();
        m.step(ResourceReply::Got(Ok(object_sync("one", "ConfigMap"))));
        m.step(first);
        m.step(ResourceReply::Got(Err(refused(404))));
        if let ResourceReply::SourceDeleted { .. } = &last {
            m.step(ResourceReply::Got(Ok(object_sync("three", "ConfigMap"))));
        }
        m.step(last);
        assert!(matches!(m.action(), ResourceAction::Done(Schedule::Requeue(300))));
    }
    // A configuration that cannot be read may have copies.
    let mut m = deleted_source();
    m.step(ResourceReply::Got(Err(refused(500))));
    m.step(ResourceReply::Got(Err(refused(404))));
    m.step(ResourceReply::Got(Err(refused(404))));
    assert!(matches!(m.action(), ResourceAction::Done(Schedule::Requeue(300))));
    let mut m = deleted_source();
    for code in [404, 410, 404] {
        m.step(ResourceReply::Got(Err(refused(code))));
    }
    assert!(matches!(m.action(), ResourceAction::RemoveFinalizer { .. }));
}

#[test]
fn type_of_the_source_names_the_group() {
    let kind = GroupVersionKind {
        group: "batch".to_string(),
        version: "v1".to_string(),
        kind: "CronJob".to_string(),
    };
    let mut s = Sources::new();
    s.insert(name("default", "config"), name("default", "one"));
    let c = ResourceControllerImpl::new(unrestricted(), kind);
    let mut m = ReconcileResource::new(&c, source(vec![FINALIZER], false), &s);
    m.step(ResourceReply::Got(Ok(object_sync("one", "CronJob"))));
    match m.action() {
        ResourceAction::ReconcileSource { source, .. } => assert_eq!(
            source.types,
            Some(TypeMeta { api_version: "batch/v1".to_string(), kind: "CronJob".to_string() })
        ),
        _ => panic!("not synchronized"),
    }
}

#[test]
fn source_with_the_finalizer_is_not_patched() {
    let mut s = Sources::new();
    s.insert(name("default", "config"), name("default", "one"));
    let m = ReconcileResource::new(&impl_for(unrestricted()), source(vec![FINALIZER], false), &s);
    assert!(matches!(m.action(), ResourceAction::Get(_)));
    let mut m = ReconcileResource::new(&impl_for(unrestricted()), source(vec![], false), &s);
    m.step(ResourceReply::FinalizerAdded(Err(refused(500))));
    m.step(ResourceReply::Got(Ok(object_sync("one", "ConfigMap"))));
    assert!(matches!(m.action(), ResourceAction::ReconcileSource { ref source, .. }
        if source.metadata.finalizers == Some(vec![])));
}

#[test]
fn new_namespaces_concern_all_sources() {
    let mut s = Sources::new();
    s.insert(name("default", "config"), name("default", "one"));
    s.insert(name("default", "config"), name("default", "two"));
    let c = impl_for(Configuration::new(None, None, Some("a,b".to_string())));
    let refs = c.affected_by_namespace_of_age(&s, "a", Some(299));
    assert_eq!(refs.len(), 1);
    assert_eq!((refs[0].name.as_str(), refs[0].namespace.as_deref()), ("config", Some("default")));
    assert_eq!(refs[0].resource.plural, "configmaps");
    assert!(c.affected_by_namespace_of_age(&s, "a", Some(300)).is_empty());
    assert!(c.affected_by_namespace_of_age(&s, "c", Some(1)).is_empty());
    assert!(c.affected_by_namespace_of_age(&s, "a", None).is_empty());
    assert_eq!(c.affected_by_namespace_of_age(&s, "b", Some(-5)).len(), 1);
}

#[test]
fn age_of_a_namespace_is_taken_from_its_creation() {
    let mut s = Sources::new();
    s.insert(name("default", "config"), name("default", "one"));
    let c = impl_for(unrestricted());
    let mut ns = ObjectMeta { name: Some("a".to_string()), ..Default::default() };
    assert!(c.affected_by_namespace(&s, &ns).is_empty());
    ns.creation_timestamp = Some("2001-01-01T00:00:00Z".to_string());
    assert!(c.affected_by_namespace(&s, &ns).is_empty());
    ns.creation_timestamp = Some("no time".to_string());
    assert!(c.affected_by_namespace(&s, &ns).is_empty());
    ns.creation_timestamp = Some("9999-01-01T00:00:00Z".to_string());
    assert_eq!(c.affected_by_namespace(&s, &ns).len(), 1);
}

#[test]
fn namespace_is_new_for_five_minutes() {
    let mut s = Sources::new();
    s.insert(name("default", "config"), name("default", "one"));
    let c = impl_for(unrestricted());
    let mut ns = ObjectMeta { name: Some("a".to_string()), ..Default::default() };
    assert!(c.affected_by_namespace_at(&s, &ns, TIME).is_empty());
    ns.creation_timestamp = Some("2024-01-01T00:00:00Z".to_string());
    for (now, count) in [
        ("2024-01-01T00:00:00Z", 1),
        ("2024-01-01T00:04:59Z", 1),
        ("2024-01-01T00:05:00Z", 0),
        ("2023-12-31T23:00:00Z", 1),
        // The same moment as the second one, seen from elsewhere.
        ("2024-01-01T02:04:59+02:00", 1),
        ("2024-01-02T00:00:00Z", 0),
        ("no time", 0),
    ] {
        assert_eq!(c.affected_by_namespace_at(&s, &ns, now).len(), count, "at {}", now);
    }
    let elsewhere = impl_for(Configuration::new(None, None, Some("b".to_string())));
    assert!(elsewhere.affected_by_namespace_at(&s, &ns, TIME).is_empty());
}

#[test]
fn object_sync_concerns_its_sources() {
    let mut s = Sources::new();
    s.insert(name("default", "config"), name("default", "one"));
    s.insert(name("default", "other"), name("default", "one"));
    s.insert(name("default", "config"), name("default", "two"));
    let c = impl_for(unrestricted());
    let refs = c.affected_by_object_sync(&s, &object_sync("one", "ConfigMap"));
    let names: Vec<&str> = refs.iter().map(|r| r.name.as_str()).collect();
    assert_eq!(names, vec!["config", "other"]);
    assert!(refs.iter().all(|r| r.namespace.as_deref() == Some("default")));
    assert!(c.affected_by_object_sync(&s, &object_sync("none", "ConfigMap")).is_empty());
}

#[test]
fn copy_leads_back_to_its_source() {
    let c = impl_for(Configuration::new(None, None, Some("a".to_string())));
    let none = object_syncer::api::ObjectRevision { uid: None, resource_version: None };
    let copy = make_copy(&source(vec![], false), &unsynced("a"), &none);
    let r = c.affected_by_copy(&copy).unwrap();
    assert_eq!((r.name.as_str(), r.namespace.as_deref()), ("config", Some("default")));
    let elsewhere = make_copy(&source(vec![], false), &unsynced("b"), &none);
    assert_eq!(c.affected_by_copy(&elsewhere), None);
    assert_eq!(c.affected_by_copy(&source(vec![], false)), None);
    let mut broken = copy.clone();
    let mut annotations = StringMap::new();
    annotations.insert(SOURCE_OBJECT_ANNOTATION.to_string(), "a/b/c".to_string());
    broken.metadata.annotations = Some(annotations);
    assert_eq!(c.affected_by_copy(&broken), None);
    assert_eq!(label_selector(), "app.kubernetes.io/managed-by=rustrial-object-syncer");
}

#[test]
fn errors_are_tried_again() {
    let lasting = ControllerError::ClusterScopedResource("x".to_string());
    assert_eq!(ResourceControllerImpl::error_policy(&any("x")), Schedule::Requeue(30));
    assert_eq!(ResourceControllerImpl::error_policy(&lasting), Schedule::Requeue(300));
    assert_eq!(ObjectSyncController::error_policy(&any("x")), Schedule::Requeue(30));
    assert_eq!(ObjectSyncController::error_policy(&lasting), Schedule::Requeue(300));
    let r = run_reaction(RunError::Queue);
    assert_eq!((r.counted, r.pause_seconds), (true, 30));
    let r = run_reaction(RunError::ObjectNotFound);
    assert_eq!((r.counted, r.pause_seconds), (false, 0));
    let r = run_reaction(RunError::Other);
    assert_eq!((r.counted, r.pause_seconds), (true, 0));
}

#[test]
fn kinds_are_discovered() {
    let s = object_sync("x", "ConfigMap").spec.source;
    assert_eq!(get_api_resource(&s, Ok(core_group())).unwrap().plural, "configmaps");
    assert_eq!(get_gvk(&s, Ok(core_group())), Ok(gvk("ConfigMap")));
    assert_eq!(
        get_gvk(&s, Err("down".to_string())),
        Err(ControllerError::ApiDiscoveryError(
            "failed to discover detail information for API Group : down".to_string()
        ))
    );
    let mut unknown = object_sync("x", "Gadget").spec.source;
    unknown.group = "g".to_string();
    assert_eq!(
        get_gvk(&unknown, Ok(core_group())),
        Err(ControllerError::ApiDiscoveryError(
            "unable to resolve preferred version for Kind Gadget in API Group g".to_string()
        ))
    );
    let versioned = SourceObject { version: Some("v2".to_string()), ..s.clone() };
    assert_eq!(
        get_gvk(&versioned, Ok(core_group())),
        Err(ControllerError::ApiDiscoveryError(
            "Kind ConfigMap in API Group  with version v2 does not exist".to_string()
        ))
    );
    let fitting = SourceObject { version: Some("v1".to_string()), ..s };
    assert_eq!(get_gvk(&fitting, Ok(core_group())), Ok(gvk("ConfigMap")));
    let node = object_sync("x", "Node").spec.source;
    assert_eq!(
        get_gvk(&node, Ok(core_group())),
        Err(ControllerError::ClusterScopedResource(
            "resource /v1/Node is cluster scoped, resource syncer only supports namespace scoped resources"
                .to_string()
        ))
    );
}

#[test]
fn any_served_version_can_be_asked_for() {
    let group = DiscoveredGroup {
        preferred: "v1".to_string(),
        versions: vec![
            DiscoveredVersion {
                version: "v1".to_string(),
                resources: vec![resource("CronJob", "v1", true)],
            },
            DiscoveredVersion {
                version: "v1beta1".to_string(),
                resources: vec![
                    resource("CronJob", "v1beta1", true),
                    resource("Gadget", "v1beta1", true),
                ],
            },
        ],
    };
    let s = object_sync("x", "CronJob").spec.source;
    assert_eq!(get_gvk(&s, Ok(group.clone())).unwrap().version, "v1");
    for version in ["v1", "v1beta1"] {
        let wanted = SourceObject { version: Some(version.to_string()), ..s.clone() };
        assert_eq!(get_gvk(&wanted, Ok(group.clone())).unwrap().version, version);
    }
    let unserved = SourceObject { version: Some("v2".to_string()), ..s };
    assert!(get_gvk(&unserved, Ok(group.clone())).is_err());
    // A kind is looked for at the preferred version where none is asked for.
    let gadget = object_sync("x", "Gadget").spec.source;
    assert_eq!(
        get_gvk(&gadget, Ok(group)),
        Err(ControllerError::ApiDiscoveryError(
            "unable to resolve preferred version for Kind Gadget in API Group ".to_string()
        ))
    );
}

#[test]
fn registration_that_failed_before_is_ready_again() {
    let mut c = ObjectSyncController::new(unrestricted());
    assert!(register(&mut c, "sync", "ConfigMap"));
    let mut e = finalized("sync", "ConfigMap");
    let mut failed = registered_condition(&gvk("ConfigMap"));
    failed.status = "False".to_string();
    failed.message = "lost".to_string();
    e.modified.update_condition_at(failed, TIME.to_string());
    let mut e = ObjectSyncModifications::new(e.modified);
    let mut m = CheckObjectSync::new(&mut e);
    let later = "2024-01-02T00:00:00Z";
    m.step_at(&mut c, &mut e, CheckReply::Discovered(Ok(core_group())), later.to_string());
    assert!(matches!(m.action(&e), CheckAction::ReplaceStatus));
    let conditions = e.modified.status.clone().unwrap().conditions.unwrap();
    assert_eq!(conditions.len(), 1);
    assert_eq!((conditions[0].type_.as_str(), conditions[0].status.as_str()), ("Ready", "True"));
    assert_eq!(conditions[0].last_transition_time.as_deref(), Some(later));
    m.step(&mut c, &mut e, CheckReply::StatusReplaced(Ok(())));
    assert!(matches!(m.action(&e), CheckAction::Done(Ok(()))));
    // After that there is nothing to tell.
    let mut m = CheckObjectSync::new(&mut e);
    m.step(&mut c, &mut e, CheckReply::Discovered(Ok(core_group())));
    assert!(matches!(m.action(&e), CheckAction::Done(Ok(()))));
}

#[test]
fn controllers_run_while_they_are_used() {
    let mut c = ObjectSyncController::new(unrestricted());
    assert!(register(&mut c, "one", "ConfigMap"));
    assert!(!register(&mut c, "two", "ConfigMap"));
    assert!(register(&mut c, "three", "Secret"));
    assert_eq!(c.registered_gvk("default/two"), Some(gvk("ConfigMap")));
    assert_eq!(c.registered_gvk("default/four"), None);
    let sources = &c.controller(&gvk("ConfigMap")).unwrap().sources;
    assert_eq!(
        sources.of(&name("default", "config")),
        vec![name("default", "one"), name("default", "two")]
    );
    assert!(c.controller(&gvk("Node")).is_none());
    let r = c.remove(&event("one", "ConfigMap")).unwrap();
    assert_eq!((r.gvk, r.stopped), (gvk("ConfigMap"), false));
    assert_eq!(
        c.controller(&gvk("ConfigMap")).unwrap().sources.of(&name("default", "config")),
        vec![name("default", "two")]
    );
    let r = c.remove(&event("two", "ConfigMap")).unwrap();
    assert_eq!((r.gvk, r.stopped), (gvk("ConfigMap"), true));
    assert!(c.controller(&gvk("ConfigMap")).is_none());
    assert!(c.controller(&gvk("Secret")).is_some());
    assert!(c.remove(&event("two", "ConfigMap")).is_none());
    // The next one starts it anew.
    assert!(register(&mut c, "one", "ConfigMap"));
}

#[test]
fn object_sync_is_added_in_place_of_an_earlier_registration() {
    let mut c = ObjectSyncController::new(unrestricted());
    let first = c.add(&event("one", "ConfigMap"), gvk("ConfigMap"));
    assert_eq!((first.stopped, first.started, first.gvk), (None, true, gvk("ConfigMap")));
    // The controller runs already, and goes on.
    let again = c.add(&event("one", "ConfigMap"), gvk("ConfigMap"));
    assert_eq!((again.stopped, again.started), (None, false));
    let shared = c.add(&event("two", "ConfigMap"), gvk("ConfigMap"));
    assert_eq!((shared.stopped, shared.started), (None, false));
    assert_eq!(
        c.controller(&gvk("ConfigMap")).unwrap().sources.of(&name("default", "config")),
        vec![name("default", "one"), name("default", "two")]
    );
    let left = c.add(&event("one", "Secret"), gvk("Secret"));
    assert_eq!((left.stopped, left.started), (None, true));
    let last = c.add(&event("two", "Secret"), gvk("Secret"));
    assert_eq!((last.stopped, last.started), (Some(gvk("ConfigMap")), false));
    assert_eq!(c.registered_gvk("default/one"), Some(gvk("Secret")));
    assert!(c.controller(&gvk("ConfigMap")).is_none());
    c.remove(&event("one", "Secret"));
    c.remove(&event("two", "Secret"));
    assert!(c.add(&event("two", "Secret"), gvk("Secret")).started);
}

#[test]
fn second_check_changes_nothing() {
    let mut c = ObjectSyncController::new(unrestricted());
    let mut e = event("sync", "ConfigMap");
    let mut m = CheckObjectSync::new(&mut e);
    m.step(&mut c, &mut e, CheckReply::SpecPatched(Ok(())));
    m.step_at(&mut c, &mut e, CheckReply::Discovered(Ok(core_group())), TIME.to_string());
    m.step_at(&mut c, &mut e, CheckReply::Changed, "2024-01-02T00:00:00Z".to_string());
    m.step(&mut c, &mut e, CheckReply::StatusReplaced(Ok(())));
    assert!(matches!(m.action(&e), CheckAction::Done(Ok(()))));
    // Meanwhile another one was registered, and the server has stored the object.
    assert!(!register(&mut c, "other", "ConfigMap"));
    let mut stored = e.modified.clone();
    stored.metadata.resource_version = Some("9".to_string());
    let mut e = ObjectSyncModifications::new(stored);
    let object = e.clone();
    let both = vec![name("default", "sync"), name("default", "other")];
    let source = name("default", "config");
    assert_eq!(c.controller(&gvk("ConfigMap")).unwrap().sources.of(&source), both);
    let mut m = CheckObjectSync::new(&mut e);
    assert!(matches!(m.action(&e), CheckAction::Discover { .. }));
    m.step(&mut c, &mut e, CheckReply::Discovered(Ok(core_group())));
    assert!(matches!(m.action(&e), CheckAction::Done(Ok(()))));
    assert_eq!(e, object);
    assert_eq!(c.controller(&gvk("ConfigMap")).unwrap().sources.of(&source), both);
    assert_eq!(c.registered_gvk("default/sync"), Some(gvk("ConfigMap")));
}

#[test]
fn object_sync_is_registered() {
    let mut c = ObjectSyncController::new(unrestricted());
    let mut e = event("sync", "ConfigMap");
    let mut m = CheckObjectSync::new(&mut e);
    assert!(matches!(m.action(&e), CheckAction::PatchSpec));
    assert_eq!(e.modified.metadata.finalizers, Some(vec![FINALIZER.to_string()]));
    m.step(&mut c, &mut e, CheckReply::SpecPatched(Ok(())));
    assert!(matches!(m.action(&e), CheckAction::Discover { ref group } if group.is_empty()));
    m.step(&mut c, &mut e, CheckReply::Discovered(Ok(core_group())));
    match m.action(&e) {
        CheckAction::Change(change) => {
            assert_eq!((change.stopped, change.started, change.gvk), (None, true, gvk("ConfigMap")));
        }
        _ => panic!("not registered"),
    }
    m.step_at(&mut c, &mut e, CheckReply::Changed, TIME.to_string());
    assert!(matches!(m.action(&e), CheckAction::ReplaceStatus));
    let condition = &e.modified.status.as_ref().unwrap().conditions.as_ref().unwrap()[0];
    assert_eq!((condition.type_.as_str(), condition.status.as_str()), ("Ready", "True"));
    assert_eq!(condition.message, "Successfully registered with ResourceController /v1/ConfigMap");
    m.step(&mut c, &mut e, CheckReply::StatusReplaced(Ok(())));
    assert!(matches!(m.action(&e), CheckAction::Done(Ok(()))));
    // The second time there is nothing to do.
    let mut m = CheckObjectSync::new(&mut e);
    m.step(&mut c, &mut e, CheckReply::Discovered(Ok(core_group())));
    assert!(matches!(m.action(&e), CheckAction::Done(Ok(()))));
}

#[test]
fn object_sync_moves_with_the_kind_of_its_source() {
    let mut c = ObjectSyncController::new(unrestricted());
    assert!(register(&mut c, "sync", "ConfigMap"));
    let mut e = finalized("sync", "Secret");
    let mut m = CheckObjectSync::new(&mut e);
    m.step(&mut c, &mut e, CheckReply::Discovered(Ok(core_group())));
    match m.action(&e) {
        CheckAction::Change(change) => {
            assert_eq!(change.stopped, Some(gvk("ConfigMap")));
            assert_eq!((change.started, change.gvk), (true, gvk("Secret")));
        }
        _ => panic!("not moved"),
    }
    m.step(&mut c, &mut e, CheckReply::Changed);
    let condition = &e.modified.status.as_ref().unwrap().conditions.as_ref().unwrap()[0];
    assert_eq!(
        condition.message,
        "Successfully moved from ResourceController /v1/ConfigMap to /v1/Secret"
    );
    assert_eq!(c.registered_gvk("default/sync"), Some(gvk("Secret")));
    assert!(c.controller(&gvk("ConfigMap")).is_none());
}

#[test]
fn registration_fails_with_the_error() {
    let mut c = ObjectSyncController::new(unrestricted());
    let mut e = event("sync", "ConfigMap");
    let mut m = CheckObjectSync::new(&mut e);
    m.step(&mut c, &mut e, CheckReply::SpecPatched(Err(ControllerError::Serde("bad".to_string()))));
    assert!(matches!(m.action(&e), CheckAction::Done(Err(ControllerError::Any(ref s))) if s == "bad"));
    let mut e = finalized("sync", "Node");
    let mut m = CheckObjectSync::new(&mut e);
    m.step(&mut c, &mut e, CheckReply::Discovered(Ok(core_group())));
    assert!(matches!(m.action(&e), CheckAction::Done(Err(ControllerError::ClusterScopedResource(_)))));
    assert_eq!(c.registered_gvk("default/sync"), None);
}

#[test]
fn deleted_object_sync_is_released() {
    let mut c = ObjectSyncController::new(unrestricted());
    assert!(register(&mut c, "sync", "ConfigMap"));
    let mut o = finalized("sync", "ConfigMap");
    o.modified.status =
        Some(ObjectSyncStatus { conditions: None, destinations: Some(vec![unsynced("a")]) });
    let mut e = ObjectSyncModifications::new(o.modified);
    let mut m = DeleteObjectSync::new(&mut c, &e);
    assert_eq!(c.registered_gvk("default/sync"), None);
    assert!(matches!(m.action(&e), DeletionAction::Stop(ref g) if *g == gvk("ConfigMap")));
    m.step(&mut e, DeletionReply::Stopped);
    assert!(matches!(m.action(&e), DeletionAction::DeleteDestinations(ref d) if *d == vec![unsynced("a")]));
    m.step(&mut e, DeletionReply::Deleted(Ok(vec![])));
    assert!(matches!(m.action(&e), DeletionAction::Discover { .. }));
    m.step(&mut e, DeletionReply::Discovered(Ok(core_group())));
    match m.action(&e) {
        DeletionAction::GetSource { resource, namespace, name } => {
            assert_eq!(
                (resource.plural.as_str(), namespace.as_str(), name.as_str()),
                ("configmaps", "default", "config")
            );
        }
        _ => panic!("source not read"),
    }
    m.step(&mut e, DeletionReply::GotSource(Ok(source(vec![FINALIZER], false))));
    assert!(matches!(m.action(&e), DeletionAction::PatchSource { ref patch, .. } if patch.name == "config"));
    m.step(&mut e, DeletionReply::SourcePatched(Ok(())));
    assert!(matches!(m.action(&e), DeletionAction::PatchSpec));
    assert_eq!(e.modified.metadata.finalizers, Some(vec![]));
    m.step(&mut e, DeletionReply::SpecPatched(Ok(())));
    assert!(matches!(m.action(&e), DeletionAction::Done(Ok(()))));
}

#[test]
fn remaining_copies_keep_the_object_sync() {
    let mut c = ObjectSyncController::new(unrestricted());
    let mut e = finalized("sync", "ConfigMap");
    e.modified.update_destinations(vec![unsynced("a"), unsynced("b")]);
    let mut m = DeleteObjectSync::new(&mut c, &e);
    m.step(&mut e, DeletionReply::Deleted(Ok(vec![unsynced("b")])));
    assert!(matches!(m.action(&e), DeletionAction::ReplaceStatus));
    assert_eq!(e.modified.status_destinations(), Some(&vec![unsynced("b")]));
    m.step(&mut e, DeletionReply::StatusReplaced(Ok(())));
    assert!(matches!(m.action(&e), DeletionAction::Done(Err(ControllerError::DestinationRemovalError(ref s)))
        if s == "failed to remove 1 destinations of default/sync"));
    assert_eq!(e.modified.metadata.finalizers, Some(vec![FINALIZER.to_string()]));
}

#[test]
fn source_that_is_gone_needs_no_patch() {
    let mut c = ObjectSyncController::new(unrestricted());
    let mut e = event("sync", "ConfigMap");
    let mut m = DeleteObjectSync::new(&mut c, &e);
    m.step(&mut e, DeletionReply::Discovered(Ok(core_group())));
    m.step(&mut e, DeletionReply::GotSource(Err(refused(404))));
    assert!(matches!(m.action(&e), DeletionAction::Done(Ok(()))));
    let mut m = DeleteObjectSync::new(&mut c, &e);
    m.step(&mut e, DeletionReply::Discovered(Ok(core_group())));
    m.step(&mut e, DeletionReply::GotSource(Err(refused(500))));
    assert!(matches!(m.action(&e), DeletionAction::Done(Err(ControllerError::KubeApi(_)))));
    let mut m = DeleteObjectSync::new(&mut c, &e);
    m.step(&mut e, DeletionReply::Discovered(Err("down".to_string())));
    assert!(matches!(m.action(&e), DeletionAction::Done(Err(ControllerError::ApiDiscoveryError(_)))));
    let mut e = finalized("sync", "ConfigMap");
    let mut m = DeleteObjectSync::new(&mut c, &e);
    m.step(&mut e, DeletionReply::Discovered(Ok(core_group())));
    m.step(&mut e, DeletionReply::GotSource(Ok(source(vec![], false))));
    assert!(matches!(m.action(&e), DeletionAction::PatchSpec));
    m.step(&mut e, DeletionReply::SpecPatched(Err(ControllerError::KubeApi(refused(409)))));
    assert!(matches!(m.action(&e), DeletionAction::Done(Err(ControllerError::Any(ref s))) if s == "code 409"));
}

#[test]
fn object_sync_is_checked_or_deleted() {
    let here = Configuration::new(Some("default".to_string()), None, None);
    let elsewhere = Configuration::new(Some("other".to_string()), None, None);
    let mut e = event("sync", "ConfigMap");
    let m = ReconcileObjectSync::new(&elsewhere, &e);
    assert!(matches!(m.action(), SyncAction::Done(Ok(Schedule::Requeue(3600)))));
    let mut m = ReconcileObjectSync::new(&here, &e);
    assert!(matches!(m.action(), SyncAction::Check));
    m.step(&mut e, SyncReply::Checked(Ok(())));
    assert!(matches!(m.action(), SyncAction::Done(Ok(Schedule::Requeue(3600)))));
    e.modified.metadata.deletion_timestamp = Some(TIME.to_string());
    let mut m = ReconcileObjectSync::new(&here, &e);
    assert!(matches!(m.action(), SyncAction::Delete));
    m.step(&mut e, SyncReply::Deleted(Err(any("x"))));
    assert!(matches!(m.action(), SyncAction::Done(Err(ref f)) if *f == any("x")));
    let mut m = ReconcileObjectSync::new(&here, &e);
    m.step(&mut e, SyncReply::Deleted(Ok(())));
    assert!(matches!(m.action(), SyncAction::Done(Ok(Schedule::Requeue(3600)))));
}

#[test]
fn failed_registration_is_reported_beside_the_same_failure_of_the_copies() {
    let mut e = event("sync", "ConfigMap");
    let mut failed = registered_condition(&gvk("ConfigMap"));
    failed.type_ = "InSync".to_string();
    failed.status = "False".to_string();
    failed.reason = "Failure".to_string();
    failed.message = "lost".to_string();
    e.modified.update_condition_at(failed, TIME.to_string());
    let mut m = ReconcileObjectSync::new(&unrestricted(), &e);
    m.step(&mut e, SyncReply::Checked(Err(any("lost"))));
    let conditions = e.modified.status.unwrap().conditions.unwrap();
    let types: Vec<&str> = conditions.iter().map(|c| c.type_.as_str()).collect();
    assert_eq!(types, vec!["InSync", "Ready"]);
    assert_eq!((conditions[1].status.as_str(), conditions[1].message.as_str()), ("False", "lost"));
}

#[test]
fn failed_registration_is_reported_in_the_status() {
    let mut e = event("sync", "ConfigMap");
    let mut m = ReconcileObjectSync::new(&unrestricted(), &e);
    m.step_at(&mut e, SyncReply::Checked(Err(any("lost"))), TIME.to_string());
    assert!(matches!(m.action(), SyncAction::ReplaceStatus));
    let c = &e.modified.status.as_ref().unwrap().conditions.as_ref().unwrap()[0];
    assert_eq!((c.type_.as_str(), c.status.as_str(), c.reason.as_str()), ("Ready", "False", "Failure"));
    assert_eq!(c.message, "lost");
    m.step(&mut e, SyncReply::StatusReplaced(Ok(())));
    assert!(matches!(m.action(), SyncAction::Done(Err(ref f)) if *f == any("lost")));
    let mut m = ReconcileObjectSync::new(&unrestricted(), &e);
    m.step(&mut e, SyncReply::Checked(Err(any("lost"))));
    m.step(&mut e, SyncReply::StatusReplaced(Err(any("worse"))));
    assert!(matches!(m.action(), SyncAction::Done(Err(ref f)) if *f == any("worse")));
}
