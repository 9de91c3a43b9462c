use object_syncer::api::{
    Condition, DestinationStatus, ObjectSync, ObjectSyncSpec, SourceObject,
};
use object_syncer::errors::{ControllerError, KubeError};
use object_syncer::meta::{DynamicObject, Entry, GroupVersionKind, ObjectMeta, TypeMeta};
use object_syncer::object_sync_controller::ObjectSyncController;
use object_syncer::object_sync_modifications::ObjectSyncModifications;
use object_syncer::request::{ValidationDirective, FINALIZER, MANAGER};
use object_syncer::utils::{
    add_finalizer_if_missing, ensure_gvk, finalizer_added, finalizer_removed, has_finalizer,
    metric_name, remove_finalizer,
};

fn event() -> ObjectSyncModifications {
    ObjectSyncModifications::new(ObjectSync {
        metadata: ObjectMeta {
            name: Some("sync".to_string()),
            namespace: Some("default".to_string()),
            resource_version: Some("1".to_string()),
            ..Default::default()
        },
        spec: ObjectSyncSpec {
            source: SourceObject {
                group: "".to_string(),
                version: None,
                kind: "ConfigMap".to_string(),
                name: "config".to_string(),
                namespace: None,
            },
            destinations: vec![],
        },
        status: None,
    })
}

fn object(finalizers: Option<Vec<&str>>) -> DynamicObject {
    DynamicObject {
        types: None,
        metadata: ObjectMeta {
            name: Some("config".to_string()),
            namespace: Some("default".to_string()),
            finalizers: finalizers.map(|f| f.iter().map(|s| s.to_string()).collect()),
            ..Default::default()
        },
        data: vec![Entry { key: "data".to_string(), value: "{}".to_string() }],
    }
}

fn refused(code: u16) -> KubeError {
    KubeError::Api { code, message: format!("code {}", code) }
}

#[test]
fn unmodified_object_is_not_written() {
    let m = event();
    assert_eq!(m.status_has_changed(), Ok(false));
    assert_eq!(m.spec_has_changed(), Ok(false));
    assert_eq!(m.replace_status(), Ok(None));
    assert_eq!(m.patch_spec(), Ok(None));
    assert!(!m.is_deleted());
}

#[test]
fn modified_status_is_replaced_at_the_latest_version() {
    let mut m = event();
    m.modified.update_condition_at(
        Condition::new("Ready", Some(true), "Success", "".to_string()),
        "2024-01-01T00:00:00Z".to_string(),
    );
    assert_eq!(m.status_has_changed(), Ok(true));
    assert_eq!(m.spec_has_changed(), Ok(false));
    let patch = m.get_status_patch(&m.original).unwrap().unwrap();
    assert_eq!(patch.len(), 1);
    let operation: serde_json::Value = serde_json::from_str(&patch[0]).unwrap();
    assert_eq!(operation["op"], "replace");
    let address = m.replace_status().unwrap().unwrap();
    assert_eq!((address.namespace.as_deref(), address.name.as_str()), (Some("default"), "sync"));
    let mut latest = m.original.clone();
    latest.metadata.resource_version = Some("5".to_string());
    let r = m.replacement(Ok(latest)).unwrap();
    assert_eq!(r.object.metadata.resource_version.as_deref(), Some("5"));
    assert_eq!(r.object.status, m.modified.status);
    assert_eq!(r.params.field_manager.as_deref(), Some(MANAGER));
    let mut stored = r.object.clone();
    stored.metadata.resource_version = Some("6".to_string());
    assert_eq!(m.written(Ok(stored.clone())), Ok(()));
    assert_eq!(m.original, stored);
    assert_eq!(m.modified, stored);
    assert_eq!(m.replace_status(), Ok(None));
}

/// The document that the operations make of a document.
fn patched(document: &str, operations: &[String]) -> serde_json::Value {
    let mut value: serde_json::Value = serde_json::from_str(document).unwrap();
    let operations: Vec<json_patch::PatchOperation> =
        operations.iter().map(|o| serde_json::from_str(o).unwrap()).collect();
    json_patch::patch(&mut value, &operations).unwrap();
    value
}

#[test]
fn operations_turn_one_object_into_the_other() {
    let mut m = event();
    m.original.metadata.finalizers = Some(vec!["a".to_string(), "b".to_string()]);
    m.modified.metadata.finalizers = Some(vec!["b".to_string()]);
    m.modified.metadata.generation = Some(7);
    m.modified.metadata.owner_references = Some(vec!["{\"uid\":\"x\",\"controller\":true}".to_string()]);
    m.modified.spec.source.name = "with \"quotes\" and a / and ~".to_string();
    m.modified.spec.source.version = Some("v1".to_string());
    let operations = m.get_spec_patch(&m.original).unwrap().unwrap();
    let wanted: serde_json::Value = serde_json::from_str(&m.modified.to_json()).unwrap();
    assert_eq!(patched(&m.original.to_json(), &operations), wanted);
    // The status is no part of it.
    let mut latest = m.modified.clone();
    latest.update_destinations(vec![]);
    assert_eq!(m.get_spec_patch(&latest), Ok(None));
    let mut source = object(Some(vec!["first", FINALIZER, "last"]));
    let before = source.to_json();
    let patch = remove_finalizer(&mut source, FINALIZER).unwrap().unwrap();
    let after: serde_json::Value = serde_json::from_str(&source.to_json()).unwrap();
    assert_eq!(patched(&before, &patch.operations), after);
}

#[test]
fn any_text_can_stand_in_a_status() {
    let mut m = event();
    m.modified.update_condition_at(
        Condition::new("Ready", None, "a\\b", "\u{1}\n\"quoted\" \u{7f} \u{1F600}".to_string()),
        "2024-01-01T00:00:00Z".to_string(),
    );
    assert_eq!(m.status_has_changed(), Ok(true));
    let mut o = m.modified.clone();
    o.update_destinations(vec![]);
    let again = ObjectSyncModifications { original: m.modified, modified: o };
    let operations = again.get_status_patch(&again.original).unwrap().unwrap();
    assert_eq!(operations.len(), 1);
    assert!(again.replace_status().unwrap().is_some());
}

#[test]
fn failed_writes_leave_the_modifications_alone() {
    let mut m = event();
    m.modified.update_destinations(vec![]);
    let before = m.clone();
    assert_eq!(m.replacement(Err(refused(500))), Err(ControllerError::KubeApi(refused(500))));
    assert_eq!(m.written(Err(refused(409))), Err(ControllerError::KubeApi(refused(409))));
    assert_eq!(m, before);
}

#[test]
fn own_finalizer_is_patched() {
    let mut m = event();
    assert!(ObjectSyncController::add_finalizer_if_missing(&mut m));
    assert!(!ObjectSyncController::add_finalizer_if_missing(&mut m));
    assert_eq!(m.modified.metadata.finalizers, Some(vec![FINALIZER.to_string()]));
    assert_eq!(m.spec_has_changed(), Ok(true));
    assert!(m.patch_spec().unwrap().is_some());
    let patch = m.spec_patch(Ok(m.original.clone())).unwrap().unwrap();
    assert_eq!(patch.name, "sync");
    assert_eq!(patch.params.field_manager.as_deref(), Some(MANAGER));
    assert!(!patch.params.force);
    assert_eq!(patch.operations.len(), 1);
    let operation: serde_json::Value = serde_json::from_str(&patch.operations[0]).unwrap();
    assert_eq!(operation["op"], "add");
    assert_eq!(operation["path"], "/metadata/finalizers");
    // Someone else has made the same change already.
    assert_eq!(m.spec_patch(Ok(m.modified.clone())), Ok(None));
    assert_eq!(m.spec_patch(Err(refused(404))), Err(ControllerError::KubeApi(refused(404))));
    assert!(ObjectSyncController::remove_finalizer(&mut m));
    assert!(!ObjectSyncController::remove_finalizer(&mut m));
    assert_eq!(m.modified.metadata.finalizers, Some(vec![]));
}

#[test]
fn finalizer_is_added_with_a_minimal_patch() {
    let mut source = object(Some(vec!["other"]));
    let patch = add_finalizer_if_missing(&source, FINALIZER).unwrap();
    assert_eq!(patch.name, "config");
    assert!(patch.params.force);
    assert_eq!(patch.params.field_validation, Some(ValidationDirective::Ignore));
    assert_eq!(patch.object.metadata.finalizers, Some(vec![FINALIZER.to_string()]));
    assert!(patch.object.data.is_empty());
    let failed = finalizer_added(&mut source, FINALIZER, Err(refused(500)));
    assert_eq!(failed, Err(ControllerError::KubeApi(refused(500))));
    assert!(!has_finalizer(&source.metadata, FINALIZER));
    assert_eq!(finalizer_added(&mut source, FINALIZER, Ok(())), Ok(true));
    assert_eq!(
        source.metadata.finalizers,
        Some(vec!["other".to_string(), FINALIZER.to_string()])
    );
    assert_eq!(add_finalizer_if_missing(&source, FINALIZER), None);
}

#[test]
fn finalizer_is_removed_by_operations() {
    let mut source = object(Some(vec!["other", FINALIZER]));
    let patch = remove_finalizer(&mut source, FINALIZER).unwrap().unwrap();
    assert_eq!(patch.name, "config");
    let operation: serde_json::Value = serde_json::from_str(&patch.operations[0]).unwrap();
    assert_eq!(operation["op"], "remove");
    assert_eq!(operation["path"], "/metadata/finalizers/1");
    assert_eq!(source.metadata.finalizers, Some(vec!["other".to_string()]));
    assert_eq!(remove_finalizer(&mut source, FINALIZER), Ok(None));
    assert_eq!(finalizer_removed(Ok(())), Ok(true));
    assert_eq!(finalizer_removed(Err(refused(404))), Ok(true));
    assert_eq!(
        finalizer_removed(Err(refused(403))),
        Err(ControllerError::KubeApi(refused(403)))
    );
}

#[test]
fn object_that_is_no_json_cannot_be_patched() {
    let mut source = object(Some(vec![FINALIZER]));
    source.data = vec![Entry { key: "data".to_string(), value: "{".to_string() }];
    assert!(matches!(
        remove_finalizer(&mut source, FINALIZER),
        Err(ControllerError::Serde(_))
    ));
}

#[test]
fn type_information_is_added_where_it_is_missing() {
    let gvk = GroupVersionKind {
        group: "batch".to_string(),
        version: "v1".to_string(),
        kind: "CronJob".to_string(),
    };
    let o = ensure_gvk(object(None), &gvk);
    assert_eq!(
        o.types,
        Some(TypeMeta { api_version: "batch/v1".to_string(), kind: "CronJob".to_string() })
    );
    let kept = TypeMeta { api_version: "v2".to_string(), kind: "Other".to_string() };
    let mut typed = object(None);
    typed.types = Some(kept.clone());
    assert_eq!(ensure_gvk(typed, &gvk).types, Some(kept));
}

#[test]
fn errors_are_told_apart() {
    assert!(refused(404).is_not_found() && refused(410).is_not_found());
    assert!(!refused(409).is_not_found() && refused(409).is_conflict());
    let other = KubeError::Other { message: "broken".to_string() };
    assert!(!other.is_not_found() && !other.is_conflict());
    assert_eq!(other.message(), "broken");
    let lasting = ControllerError::ClusterScopedResource("no".to_string());
    assert!(!lasting.is_temporary());
    assert_eq!(lasting.message(), "no");
    for e in [
        ControllerError::ApiDiscoveryError("m".to_string()),
        ControllerError::DestinationRemovalError("m".to_string()),
        ControllerError::KubeApi(KubeError::Other { message: "m".to_string() }),
        ControllerError::Serde("m".to_string()),
        ControllerError::Any("m".to_string()),
    ] {
        assert!(e.is_temporary());
        assert_eq!(e.message(), "m");
    }
}

#[test]
fn metrics_have_a_prefix() {
    assert_eq!(metric_name("reconcile_count"), "object_syncer_reconcile_count");
}

#[test]
fn kinds_of_tracked_copies() {
    let d = DestinationStatus {
        name: "n".to_string(),
        namespace: "ns".to_string(),
        group: "apps".to_string(),
        version: "v1".to_string(),
        kind: "Deployment".to_string(),
        source_version: None,
        synced_version: None,
        strategy: None,
    };
    assert_eq!(d.gvk().path(), "apps/v1/Deployment");
}
