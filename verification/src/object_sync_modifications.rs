//! Updating and patching [`ObjectSync`] objects: what is written, and only
//! where something changed.
use crate::api;
use crate::api::ObjectSync;
use crate::errors;
use crate::errors::{ControllerError, KubeError};
use crate::outside;
use crate::request;
use crate::request::{JsonPatch, PatchParams, PostParams};
use crate::text;
use crate::text::Text;
use crate::wire;
use vstd::prelude::*;
use vstd::string::*;

verus! {

/// An [`ObjectSync`] together with the changes that are to be made to it.
#[derive(Debug, PartialEq, Eq)]
pub struct ObjectSyncModifications {
    /// The object as it is stored.
    pub original: ObjectSync,
    /// The object as it is to be.
    pub modified: ObjectSync,
}

/// The model of [`ObjectSyncModifications`].
#[verifier::ext_equal]
pub struct ObjectSyncModificationsView {
    pub original: api::ObjectSyncView,
    pub modified: api::ObjectSyncView,
}

impl View for ObjectSyncModifications {
    type V = ObjectSyncModificationsView;

    open spec fn view(&self) -> ObjectSyncModificationsView {
        ObjectSyncModificationsView {
            original: self.original@,
            modified: self.modified@,
        }
    }
}

impl Clone for ObjectSyncModifications {
    fn clone(&self) -> (res: Self)
        ensures
            res@ == self@,
    {
        let res = ObjectSyncModifications {
            original: self.original.clone(),
            modified: self.modified.clone(),
        };
        assert(res@ =~~= self@);
        res
    }
}


/// Where an [`ObjectSync`] is read.
#[derive(Debug, PartialEq, Eq)]
pub struct ObjectAddress {
    /// The namespace, where it has one.
    pub namespace: Option<String>,
    /// The name.
    pub name: String,
}

/// The model of [`ObjectAddress`].
#[verifier::ext_equal]
pub struct ObjectAddressView {
    pub namespace: Option<Text>,
    pub name: Text,
}

impl View for ObjectAddress {
    type V = ObjectAddressView;

    open spec fn view(&self) -> ObjectAddressView {
        ObjectAddressView {
            namespace: text::view_opt(self.namespace),
            name: self.name@,
        }
    }
}

impl Clone for ObjectAddress {
    fn clone(&self) -> (res: Self)
        ensures
            res@ == self@,
    {
        let res = ObjectAddress {
            namespace: self.namespace.clone(),
            name: self.name.clone(),
        };
        assert(res@ =~~= self@);
        res
    }
}


/// The replacement of an [`ObjectSync`], or of its status alone.
#[derive(Debug, PartialEq, Eq)]
pub struct Replacement {
    /// The namespace, where it has one.
    pub namespace: Option<String>,
    /// The name.
    pub name: String,
    /// How it is written.
    pub params: PostParams,
    /// The object to write.
    pub object: ObjectSync,
}

/// The model of [`Replacement`].
#[verifier::ext_equal]
pub struct ReplacementView {
    pub namespace: Option<Text>,
    pub name: Text,
    pub params: request::PostParamsView,
    pub object: api::ObjectSyncView,
}

impl View for Replacement {
    type V = ReplacementView;

    open spec fn view(&self) -> ReplacementView {
        ReplacementView {
            namespace: text::view_opt(self.namespace),
            name: self.name@,
            params: self.params@,
            object: self.object@,
        }
    }
}

impl Clone for Replacement {
    fn clone(&self) -> (res: Self)
        ensures
            res@ == self@,
    {
        let res = Replacement {
            namespace: self.namespace.clone(),
            name: self.name.clone(),
            params: self.params.clone(),
            object: self.object.clone(),
        };
        assert(res@ =~~= self@);
        res
    }
}

/// The operations that turn one JSON document into another, none at all where
/// there are no differences.
pub open spec fn patch_between(from: Text, to: Text) -> Result<
    Option<Seq<Text>>,
    errors::ControllerErrorView,
> {
    if from == to {
        Ok(None)
    } else {
        match outside::json_diff(from, to) {
            Ok(operations) => if operations.len() == 0 {
                Ok(None)
            } else {
                Ok(Some(operations))
            },
            Err(message) => Err(errors::ControllerErrorView::Serde(message)),
        }
    }
}

/// Whether `patch` turns the document `from` into the document `to`: there is
/// none exactly where they are the same document, else there is at least one
/// operation, and the operations make the one of the other. It only fails on
/// texts that differ.
pub open spec fn turns_into(
    patch: Result<Option<Seq<Text>>, errors::ControllerErrorView>,
    from: Text,
    to: Text,
) -> bool {
    match patch {
        Ok(Some(operations)) => {
            &&& operations.len() > 0
            &&& outside::json_document(from) != outside::json_document(to)
            &&& outside::json_patched(from, operations) == outside::json_document(to)
        },
        Ok(None) => outside::json_document(from) == outside::json_document(to),
        Err(_) => from != to,
    }
}

/// Whether there are differences, from the operations that remove them.
pub open spec fn differs(
    patch: Result<Option<Seq<Text>>, errors::ControllerErrorView>,
) -> Result<bool, errors::ControllerErrorView> {
    match patch {
        Ok(operations) => Ok(operations is Some),
        Err(e) => Err(e),
    }
}

/// The view of a patch.
pub open spec fn patch_view(patch: Result<Option<Vec<String>>, ControllerError>) -> Result<
    Option<Seq<Text>>,
    errors::ControllerErrorView,
> {
    match patch {
        Ok(operations) => Ok(text::view_opt_vec(operations)),
        Err(e) => Err(e@),
    }
}

/// Computes the operations that turn one JSON document into another.
fn patch_documents(from: &str, to: &str) -> (res: Result<Option<Vec<String>>, ControllerError>)
    ensures
        patch_view(res) == patch_between(from@, to@),
        turns_into(patch_view(res), from@, to@),
        outside::is_json(from@, outside::json_depth()) && outside::is_json(
            to@,
            outside::json_depth(),
        ) ==> res is Ok,
{
    if text::same_text(from, to) {
        return Ok(None);
    }
    match outside::diff_json(from, to) {
        Ok(operations) => if operations.is_empty() {
            assert(text::views(operations@) =~= Seq::empty());
            Ok(None)
        } else {
            Ok(Some(operations))
        },
        Err(message) => Err(ControllerError::Serde(message)),
    }
}

/// The JSON form of everything but the status.
pub open spec fn without_status(o: api::ObjectSyncView) -> Text {
    wire::object_sync_json(api::ObjectSyncView { status: None, ..o })
}

impl ObjectSyncModificationsView {
    /// The operations that turn `latest` into the modified object, the status
    /// aside.
    pub open spec fn spec_patch(self, latest: api::ObjectSyncView) -> Result<
        Option<Seq<Text>>,
        errors::ControllerErrorView,
    > {
        patch_between(without_status(latest), without_status(self.modified))
    }

    /// The operations that turn the status of `latest` into that of the
    /// modified object.
    pub open spec fn status_patch(self, latest: api::ObjectSyncView) -> Result<
        Option<Seq<Text>>,
        errors::ControllerErrorView,
    > {
        patch_between(
            wire::status_json_or_null(latest.status),
            wire::status_json_or_null(self.modified.status),
        )
    }

    /// Where the object is read.
    pub open spec fn address(self) -> ObjectAddressView {
        ObjectAddressView {
            namespace: self.original.metadata.namespace,
            name: self.modified.metadata.name_any(),
        }
    }

    /// With `object` both as stored and as modified.
    pub open spec fn settled(object: api::ObjectSyncView) -> ObjectSyncModificationsView {
        ObjectSyncModificationsView { original: object, modified: object }
    }

    /// The modified object at the stored version of `latest`.
    pub open spec fn at_version_of(self, latest: api::ObjectSyncView) -> ObjectSyncModificationsView {
        ObjectSyncModificationsView {
            modified: api::ObjectSyncView {
                metadata: crate::meta::ObjectMetaView {
                    resource_version: latest.metadata.resource_version,
                    ..self.modified.metadata
                },
                ..self.modified
            },
            ..self
        }
    }

    /// With the tracked destinations replaced.
    pub open spec fn with_destinations(
        self,
        destinations: Seq<api::DestinationStatusView>,
    ) -> ObjectSyncModificationsView {
        ObjectSyncModificationsView {
            modified: self.modified.with_destinations(destinations),
            ..self
        }
    }

    /// With the condition `c` recorded at `time`.
    pub open spec fn with_condition(self, c: api::ConditionView, time: Text) -> ObjectSyncModificationsView {
        ObjectSyncModificationsView { modified: self.modified.with_condition(c, time), ..self }
    }

    /// The write of the modified object.
    pub open spec fn replacement(self) -> ReplacementView {
        ReplacementView {
            namespace: self.original.metadata.namespace,
            name: self.modified.metadata.name_any(),
            params: request::PostParamsView::managed(),
            object: self.modified,
        }
    }
}

impl ObjectSyncModifications {
    /// No changes to `original` yet.
    pub fn new(original: ObjectSync) -> (res: Self)
        ensures
            res@ == ObjectSyncModificationsView::settled(original@),
    {
        let modified = original.clone();
        ObjectSyncModifications { original, modified }
    }

    /// Whether the deletion of the object was requested.
    pub fn is_deleted(&self) -> (res: bool)
        ensures
            res == (self@.modified.metadata.deletion_timestamp is Some),
    {
        self.modified.metadata.deletion_timestamp.is_some()
    }

    /// Where the object is read.
    fn address(&self) -> (res: ObjectAddress)
        ensures
            res@ == self@.address(),
    {
        ObjectAddress {
            namespace: self.original.metadata.namespace.clone(),
            name: self.modified.metadata.name_any(),
        }
    }

    /// The operations that turn `latest` into the modified object, the status
    /// aside: none where there are no differences.
    pub fn get_spec_patch(&self, latest: &ObjectSync) -> (res: Result<
        Option<Vec<String>>,
        ControllerError,
    >)
        ensures
            patch_view(res) == self@.spec_patch(latest@),
            turns_into(patch_view(res), without_status(latest@), without_status(self@.modified)),
            latest@.metadata == self@.modified.metadata && latest@.spec == self@.modified.spec ==> (
            res matches Ok(None)),
            wire::metadata_parts_are_json(latest@.metadata) && wire::metadata_parts_are_json(
                self@.modified.metadata,
            ) ==> res is Ok,
    {
        proof {
            if wire::metadata_parts_are_json(latest@.metadata) && wire::metadata_parts_are_json(
                self@.modified.metadata,
            ) {
                wire::law_object_sync_is_json(api::ObjectSyncView { status: None, ..latest@ });
                wire::law_object_sync_is_json(
                    api::ObjectSyncView { status: None, ..self@.modified },
                );
            }
        }
        let mut from = latest.clone();
        let mut to = self.modified.clone();
        from.status = None;
        to.status = None;
        patch_documents(from.to_json().as_str(), to.to_json().as_str())
    }

    /// The operations that turn the status of `latest` into that of the
    /// modified object: none where there are no differences.
    pub fn get_status_patch(&self, latest: &ObjectSync) -> (res: Result<
        Option<Vec<String>>,
        ControllerError,
    >)
        ensures
            patch_view(res) == self@.status_patch(latest@),
            turns_into(
                patch_view(res),
                wire::status_json_or_null(latest@.status),
                wire::status_json_or_null(self@.modified.status),
            ),
            latest@.status == self@.modified.status ==> (res matches Ok(None)),
            res is Ok,
    {
        proof {
            wire::law_status_is_json(latest@.status);
            wire::law_status_is_json(self@.modified.status);
        }
        patch_documents(
            wire::status_to_json(&latest.status).as_str(),
            wire::status_to_json(&self.modified.status).as_str(),
        )
    }

    /// Whether the status was modified.
    pub fn status_has_changed(&self) -> (res: Result<bool, ControllerError>)
        ensures
            text::view_res(res) == differs(self@.status_patch(self@.original)),
            self@.original.status == self@.modified.status ==> (res matches Ok(false)),
            res matches Ok(changed) && changed == (outside::json_document(
                wire::status_json_or_null(self@.original.status),
            ) != outside::json_document(wire::status_json_or_null(self@.modified.status))),
    {
        match self.get_status_patch(&self.original) {
            Ok(patch) => Ok(patch.is_some()),
            Err(e) => Err(e),
        }
    }

    /// Whether anything but the status was modified.
    pub fn spec_has_changed(&self) -> (res: Result<bool, ControllerError>)
        ensures
            text::view_res(res) == differs(self@.spec_patch(self@.original)),
            self@.original.metadata == self@.modified.metadata && self@.original.spec
                == self@.modified.spec ==> (res matches Ok(false)),
            res matches Ok(changed) ==> changed == (outside::json_document(
                without_status(self@.original),
            ) != outside::json_document(without_status(self@.modified))),
            wire::metadata_parts_are_json(self@.original.metadata)
                && wire::metadata_parts_are_json(self@.modified.metadata) ==> res is Ok,
    {
        match self.get_spec_patch(&self.original) {
            Ok(patch) => Ok(patch.is_some()),
            Err(e) => Err(e),
        }
    }

    /// Begins to replace the status: where it was modified, the latest object
    /// is to be read first.
    pub fn replace_status(&self) -> (res: Result<Option<ObjectAddress>, ControllerError>)
        ensures
            (match res {
                Ok(address) => Ok(text::view_opt(address)),
                Err(e) => Err(e@),
            }) == reading_first(self@.status_patch(self@.original), self@.address()),
            self@.original.status == self@.modified.status ==> (res matches Ok(None)),
            res matches Ok(address) && (address is Some <==> outside::json_document(
                wire::status_json_or_null(self@.original.status),
            ) != outside::json_document(wire::status_json_or_null(self@.modified.status))),
    {
        match self.status_has_changed() {
            Ok(true) => Ok(Some(self.address())),
            Ok(false) => Ok(None),
            Err(e) => Err(e),
        }
    }

    /// The write of the modified object, or of its status alone, over the
    /// latest one that was read.
    pub fn replacement(&mut self, latest: Result<ObjectSync, KubeError>) -> (res: Result<
        Replacement,
        ControllerError,
    >)
        ensures
            (match latest {
                Ok(l) => {
                    &&& final(self)@ == old(self)@.at_version_of(l@)
                    &&& res matches Ok(r)
                    &&& r@ == old(self)@.at_version_of(l@).replacement()
                },
                Err(e) => {
                    &&& final(self)@ == old(self)@
                    &&& res matches Err(f)
                    &&& f@ == errors::ControllerErrorView::KubeApi(e@)
                },
            }),
    {
        match latest {
            Ok(latest) => {
                self.modified.metadata.resource_version = latest.metadata.resource_version.clone();
                Ok(
                    Replacement {
                        namespace: self.original.metadata.namespace.clone(),
                        name: self.modified.metadata.name_any(),
                        params: PostParams::managed(),
                        object: self.modified.clone(),
                    },
                )
            },
            Err(e) => Err(ControllerError::KubeApi(e)),
        }
    }

    /// Takes over the object that the server answered a write with.
    pub fn written(&mut self, reply: Result<ObjectSync, KubeError>) -> (res: Result<
        (),
        ControllerError,
    >)
        ensures
            (match reply {
                Ok(object) => {
                    &&& final(self)@ == ObjectSyncModificationsView::settled(object@)
                    &&& res is Ok
                },
                Err(e) => {
                    &&& final(self)@ == old(self)@
                    &&& res matches Err(f)
                    &&& f@ == errors::ControllerErrorView::KubeApi(e@)
                },
            }),
    {
        match reply {
            Ok(object) => {
                self.original = object.clone();
                self.modified = object;
                Ok(())
            },
            Err(e) => Err(ControllerError::KubeApi(e)),
        }
    }

    /// Begins to patch everything but the status: where it was modified, the
    /// latest object is to be read first.
    pub fn patch_spec(&self) -> (res: Result<Option<ObjectAddress>, ControllerError>)
        ensures
            (match res {
                Ok(address) => Ok(text::view_opt(address)),
                Err(e) => Err(e@),
            }) == reading_first(self@.spec_patch(self@.original), self@.address()),
            self@.original.metadata == self@.modified.metadata && self@.original.spec
                == self@.modified.spec ==> (res matches Ok(None)),
            wire::metadata_parts_are_json(self@.original.metadata)
                && wire::metadata_parts_are_json(self@.modified.metadata) ==> res is Ok,
    {
        match self.spec_has_changed() {
            Ok(true) => Ok(Some(self.address())),
            Ok(false) => Ok(None),
            Err(e) => Err(e),
        }
    }

    /// The patch of the latest object that was read, where it is not as
    /// modified already.
    pub fn spec_patch(&self, latest: Result<ObjectSync, KubeError>) -> (res: Result<
        Option<JsonPatch>,
        ControllerError,
    >)
        ensures
            (match res {
                Ok(patch) => Ok(text::view_opt(patch)),
                Err(e) => Err(e@),
            }) == patch_over(self@, text::view_res(latest)),
            latest matches Ok(l) ==> (wire::metadata_parts_are_json(l@.metadata)
                && wire::metadata_parts_are_json(self@.modified.metadata) ==> res is Ok),
    {
        match latest {
            Ok(latest) => match self.get_spec_patch(&latest) {
                Ok(Some(operations)) => Ok(
                    Some(
                        JsonPatch {
                            name: self.original.metadata.name_any(),
                            params: PatchParams::json(),
                            operations,
                        },
                    ),
                ),
                Ok(None) => Ok(None),
                Err(e) => Err(e),
            },
            Err(e) => Err(ControllerError::KubeApi(e)),
        }
    }
}

/// Where to read first, given the patch from the stored object: nowhere
/// without differences.
pub open spec fn reading_first(
    patch: Result<Option<Seq<Text>>, errors::ControllerErrorView>,
    address: ObjectAddressView,
) -> Result<Option<ObjectAddressView>, errors::ControllerErrorView> {
    match patch {
        Ok(Some(_)) => Ok(Some(address)),
        Ok(None) => Ok(None),
        Err(e) => Err(e),
    }
}

/// The patch of the latest object that was read.
pub open spec fn patch_over(
    m: ObjectSyncModificationsView,
    latest: Result<api::ObjectSyncView, errors::KubeErrorView>,
) -> Result<Option<request::JsonPatchView>, errors::ControllerErrorView> {
    match latest {
        Ok(latest) => match m.spec_patch(latest) {
            Ok(Some(operations)) => Ok(
                Some(
                    request::JsonPatchView {
                        name: m.original.metadata.name_any(),
                        params: request::PatchParamsView::json(),
                        operations,
                    },
                ),
            ),
            Ok(None) => Ok(None),
            Err(e) => Err(e),
        },
        Err(e) => Err(errors::ControllerErrorView::KubeApi(e)),
    }
}

/// Without changes nothing is written, neither the status nor the rest, and
/// nothing is read for it.
pub proof fn law_unchanged_object_is_not_written(object: api::ObjectSyncView)
    ensures
        ({
            let m = ObjectSyncModificationsView::settled(object);
            &&& reading_first(m.status_patch(m.original), m.address()) == Ok::<
                Option<ObjectAddressView>,
                errors::ControllerErrorView,
            >(None)
            &&& reading_first(m.spec_patch(m.original), m.address()) == Ok::<
                Option<ObjectAddressView>,
                errors::ControllerErrorView,
            >(None)
        }),
{
}

/// Objects that differ in their status alone need no patch.
pub proof fn law_status_is_no_part_of_the_patch(
    m: ObjectSyncModificationsView,
    latest: api::ObjectSyncView,
)
    requires
        latest.metadata == m.modified.metadata,
        latest.spec == m.modified.spec,
    ensures
        m.spec_patch(latest) == Ok::<Option<Seq<Text>>, errors::ControllerErrorView>(None),
{
    assert(api::ObjectSyncView { status: None, ..latest } == api::ObjectSyncView {
        status: None,
        ..m.modified
    });
}

/// A write of the status that failed is made again: what the preparation of the
/// write changed, the stored version, is no part of what decides on it.
pub proof fn law_failed_write_is_made_again(
    m: ObjectSyncModificationsView,
    latest: api::ObjectSyncView,
)
    ensures
        ({
            let failed = m.at_version_of(latest);
            &&& failed.original == m.original
            &&& failed.modified.status == m.modified.status
            &&& reading_first(failed.status_patch(failed.original), failed.address())
                == reading_first(m.status_patch(m.original), m.address())
        }),
{
}

/// The object is read and written where it is stored, under its name. What is
/// written is the object as modified, at the version of the latest one, in the name
/// of the syncer, and nothing else of it changes.
pub proof fn law_modified_object_is_written_over_the_latest(
    m: ObjectSyncModificationsView,
    latest: api::ObjectSyncView,
    name: Text,
)
    requires
        crate::meta::is_named(m.modified.metadata, name),
    ensures
        m.address().namespace == m.original.metadata.namespace,
        m.address().name == name,
        ({
            let r = m.at_version_of(latest).replacement();
            &&& r.namespace == m.original.metadata.namespace
            &&& r.name == name
            &&& !r.params.dry_run
            &&& r.params.field_manager == Some("rustrial-object-syncer"@)
            &&& r.object.spec == m.modified.spec
            &&& r.object.status == m.modified.status
            &&& r.object.metadata.resource_version == latest.metadata.resource_version
            &&& (crate::meta::ObjectMetaView { resource_version: None, ..r.object.metadata }) == (
            crate::meta::ObjectMetaView { resource_version: None, ..m.modified.metadata })
            &&& m.at_version_of(latest).original == m.original
            &&& m.at_version_of(latest).modified == r.object
        }),
{
    crate::meta::law_used_name_is_its_own(m.modified.metadata, name, name);
}

/// The patch of an object is what turns the latest one into the modified one, the
/// status of both aside. That of a status is what turns the latest status into the
/// modified one. There is none without differences.
pub proof fn law_patch_leads_to_the_modified_object(
    m: ObjectSyncModificationsView,
    latest: api::ObjectSyncView,
)
    ensures
        ({
            let from = wire::object_sync_json(
                api::ObjectSyncView {
                    metadata: latest.metadata,
                    spec: latest.spec,
                    status: None,
                },
            );
            let to = wire::object_sync_json(
                api::ObjectSyncView {
                    metadata: m.modified.metadata,
                    spec: m.modified.spec,
                    status: None,
                },
            );
            match m.spec_patch(latest) {
                Ok(Some(operations)) => from != to && operations.len() > 0 && outside::json_diff(
                    from,
                    to,
                ) == Ok::<Seq<Text>, Text>(operations),
                Ok(None) => from == to || outside::json_diff(from, to) == Ok::<Seq<Text>, Text>(
                    Seq::empty(),
                ),
                Err(e) => from != to && (outside::json_diff(from, to) matches Err(message) && e
                    == errors::ControllerErrorView::Serde(message)),
            }
        }),
        ({
            let from = wire::status_json_or_null(latest.status);
            let to = wire::status_json_or_null(m.modified.status);
            match m.status_patch(latest) {
                Ok(Some(operations)) => from != to && operations.len() > 0 && outside::json_diff(
                    from,
                    to,
                ) == Ok::<Seq<Text>, Text>(operations),
                Ok(None) => from == to || outside::json_diff(from, to) == Ok::<Seq<Text>, Text>(
                    Seq::empty(),
                ),
                Err(e) => from != to && (outside::json_diff(from, to) matches Err(message) && e
                    == errors::ControllerErrorView::Serde(message)),
            }
        }),
{
    if let Ok(operations) = outside::json_diff(without_status(latest), without_status(m.modified)) {
        if operations.len() == 0 {
            assert(operations =~= Seq::empty());
        }
    }
    if let Ok(operations) = outside::json_diff(
        wire::status_json_or_null(latest.status),
        wire::status_json_or_null(m.modified.status),
    ) {
        if operations.len() == 0 {
            assert(operations =~= Seq::empty());
        }
    }
}

/// The patch goes to the object under its stored name, in the name of the syncer. It
/// is that of the latest object, and none is made where this could not be read.
pub proof fn law_latest_object_is_patched(
    m: ObjectSyncModificationsView,
    latest: api::ObjectSyncView,
    e: errors::KubeErrorView,
    name: Text,
)
    requires
        crate::meta::is_named(m.original.metadata, name),
    ensures
        match m.spec_patch(latest) {
            Ok(Some(operations)) => patch_over(m, Ok(latest)) matches Ok(Some(patch)) && patch.name
                == name && patch.operations == operations && !patch.params.dry_run
                && !patch.params.force && patch.params.field_manager == Some(
                "rustrial-object-syncer"@,
            ) && patch.params.field_validation is None,
            Ok(None) => patch_over(m, Ok(latest)) matches Ok(None),
            Err(x) => patch_over(m, Ok(latest)) == Err::<
                Option<request::JsonPatchView>,
                errors::ControllerErrorView,
            >(x),
        },
        patch_over(m, Err(e)) == Err::<Option<request::JsonPatchView>, errors::ControllerErrorView>(
            errors::ControllerErrorView::KubeApi(e),
        ),
{
    crate::meta::law_used_name_is_its_own(m.original.metadata, name, name);
}

/// The object is read first exactly where there is something to patch, and where it
/// is. Recording a condition or the tracked destinations changes the modified object
/// alone, and after a write both are what was stored.
pub proof fn law_only_changes_are_read_for(
    m: ObjectSyncModificationsView,
    patch: Result<Option<Seq<Text>>, errors::ControllerErrorView>,
    address: ObjectAddressView,
    destinations: Seq<api::DestinationStatusView>,
    c: api::ConditionView,
    time: Text,
)
    ensures
        match patch {
            Ok(Some(_)) => reading_first(patch, address) == Ok::<
                Option<ObjectAddressView>,
                errors::ControllerErrorView,
            >(Some(address)) && differs(patch) == Ok::<bool, errors::ControllerErrorView>(true),
            Ok(None) => reading_first(patch, address) == Ok::<
                Option<ObjectAddressView>,
                errors::ControllerErrorView,
            >(None) && differs(patch) == Ok::<bool, errors::ControllerErrorView>(false),
            Err(e) => reading_first(patch, address) == Err::<
                Option<ObjectAddressView>,
                errors::ControllerErrorView,
            >(e) && differs(patch) == Err::<bool, errors::ControllerErrorView>(e),
        },
        m.with_destinations(destinations).original == m.original,
        m.with_destinations(destinations).modified == m.modified.with_destinations(destinations),
        m.with_condition(c, time).original == m.original,
        m.with_condition(c, time).modified == m.modified.with_condition(c, time),
        ObjectSyncModificationsView::settled(m.modified).original == m.modified,
        ObjectSyncModificationsView::settled(m.modified).modified == m.modified,
{
}

/// The object is written over the latest one that was read, with the changes that
/// were made to it, and after the write both sides are what was stored. Where an
/// answer is an error, it is handed on, and nothing changes.
pub proof fn law_writes_of_an_object(
    original: ObjectSync,
    made: ObjectSyncModifications,
    m: &mut ObjectSyncModifications,
    latest: Result<ObjectSync, KubeError>,
    r: Result<Replacement, ControllerError>,
    n: &mut ObjectSyncModifications,
    reply: Result<ObjectSync, KubeError>,
    w: Result<(), ControllerError>,
    k: &ObjectSyncModifications,
    is_deleted: bool,
)
    requires
        call_ensures(ObjectSyncModifications::new, (original,), made),
        call_ensures(ObjectSyncModifications::replacement, (m, latest), r),
        call_ensures(ObjectSyncModifications::written, (n, reply), w),
        call_ensures(ObjectSyncModifications::is_deleted, (k,), is_deleted),
    ensures
        made.original@ == original@ && made.modified@ == original@,
        match latest {
            Ok(l) => {
                &&& final(m)@ == old(m)@.at_version_of(l@)
                &&& r matches Ok(x) && x@ == old(m)@.at_version_of(l@).replacement()
                    && text::view_opt(x.object.metadata.resource_version) == text::view_opt(
                    l.metadata.resource_version,
                ) && x.object@.spec == old(m)@.modified.spec && x.object@.status == old(
                    m,
                )@.modified.status
            },
            Err(e) => {
                &&& final(m)@ == old(m)@
                &&& r matches Err(f) && f@ == errors::ControllerErrorView::KubeApi(e@)
            },
        },
        match reply {
            Ok(object) => {
                &&& final(n)@.original == object@
                &&& final(n)@.modified == object@
                &&& w is Ok
            },
            Err(e) => {
                &&& final(n)@ == old(n)@
                &&& w matches Err(f) && f@ == errors::ControllerErrorView::KubeApi(e@)
            },
        },
        is_deleted <==> k.modified.metadata.deletion_timestamp is Some,
{
    assert(made@.original == original@);
    if let Ok(l) = latest {
        let x = r->Ok_0;
        assert(x@.object == x.object@);
        assert(x.object@.metadata.resource_version == l@.metadata.resource_version);
    }
    assert((k.modified.metadata.deletion_timestamp is Some) == (
    k@.modified.metadata.deletion_timestamp is Some));
}

/// The patches that are handed out are those that the laws on them speak of, and the
/// object is read first exactly where there is something to write.
pub proof fn law_patches_of_an_object(
    m: &ObjectSyncModifications,
    latest: &ObjectSync,
    spec_patch: Result<Option<Vec<String>>, ControllerError>,
    status_patch: Result<Option<Vec<String>>, ControllerError>,
    is_status_changed: Result<bool, ControllerError>,
    is_spec_changed: Result<bool, ControllerError>,
    status_address: Result<Option<ObjectAddress>, ControllerError>,
    spec_address: Result<Option<ObjectAddress>, ControllerError>,
    read: Result<ObjectSync, KubeError>,
    patch: Result<Option<JsonPatch>, ControllerError>,
)
    requires
        call_ensures(ObjectSyncModifications::get_spec_patch, (m, latest), spec_patch),
        call_ensures(ObjectSyncModifications::get_status_patch, (m, latest), status_patch),
        call_ensures(ObjectSyncModifications::status_has_changed, (m,), is_status_changed),
        call_ensures(ObjectSyncModifications::spec_has_changed, (m,), is_spec_changed),
        call_ensures(ObjectSyncModifications::replace_status, (m,), status_address),
        call_ensures(ObjectSyncModifications::patch_spec, (m,), spec_address),
        call_ensures(ObjectSyncModifications::spec_patch, (m, read), patch),
    ensures
        patch_view(spec_patch) == m@.spec_patch(latest@),
        patch_view(status_patch) == m@.status_patch(latest@),
        m.original@.status == m.modified@.status ==> (is_status_changed matches Ok(false)) && (
        status_address matches Ok(None)),
        m.original@.metadata == m.modified@.metadata && m.original@.spec == m.modified@.spec ==> (
        is_spec_changed matches Ok(false)) && (spec_address matches Ok(None)),
        is_status_changed matches Ok(true) ==> (status_address matches Ok(Some(a))
            && text::view_opt(a.namespace) == text::view_opt(m.original.metadata.namespace) && a@
            == m@.address()),
        is_spec_changed matches Ok(true) ==> (spec_address matches Ok(Some(a)) && text::view_opt(
            a.namespace,
        ) == text::view_opt(m.original.metadata.namespace) && a@ == m@.address()),
        (match patch {
            Ok(p) => Ok(text::view_opt(p)),
            Err(e) => Err(e@),
        }) == patch_over(m@, text::view_res(read)),
{
    let s = m@.status_patch(m@.original);
    let t = m@.spec_patch(m@.original);
    if let Ok(changed) = is_status_changed {
        assert(text::view_res(is_status_changed) == Ok::<bool, errors::ControllerErrorView>(changed));
        assert(changed == (s->Ok_0 is Some));
    }
    if let Ok(changed) = is_spec_changed {
        assert(text::view_res(is_spec_changed) == Ok::<bool, errors::ControllerErrorView>(changed));
        assert(changed == (t->Ok_0 is Some));
    }
}

} // verus!
