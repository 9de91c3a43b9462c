//! The logic of the object syncer, a Kubernetes controller that copies objects
//! between namespaces and keeps the copies in sync.
//!
//! An `ObjectSync` ([`api`]) names a source object and the destinations of its
//! copies. [`destinations`] says which copies are expected. Everything that takes
//! more than one request is a state machine: it is asked for the next action, and
//! handed what came of it. [`upsert_destinations`] writes copies and
//! [`delete_destinations`] deletes them; [`reconcile_source`] and
//! [`source_deleted`] do that for one `ObjectSync`, [`reconcile_resource`] for all
//! that refer to a source object. [`reconcile_object_sync`] looks after an
//! `ObjectSync` itself, by [`check_object_sync`] and [`delete_object_sync`], and
//! [`object_sync_controller`] keeps the registrations.
//!
//! Types stand beside models with the suffix `View`, and contracts speak of those.
//! What is believed of other crates stands in `outside`.

pub mod api;
pub mod check_object_sync;
pub mod conditions;
pub mod configuration;
pub mod delete_destinations;
pub mod delete_object_sync;
pub mod destination_order;
pub mod destinations;
pub mod discovery;
pub mod errors;
pub mod meta;
pub mod object_sync_controller;
pub mod object_sync_modifications;
pub mod outside;
pub mod reconcile_object_sync;
pub mod reconcile_resource;
pub mod reconcile_source;
pub mod request;
pub mod resource_controller;
pub mod schedule;
pub mod source_deleted;
pub mod sources;
pub mod text;
pub mod upsert_destinations;
pub mod utils;
pub mod watches;
pub mod wire;
