//! Core of a container-image registry with a pull-through proxy cache.
//!
//! The library holds the verified logic: content-addressed path resolution,
//! reference validation, the upload session store, the manifest store, the
//! upstream authentication state machine, the client cache, and the proxy
//! fetch decisions. Filesystem and network plumbing stay outside; the
//! library models registry storage as an explicit file table and states
//! every operation's effect on it.

pub mod authentication_strategies;
pub mod client;
pub mod client_responses;
pub mod clients_store;
pub mod configuration;
pub mod controllers;
pub mod file_store;
pub mod helpers;
pub mod json_registry_error;
pub mod laws;
pub mod manifests;
pub mod uploads;
pub mod www_authenticate;

pub use helpers::RegistryPathsHelper;
