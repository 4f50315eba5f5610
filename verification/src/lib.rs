//! A namespaced registry of typed configuration parameters.
//!
//! Independent modules each declare a namespace of parameters. The registry
//! merges them into one key space with a stable binary identity, stores
//! values as bytes, and asks an authorization policy before every write.
//!
//! - [`definition`]: what a namespace declares.
//! - [`registry`]: the namespaces merged, each under its own discriminant.
//! - [`aggregate`]: the keys and values of the merged space and their bytes.
//! - [`scalar`] and [`wire`]: the fields of payloads and values on the wire.
//! - [`backend`] and [`store`]: the persisted entries, typed reads and
//!   authorized writes.
//! - [`policy`]: who may write which key.
//! - [`notifier`]: the record of every successful write.
//! - [`mock`]: a runtime of two namespaces to try all of this on.
//! - [`location`]: where a cross-chain transfer may go.

pub mod aggregate;
pub mod backend;
pub mod definition;
pub mod location;
pub mod mock;
pub mod notifier;
pub mod policy;
pub mod registry;
pub mod scalar;
pub mod store;
pub mod wire;
