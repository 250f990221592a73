//! A two-tier orchestrator for stateless Wasm instances: a node agent owns
//! local execution, crash detection and restart policy; a control plane owns
//! routing, capability bindings and the authoritative record of actual
//! instance state. Every public operation carries a contract, and the
//! system-wide invariants are stated and proved alongside the code.

pub mod agent;
pub mod capability;
pub mod control_plane;
pub mod error;
pub mod etcd;
pub mod events;
pub mod external;
pub mod instance_service;
pub mod isolation;
pub mod kv;
pub mod policy;
pub mod protocol;
pub mod providers;
pub mod registry;
pub mod routing;
pub mod routing_service;
pub mod statelessness;
pub mod strmap;
pub mod types;
pub mod wire;

pub use strmap::StrMap;
