//! A user-space microkernel core: a module registry with a lifecycle state
//! machine, a capability-based permission manager, point-to-point IPC
//! mailboxes, a topic-keyed event bus, a permission-checked bytecode
//! execution gate, and an append-only security audit trail.

pub mod errors;
pub mod permission;
pub mod module;
pub mod audit;
pub mod text;
pub mod payload;
pub mod ipc;
pub mod event_bus;
pub mod sandbox;
mod clock;
pub mod kernel;
pub mod network_info;
pub mod system_info;
pub mod user_manager;
