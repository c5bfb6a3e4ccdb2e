//! A state store and lifecycle controller for local virtual machines.
//!
//! The library owns the logic of the controller: the on-disk layout of a
//! VM directory, the serialized configuration format, the create workflow,
//! the stop escalation state machine, the liveness decision, and the
//! inventory report. Everything that touches the operating system or the
//! virtualization engine is driven from outside; the library decides, the
//! driver performs.

pub mod codec;
pub mod create;
pub mod digits;
pub mod escalate;
pub mod exception;
pub mod ipsw;
pub mod list;
pub mod stop;
pub mod vm_config;
pub mod vm_dir;
