//! Core of a small virtual machine monitor for a single unikernel guest:
//! guest memory with its 32-bit device hole, boot tables, kernel loading,
//! page-table scanning for checkpoints, checkpoint and migration streams,
//! and the decisions of the coordinator that drives the virtual CPUs.

pub mod boot;
pub mod checkpoint;
pub mod codec;
pub mod control;
pub mod coordinator;
pub mod cpus;
pub mod device;
pub mod elf;
pub mod error;
pub mod fidelity;
pub mod gdt;
pub mod klog;
pub mod layout;
pub mod loader;
pub mod mem;
pub mod migration;
pub mod rendezvous;
pub mod scan;
pub mod vm;
