//! Errors of the virtual machine core.

use vstd::prelude::*;

verus! {

/// The control-device requests that can fail.
#[derive(Debug, Clone, Copy, PartialEq, Eq, Structural)]
pub enum NameIOCTL {
    SetUserMemoryRegion,
    CreateIRQChip,
    CheckExtension,
    SetTssIdentity,
    SetTssAddr,
    EnableCap,
    GetIRQChip,
    SetIRQChip,
    GetClock,
    SetClock,
    CreateVcpu,
}

/// What can go wrong while a virtual machine is set up or run.
#[derive(Debug)]
pub enum Error {
    /// The guest memory could not be mapped.
    OutOfMemory,
    /// The named file is missing, is no kernel for this machine, or is no
    /// checkpoint of it.
    InvalidFile(String),
    /// An operation needs the kernel's entry point and none is known.
    KernelNotLoaded,
    /// The control device refused a request.
    IOCTL(NameIOCTL),
    /// The host cannot route interrupts by event descriptors.
    MissingCapabilityIRQFD,
    /// Fewer saved CPU states than virtual CPUs.
    VCpuStatesNotInitialized,
    /// A checkpoint could not be written.
    WriteCheckpoint,
    /// A checkpoint could not be read.
    ReadCheckpoint,
    /// The migration connection failed.
    MigrationIO,
    /// A virtual CPU thread ended with an error.
    ThreadError,
}

} // verus!
