//! Setting up the machine at the host's control device: what is asked of the
//! device, in which order, and what its answers lead to.

use vstd::prelude::*;
use crate::error::{Error, NameIOCTL};
use crate::mem::{regions_of, MemoryRegion};
use crate::vm::{KVMExtensions, VirtualMachine};

verus! {

/// Capability: interrupt controller in the kernel.
pub const KVM_CAP_IRQCHIP: u32 = 0;

/// Capability: virtual APIC.
pub const KVM_CAP_VAPIC: u32 = 6;

/// Capability: guest page tables in step with the host's.
pub const KVM_CAP_SYNC_MMU: u32 = 16;

/// Capability: interrupts by event descriptor.
pub const KVM_CAP_IRQFD: u32 = 32;

/// Capability: the guest's clock can be set.
pub const KVM_CAP_ADJUST_CLOCK: u32 = 39;

/// Capability: TSC deadline timer.
pub const KVM_CAP_TSC_DEADLINE_TIMER: u32 = 72;

/// Capability: x2APIC interface.
pub const KVM_CAP_X2APIC_API: u32 = 129;

/// x2APIC interface: 32-bit ids.
pub const KVM_X2APIC_API_USE_32BIT_IDS: u64 = 1;

/// x2APIC interface: no broadcast to id 255.
pub const KVM_X2APIC_API_DISABLE_BROADCAST_QUIRK: u64 = 2;

/// Answer of the clock capability where the clock is stable.
pub const KVM_CLOCK_TSC_STABLE: i32 = 2;

/// Id of the I/O APIC among the interrupt controllers.
pub const KVM_IRQCHIP_IOAPIC: u32 = 2;

/// Number of pins of the I/O APIC.
pub const KVM_IOAPIC_NUM_PINS: usize = 24;

/// Where the identity map goes on a host that keeps guest page tables in
/// step.
pub const IDENTITY_BASE_SYNC: u64 = 0xfeff_c000;

/// Where the identity map is otherwise.
pub const IDENTITY_BASE: u64 = 0xfffb_c000;

/// Distance of the task state segment from the identity map.
pub const TSS_OFFSET: u64 = 0x1000;

/// Vector of the interrupt of pin 0.
pub const FIRST_VECTOR: u8 = 0x20;

/// The pin that stays masked.
pub const MASKED_PIN: u8 = 2;

/// A capability to be switched on, with its arguments.
#[derive(Debug, Clone, Copy, PartialEq, Eq)]
pub struct EnableCap {
    pub cap: u32,
    pub flags: u32,
    pub args: [u64; 4],
}

/// One request to the control device.
#[derive(Debug, Clone, Copy, PartialEq, Eq)]
pub enum Request {
    /// Ask for a capability.
    CheckExtension(u32),
    /// Place the identity map.
    SetIdentityMapAddr(u64),
    /// Place the task state segment.
    SetTssAddr(u64),
    /// Register a range of guest memory.
    SetUserMemoryRegion(MemoryRegion),
    /// Create the interrupt controllers.
    CreateIrqChip,
    /// Switch a capability on.
    EnableCap(EnableCap),
    /// Fetch the state of an interrupt controller.
    GetIrqChip(u32),
    /// Store the state of an interrupt controller.
    SetIrqChip(u32),
}

/// The device's answer to the last request.
#[derive(Debug, Clone, Copy, PartialEq, Eq, Structural)]
pub enum Reply {
    /// Nothing was asked yet.
    Begin,
    /// The request was refused.
    Failed,
    /// The request was carried out.
    Done,
    /// The request was carried out and gave this number.
    Value(i32),
}

/// What `init` wants next.
#[derive(Debug)]
pub enum Step {
    /// This request is to be made, and its answer handed to `init`.
    Ask(Request),
    /// The machine is set up.
    Ready,
    /// The machine cannot be set up.
    Failed(Error),
}

/// How far the setup has come: which request is under way.
#[derive(Debug, Clone, Copy, PartialEq, Eq, Structural)]
pub enum InitPhase {
    Start,
    SyncMmu,
    IdentityMap,
    TssAddr,
    /// The memory region with this index.
    Region(usize),
    IrqChip,
    X2Apic,
    GetChip,
    SetChip,
    TscDeadline,
    IrqChipCap,
    AdjustClock,
    IrqFd,
    Vapic,
    Ready,
    /// Setup has failed, at this request or for want of IRQFD.
    Broken(Option<NameIOCTL>),
}

/// The state of the I/O APIC as the device hands it out and takes it back.
#[derive(Debug, Clone)]
pub struct IoApicState {
    pub base_address: u64,
    pub ioregsel: u32,
    pub id: u32,
    pub irr: u32,
    /// One redirection entry per pin.
    pub redirtbl: Vec<u64>,
}

/// The redirection entry of pin `pin`, given the entry it replaces: vector
/// `FIRST_VECTOR + pin`, fixed delivery to destination 0 in physical mode,
/// masked for `MASKED_PIN` alone. Bits 24 to 55 are kept.
pub open spec fn redirect_entry(entry: u64, pin: u8) -> u64 {
    (entry & 0x00ff_ffff_ff00_0000u64) | (if pin == MASKED_PIN {
        0x1_0000u64
    } else {
        0u64
    }) | ((FIRST_VECTOR + pin) as u64)
}

/// The fields of a programmed redirection entry.
pub proof fn lemma_redirect_entry_fields(entry: u64, pin: u8)
    requires
        pin < KVM_IOAPIC_NUM_PINS,
    ensures
        ({
            let e = redirect_entry(entry, pin);
            &&& e & 0xff == FIRST_VECTOR + pin
            &&& (e >> 8) & 0x7 == 0
            &&& (e >> 11) & 0x1 == 0
            &&& (e >> 16) & 0x1 == if pin == MASKED_PIN {
                1u64
            } else {
                0u64
            }
            &&& (e >> 56) & 0xff == 0
            &&& e & 0x00ff_ffff_ff00_0000u64 == entry & 0x00ff_ffff_ff00_0000u64
        }),
{
    let v = (FIRST_VECTOR + pin) as u64;
    let m = if pin == MASKED_PIN {
        0x1_0000u64
    } else {
        0u64
    };
    assert(v < 0x100 && (m == 0 || m == 0x1_0000) ==> ({
        let e = (entry & 0x00ff_ffff_ff00_0000u64) | m | v;
        &&& e & 0xff == v
        &&& (e >> 8) & 0x7 == 0
        &&& (e >> 11) & 0x1 == 0
        &&& (e >> 16) & 0x1 == m >> 16
        &&& (e >> 56) & 0xff == 0
        &&& e & 0x00ff_ffff_ff00_0000u64 == entry & 0x00ff_ffff_ff00_0000u64
    })) by (bit_vector);
    assert(0x1_0000u64 >> 16 == 1 && 0u64 >> 16 == 0) by (bit_vector);
}

/// The capability request that selects the x2APIC interface.
pub open spec fn x2apic_cap() -> EnableCap {
    EnableCap {
        cap: KVM_CAP_X2APIC_API,
        flags: 0,
        args: [
            KVM_X2APIC_API_USE_32BIT_IDS | KVM_X2APIC_API_DISABLE_BROADCAST_QUIRK,
            0,
            0,
            0,
        ],
    }
}

/// The error that a refused request of each phase leads to.
pub open spec fn refused(phase: InitPhase) -> NameIOCTL {
    match phase {
        InitPhase::IdentityMap => NameIOCTL::SetTssIdentity,
        InitPhase::TssAddr => NameIOCTL::SetTssAddr,
        InitPhase::Region(_) => NameIOCTL::SetUserMemoryRegion,
        InitPhase::IrqChip => NameIOCTL::CreateIRQChip,
        InitPhase::X2Apic => NameIOCTL::EnableCap,
        InitPhase::GetChip => NameIOCTL::GetIRQChip,
        InitPhase::SetChip => NameIOCTL::SetIRQChip,
        _ => NameIOCTL::CheckExtension,
    }
}

/// The error that a failed setup reports.
pub open spec fn failure(cause: Option<NameIOCTL>) -> Error {
    match cause {
        Some(name) => Error::IOCTL(name),
        None => Error::MissingCapabilityIRQFD,
    }
}

/// The request that is under way in each phase but the first and the last
/// ones, for a machine with the given memory regions.
pub open spec fn request_of(phase: InitPhase, sync_mmu: bool, regions: Seq<MemoryRegion>)
    -> Request {
    match phase {
        InitPhase::SyncMmu => Request::CheckExtension(KVM_CAP_SYNC_MMU),
        InitPhase::IdentityMap => Request::SetIdentityMapAddr(identity_base(sync_mmu)),
        InitPhase::TssAddr => Request::SetTssAddr((identity_base(sync_mmu) + TSS_OFFSET) as u64),
        InitPhase::Region(k) => Request::SetUserMemoryRegion(regions[k as int]),
        InitPhase::IrqChip => Request::CreateIrqChip,
        InitPhase::X2Apic => Request::EnableCap(x2apic_cap()),
        InitPhase::GetChip => Request::GetIrqChip(KVM_IRQCHIP_IOAPIC),
        InitPhase::SetChip => Request::SetIrqChip(KVM_IRQCHIP_IOAPIC),
        InitPhase::TscDeadline => Request::CheckExtension(KVM_CAP_TSC_DEADLINE_TIMER),
        InitPhase::IrqChipCap => Request::CheckExtension(KVM_CAP_IRQCHIP),
        InitPhase::AdjustClock => Request::CheckExtension(KVM_CAP_ADJUST_CLOCK),
        InitPhase::IrqFd => Request::CheckExtension(KVM_CAP_IRQFD),
        _ => Request::CheckExtension(KVM_CAP_VAPIC),
    }
}

/// Whether the answer to the question for `KVM_CAP_SYNC_MMU` says that the
/// host keeps guest page tables in step. A refused question says it does
/// not.
pub open spec fn says_sync_mmu(reply: Reply) -> bool {
    reply matches Reply::Value(v) && v > 0
}

/// Where the identity map goes.
pub open spec fn identity_base(sync_mmu: bool) -> u64 {
    if sync_mmu {
        IDENTITY_BASE_SYNC
    } else {
        IDENTITY_BASE
    }
}

/// The phase that follows `phase` on the answer `reply`. `chip_ok` tells
/// whether the state of the I/O APIC that came with the answer has an entry
/// for every pin; `irqfd` whether interrupts by event descriptor were found.
pub open spec fn next_phase(
    phase: InitPhase,
    reply: Reply,
    regions: Seq<MemoryRegion>,
    chip_ok: bool,
    irqfd: bool,
) -> InitPhase {
    let broken = InitPhase::Broken(Some(refused(phase)));
    match phase {
        InitPhase::Start => InitPhase::SyncMmu,
        InitPhase::SyncMmu => if says_sync_mmu(reply) {
            InitPhase::IdentityMap
        } else {
            InitPhase::TssAddr
        },
        InitPhase::IdentityMap => if reply is Done {
            InitPhase::TssAddr
        } else {
            broken
        },
        InitPhase::TssAddr => if reply is Done {
            InitPhase::Region(0)
        } else {
            broken
        },
        InitPhase::Region(k) => if !(reply is Done) {
            broken
        } else if k + 1 < regions.len() {
            InitPhase::Region((k + 1) as usize)
        } else {
            InitPhase::IrqChip
        },
        InitPhase::IrqChip => if reply is Done {
            InitPhase::X2Apic
        } else {
            broken
        },
        InitPhase::X2Apic => if reply is Done {
            InitPhase::GetChip
        } else {
            broken
        },
        InitPhase::GetChip => if reply is Done && chip_ok {
            InitPhase::SetChip
        } else {
            broken
        },
        InitPhase::SetChip => if reply is Done {
            InitPhase::TscDeadline
        } else {
            broken
        },
        InitPhase::TscDeadline => if reply is Value {
            InitPhase::IrqChipCap
        } else {
            broken
        },
        InitPhase::IrqChipCap => if reply is Value {
            InitPhase::AdjustClock
        } else {
            broken
        },
        InitPhase::AdjustClock => if reply is Value {
            InitPhase::IrqFd
        } else {
            broken
        },
        InitPhase::IrqFd => if reply is Value {
            InitPhase::Vapic
        } else {
            broken
        },
        InitPhase::Vapic => if !(reply is Value) {
            broken
        } else if irqfd {
            InitPhase::Ready
        } else {
            InitPhase::Broken(None)
        },
        InitPhase::Ready => InitPhase::Ready,
        InitPhase::Broken(cause) => InitPhase::Broken(cause),
    }
}

/// The extensions known after the answer `reply` came in phase `phase`.
pub open spec fn extensions_after(ext: KVMExtensions, phase: InitPhase, reply: Reply)
    -> KVMExtensions {
    match reply {
        Reply::Value(v) => match phase {
            InitPhase::TscDeadline => KVMExtensions { cap_tsc_deadline: v > 0, ..ext },
            InitPhase::IrqChipCap => KVMExtensions { cap_irqchip: v > 0, ..ext },
            InitPhase::AdjustClock => KVMExtensions {
                cap_adjust_clock_stable: v == KVM_CLOCK_TSC_STABLE,
                ..ext
            },
            InitPhase::IrqFd => KVMExtensions { cap_irqfd: v > 0, ..ext },
            InitPhase::Vapic => KVMExtensions { cap_vapic: v > 0, ..ext },
            _ => ext,
        },
        _ => ext,
    }
}

/// What `init` wants on entering `phase`.
pub open spec fn step_of(phase: InitPhase, sync_mmu: bool, regions: Seq<MemoryRegion>) -> Step {
    match phase {
        InitPhase::Ready => Step::Ready,
        InitPhase::Broken(cause) => Step::Failed(failure(cause)),
        _ => Step::Ask(request_of(phase, sync_mmu, regions)),
    }
}

/// The state of a setup: the phase it is in, what decides where the
/// identity map goes, and the state of the I/O APIC. The caller stores what `GetIrqChip`
/// fetched in `chip` before it reports the request as done, and hands the
/// device what `chip` holds when it is asked for `SetIrqChip`.
#[derive(Debug, Clone)]
pub struct InitState {
    pub phase: InitPhase,
    /// Whether the host keeps guest page tables in step with its own.
    pub sync_mmu: bool,
    pub chip: IoApicState,
}

/// The redirection table with every pin programmed.
pub open spec fn programmed(table: Seq<u64>) -> Seq<u64> {
    Seq::new(table.len(), |i: int| redirect_entry(table[i], i as u8))
}

/// Programs every pin of the I/O APIC. Returns `false`, and changes
/// nothing, where the state has not one entry for every pin.
pub fn program_ioapic(chip: &mut IoApicState) -> (done: bool)
    ensures
        done == (old(chip).redirtbl@.len() == KVM_IOAPIC_NUM_PINS),
        done ==> final(chip).redirtbl@ == programmed(old(chip).redirtbl@),
        !done ==> *final(chip) == *old(chip),
        final(chip).base_address == old(chip).base_address,
        final(chip).ioregsel == old(chip).ioregsel,
        final(chip).id == old(chip).id,
        final(chip).irr == old(chip).irr,
{
    if chip.redirtbl.len() != KVM_IOAPIC_NUM_PINS {
        return false;
    }
    let mut pin: u8 = 0;
    while (pin as usize) < KVM_IOAPIC_NUM_PINS
        invariant
            pin <= KVM_IOAPIC_NUM_PINS,
            chip.redirtbl@.len() == KVM_IOAPIC_NUM_PINS,
            forall|i: int|
                0 <= i < pin ==> #[trigger] chip.redirtbl@[i] == redirect_entry(
                    old(chip).redirtbl@[i],
                    i as u8,
                ),
            forall|i: int|
                pin <= i < KVM_IOAPIC_NUM_PINS ==> #[trigger] chip.redirtbl@[i] == old(
                    chip,
                ).redirtbl@[i],
            chip.base_address == old(chip).base_address,
            chip.ioregsel == old(chip).ioregsel,
            chip.id == old(chip).id,
            chip.irr == old(chip).irr,
        decreases KVM_IOAPIC_NUM_PINS - pin,
    {
        let entry: u64 = chip.redirtbl[pin as usize];
        let mask: u64 = if pin == MASKED_PIN {
            0x1_0000
        } else {
            0
        };
        chip.redirtbl.set(
            pin as usize,
            (entry & 0x00ff_ffff_ff00_0000u64) | mask | ((FIRST_VECTOR + pin) as u64),
        );
        pin = pin + 1;
    }
    assert(chip.redirtbl@ =~= programmed(old(chip).redirtbl@));
    true
}

/// Whether the state of an I/O APIC has an entry for every pin.
pub open spec fn chip_complete(chip: IoApicState) -> bool {
    chip.redirtbl@.len() == KVM_IOAPIC_NUM_PINS
}

/// The state of the I/O APIC after the answer `reply` came in phase
/// `phase`: every pin is programmed once the state was fetched.
pub open spec fn chip_after(chip: IoApicState, phase: InitPhase, reply: Reply, after: IoApicState)
    -> bool {
    if phase is GetChip && reply is Done && chip_complete(chip) {
        &&& after.redirtbl@ == programmed(chip.redirtbl@)
        &&& after.base_address == chip.base_address
        &&& after.ioregsel == chip.ioregsel
        &&& after.id == chip.id
        &&& after.irr == chip.irr
    } else {
        after == chip
    }
}

impl InitState {
    /// The state of a setup that has not begun: nothing is known of the
    /// host yet, and no state of the I/O APIC was fetched.
    pub fn new() -> (s: InitState)
        ensures
            s.phase == InitPhase::Start,
            !s.sync_mmu,
            s.chip.base_address == 0,
            s.chip.ioregsel == 0,
            s.chip.id == 0,
            s.chip.irr == 0,
            s.chip.redirtbl@ == Seq::<u64>::empty(),
    {
        InitState {
            phase: InitPhase::Start,
            sync_mmu: false,
            chip: IoApicState { base_address: 0, ioregsel: 0, id: 0, irr: 0, redirtbl: Vec::new() },
        }
    }
}

/// The name under which the refusal of a request is reported.
pub open spec fn request_name(request: Request) -> NameIOCTL {
    match request {
        Request::CheckExtension(_) => NameIOCTL::CheckExtension,
        Request::SetIdentityMapAddr(_) => NameIOCTL::SetTssIdentity,
        Request::SetTssAddr(_) => NameIOCTL::SetTssAddr,
        Request::SetUserMemoryRegion(_) => NameIOCTL::SetUserMemoryRegion,
        Request::CreateIrqChip => NameIOCTL::CreateIRQChip,
        Request::EnableCap(_) => NameIOCTL::EnableCap,
        Request::GetIrqChip(_) => NameIOCTL::GetIRQChip,
        Request::SetIrqChip(_) => NameIOCTL::SetIRQChip,
    }
}

/// What the answer to a question for a capability says: a number, unless
/// the question was refused.
pub open spec fn extension_value(reply: Reply) -> Option<i32> {
    match reply {
        Reply::Value(v) => Some(v),
        _ => None,
    }
}

impl Request {
    /// The name under which the refusal of this request is reported.
    pub fn name(&self) -> (name: NameIOCTL)
        ensures
            name == request_name(*self),
    {
        match self {
            Request::CheckExtension(_) => NameIOCTL::CheckExtension,
            Request::SetIdentityMapAddr(_) => NameIOCTL::SetTssIdentity,
            Request::SetTssAddr(_) => NameIOCTL::SetTssAddr,
            Request::SetUserMemoryRegion(_) => NameIOCTL::SetUserMemoryRegion,
            Request::CreateIrqChip => NameIOCTL::CreateIRQChip,
            Request::EnableCap(_) => NameIOCTL::EnableCap,
            Request::GetIrqChip(_) => NameIOCTL::GetIRQChip,
            Request::SetIrqChip(_) => NameIOCTL::SetIRQChip,
        }
    }
}

impl VirtualMachine {
    /// The number that the device answered a question for a capability
    /// with.
    ///
    /// Fails with `IOCTL(CheckExtension)` where the question was refused.
    pub fn check_extension_int(reply: &Reply) -> (r: Result<i32, Error>)
        ensures
            match extension_value(*reply) {
                Some(v) => r == Ok::<i32, Error>(v),
                None => r matches Err(e) && e == Error::IOCTL(NameIOCTL::CheckExtension),
            },
    {
        match reply {
            Reply::Value(v) => Ok(*v),
            _ => Err(Error::IOCTL(NameIOCTL::CheckExtension)),
        }
    }

    /// Whether the device has the capability that it was asked for: it has
    /// where it answered with a number above zero.
    ///
    /// Fails with `IOCTL(CheckExtension)` where the question was refused.
    pub fn check_extension(reply: &Reply) -> (r: Result<bool, Error>)
        ensures
            match extension_value(*reply) {
                Some(v) => r == Ok::<bool, Error>(v > 0),
                None => r matches Err(e) && e == Error::IOCTL(NameIOCTL::CheckExtension),
            },
    {
        match VirtualMachine::check_extension_int(reply) {
            Ok(v) => Ok(v > 0),
            Err(e) => Err(e),
        }
    }
}

/// A request that ends the setup when it is refused does so under its own
/// name.
pub proof fn lemma_refusals_are_named(
    phase: InitPhase,
    sync_mmu: bool,
    regions: Seq<MemoryRegion>,
)
    requires
        !(phase is Start),
        !(phase is Ready),
        !(phase is Broken),
    ensures
        refused(phase) == request_name(request_of(phase, sync_mmu, regions)),
{
}

/// The request that is under way in `phase`.
fn request_for(phase: InitPhase, sync_mmu: bool, regions: &Vec<MemoryRegion>) -> (request:
    Request)
    requires
        phase matches InitPhase::Region(k) ==> k < regions@.len(),
    ensures
        request == request_of(phase, sync_mmu, regions@),
{
    let base: u64 = if sync_mmu {
        IDENTITY_BASE_SYNC
    } else {
        IDENTITY_BASE
    };
    match phase {
        InitPhase::SyncMmu => Request::CheckExtension(KVM_CAP_SYNC_MMU),
        InitPhase::IdentityMap => Request::SetIdentityMapAddr(base),
        InitPhase::TssAddr => Request::SetTssAddr(base + TSS_OFFSET),
        InitPhase::Region(k) => Request::SetUserMemoryRegion(regions[k]),
        InitPhase::IrqChip => Request::CreateIrqChip,
        InitPhase::X2Apic => Request::EnableCap(
            EnableCap {
                cap: KVM_CAP_X2APIC_API,
                flags: 0,
                args: [
                    KVM_X2APIC_API_USE_32BIT_IDS | KVM_X2APIC_API_DISABLE_BROADCAST_QUIRK,
                    0,
                    0,
                    0,
                ],
            },
        ),
        InitPhase::GetChip => Request::GetIrqChip(KVM_IRQCHIP_IOAPIC),
        InitPhase::SetChip => Request::SetIrqChip(KVM_IRQCHIP_IOAPIC),
        InitPhase::TscDeadline => Request::CheckExtension(KVM_CAP_TSC_DEADLINE_TIMER),
        InitPhase::IrqChipCap => Request::CheckExtension(KVM_CAP_IRQCHIP),
        InitPhase::AdjustClock => Request::CheckExtension(KVM_CAP_ADJUST_CLOCK),
        InitPhase::IrqFd => Request::CheckExtension(KVM_CAP_IRQFD),
        _ => Request::CheckExtension(KVM_CAP_VAPIC),
    }
}

/// The phase that follows a request that was to be carried out.
fn on_done(reply: &Reply, phase: InitPhase, next: InitPhase) -> (r: InitPhase)
    ensures
        r == if *reply is Done {
            next
        } else {
            InitPhase::Broken(Some(refused(phase)))
        },
{
    match reply {
        Reply::Done => next,
        _ => InitPhase::Broken(Some(refusal(phase))),
    }
}

/// The phase that follows a question for a capability.
fn on_value(reply: &Reply, phase: InitPhase, next: InitPhase) -> (r: InitPhase)
    ensures
        r == if *reply is Value {
            next
        } else {
            InitPhase::Broken(Some(refused(phase)))
        },
{
    match reply {
        Reply::Value(_) => next,
        _ => InitPhase::Broken(Some(refusal(phase))),
    }
}

/// The error that a refused request of `phase` leads to.
fn refusal(phase: InitPhase) -> (name: NameIOCTL)
    ensures
        name == refused(phase),
{
    match phase {
        InitPhase::IdentityMap => NameIOCTL::SetTssIdentity,
        InitPhase::TssAddr => NameIOCTL::SetTssAddr,
        InitPhase::Region(_) => NameIOCTL::SetUserMemoryRegion,
        InitPhase::IrqChip => NameIOCTL::CreateIRQChip,
        InitPhase::X2Apic => NameIOCTL::EnableCap,
        InitPhase::GetChip => NameIOCTL::GetIRQChip,
        InitPhase::SetChip => NameIOCTL::SetIRQChip,
        _ => NameIOCTL::CheckExtension,
    }
}

impl VirtualMachine {
    /// Takes the setup of the machine one step further: `reply` is the
    /// device's answer to the request that the last call asked for, and the
    /// result is what to do next.
    ///
    /// The requests, in order: the question for `KVM_CAP_SYNC_MMU`, which
    /// decides where the identity map goes; the identity map, where it is
    /// moved; the task state segment; the regions of guest memory; the
    /// interrupt controllers; the x2APIC interface; the state of the I/O
    /// APIC, fetched and stored back with every pin programmed; and the
    /// questions for the extensions. A refused request ends the setup with
    /// its `IOCTL` error, a host without interrupts by event descriptor with
    /// `MissingCapabilityIRQFD`.
    pub fn init(&mut self, state: &mut InitState, reply: Reply) -> (step: Step)
        ensures
            ({
                let regions = regions_of(old(self).mem@.len());
                let ext = extensions_after(old(self).extensions, old(state).phase, reply);
                let phase = next_phase(
                    old(state).phase,
                    reply,
                    regions,
                    chip_complete(old(state).chip),
                    ext.cap_irqfd,
                );
                let sync_mmu = if old(state).phase is SyncMmu {
                    says_sync_mmu(reply)
                } else {
                    old(state).sync_mmu
                };
                &&& final(state).phase == phase
                &&& final(state).sync_mmu == sync_mmu
                &&& chip_after(old(state).chip, old(state).phase, reply, final(state).chip)
                &&& final(self).extensions == ext
                &&& step == step_of(phase, sync_mmu, regions)
            }),
            final(self).mem == old(self).mem,
            final(self).same_but_extensions(*old(self)),
    {
        let regions = self.mem.regions();
        let phase = state.phase;
        let mut ext = self.extensions;
        let next = match phase {
            InitPhase::Start => InitPhase::SyncMmu,
            InitPhase::SyncMmu => {
                let sync = match reply {
                    Reply::Value(v) => v > 0,
                    _ => false,
                };
                state.sync_mmu = sync;
                if sync {
                    InitPhase::IdentityMap
                } else {
                    InitPhase::TssAddr
                }
            },
            InitPhase::IdentityMap => on_done(&reply, phase, InitPhase::TssAddr),
            InitPhase::TssAddr => on_done(&reply, phase, InitPhase::Region(0)),
            InitPhase::Region(k) => {
                let following = if k < regions.len() && k + 1 < regions.len() {
                    InitPhase::Region(k + 1)
                } else {
                    InitPhase::IrqChip
                };
                on_done(&reply, phase, following)
            },
            InitPhase::IrqChip => on_done(&reply, phase, InitPhase::X2Apic),
            InitPhase::X2Apic => on_done(&reply, phase, InitPhase::GetChip),
            InitPhase::GetChip => {
                let following = on_done(&reply, phase, InitPhase::SetChip);
                match following {
                    InitPhase::SetChip => {
                        if program_ioapic(&mut state.chip) {
                            following
                        } else {
                            InitPhase::Broken(Some(refusal(phase)))
                        }
                    },
                    _ => following,
                }
            },
            InitPhase::SetChip => on_done(&reply, phase, InitPhase::TscDeadline),
            InitPhase::TscDeadline => {
                match VirtualMachine::check_extension(&reply) {
                    Ok(found) => {
                        ext.cap_tsc_deadline = found;
                    },
                    Err(_) => {},
                }
                on_value(&reply, phase, InitPhase::IrqChipCap)
            },
            InitPhase::IrqChipCap => {
                match VirtualMachine::check_extension(&reply) {
                    Ok(found) => {
                        ext.cap_irqchip = found;
                    },
                    Err(_) => {},
                }
                on_value(&reply, phase, InitPhase::AdjustClock)
            },
            InitPhase::AdjustClock => {
                match VirtualMachine::check_extension_int(&reply) {
                    Ok(v) => {
                        ext.cap_adjust_clock_stable = v == KVM_CLOCK_TSC_STABLE;
                    },
                    Err(_) => {},
                }
                on_value(&reply, phase, InitPhase::IrqFd)
            },
            InitPhase::IrqFd => {
                match VirtualMachine::check_extension(&reply) {
                    Ok(found) => {
                        ext.cap_irqfd = found;
                    },
                    Err(_) => {},
                }
                on_value(&reply, phase, InitPhase::Vapic)
            },
            InitPhase::Vapic => {
                match VirtualMachine::check_extension(&reply) {
                    Ok(found) => {
                        ext.cap_vapic = found;
                    },
                    Err(_) => {},
                }
                let end = if ext.cap_irqfd {
                    InitPhase::Ready
                } else {
                    InitPhase::Broken(None)
                };
                on_value(&reply, phase, end)
            },
            InitPhase::Ready => InitPhase::Ready,
            InitPhase::Broken(cause) => InitPhase::Broken(cause),
        };
        self.extensions = ext;
        state.phase = next;
        match next {
            InitPhase::Ready => Step::Ready,
            InitPhase::Broken(Some(name)) => Step::Failed(Error::IOCTL(name)),
            InitPhase::Broken(None) => Step::Failed(Error::MissingCapabilityIRQFD),
            _ => Step::Ask(request_for(next, state.sync_mmu, &regions)),
        }
    }

    /// Whether `other` differs from this machine in the extensions it knows
    /// of and in its memory at most.
    pub open spec fn same_but_extensions(self, other: VirtualMachine) -> bool {
        &&& self.elf_entry == other.elf_entry
        &&& self.klog == other.klog
        &&& self.mboot == other.mboot
        &&& self.vcpus == other.vcpus
        &&& self.num_cpus == other.num_cpus
        &&& self.control == other.control
        &&& self.additional == other.additional
        &&& self.checkpoint_num == other.checkpoint_num
    }
}

/// A host without interrupts by event descriptor is refused once all its
/// answers are in, and a host with them is accepted.
pub proof fn lemma_irqfd_decides(
    ext: KVMExtensions,
    v: i32,
    regions: Seq<MemoryRegion>,
    chip_ok: bool,
    sync_mmu: bool,
)
    ensures
        ({
            let known = extensions_after(ext, InitPhase::Vapic, Reply::Value(v));
            let end = next_phase(
                InitPhase::Vapic,
                Reply::Value(v),
                regions,
                chip_ok,
                known.cap_irqfd,
            );
            &&& known.cap_irqfd == ext.cap_irqfd
            &&& !ext.cap_irqfd ==> step_of(end, sync_mmu, regions) == Step::Failed(
                Error::MissingCapabilityIRQFD,
            )
            &&& ext.cap_irqfd ==> step_of(end, sync_mmu, regions) == Step::Ready
        }),
{
}

/// How far a phase is into the setup of a machine with `regions` memory
/// regions.
pub open spec fn progress(phase: InitPhase, regions: nat) -> nat {
    match phase {
        InitPhase::Start => 0,
        InitPhase::SyncMmu => 1,
        InitPhase::IdentityMap => 2,
        InitPhase::TssAddr => 3,
        InitPhase::Region(k) => 4 + if k < regions {
            k as nat
        } else {
            regions
        },
        InitPhase::IrqChip => 5 + regions,
        InitPhase::X2Apic => 6 + regions,
        InitPhase::GetChip => 7 + regions,
        InitPhase::SetChip => 8 + regions,
        InitPhase::TscDeadline => 9 + regions,
        InitPhase::IrqChipCap => 10 + regions,
        InitPhase::AdjustClock => 11 + regions,
        InitPhase::IrqFd => 12 + regions,
        InitPhase::Vapic => 13 + regions,
        InitPhase::Ready => 14 + regions,
        InitPhase::Broken(_) => 14 + regions,
    }
}

/// Whether the setup is over in this phase.
pub open spec fn is_over(phase: InitPhase) -> bool {
    phase is Ready || phase is Broken
}

/// Every answer takes the setup further, whatever it is, until the setup is
/// over; then it stays over. So the setup ends after at most fourteen
/// answers and one for each memory region.
pub proof fn lemma_setup_ends(
    phase: InitPhase,
    reply: Reply,
    regions: Seq<MemoryRegion>,
    chip_ok: bool,
    irqfd: bool,
)
    requires
        regions.len() <= usize::MAX,
    ensures
        ({
            let next = next_phase(phase, reply, regions, chip_ok, irqfd);
            &&& progress(next, regions.len()) <= 14 + regions.len()
            &&& !is_over(phase) ==> progress(next, regions.len()) > progress(phase, regions.len())
            &&& is_over(phase) ==> next == phase
            &&& progress(next, regions.len()) == 14 + regions.len() ==> is_over(next)
        }),
{
}

} // verus!
