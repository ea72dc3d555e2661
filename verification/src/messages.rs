//! The messages that a VCPU and the plugin process exchange.

use vstd::prelude::*;

verus! {

/// The address space of an access, as the plugin process names it.
#[derive(Clone, Copy, Debug, PartialEq, Eq, Structural)]
pub enum AddressSpace {
    Ioport,
    Mmio,
}

/// The groups of registers that can be read and written together.
#[derive(Clone, Copy, Debug, PartialEq, Eq, Structural)]
pub enum StateSet {
    Regs,
    Sregs,
    Fpu,
    Debugregs,
}

/// Asks for the registers of a group to be set from their memory image.
#[derive(Debug)]
pub struct SetState {
    pub set: StateSet,
    pub state: Vec<u8>,
}

/// A model-specific register and the value to give it.
#[derive(Clone, Copy, Debug, PartialEq, Eq, Structural)]
pub struct MsrEntry {
    pub index: u32,
    pub data: u64,
}

/// What `CPUID` is to report for one function, or for one index of it.
#[derive(Clone, Copy, Debug, PartialEq, Eq, Structural)]
pub struct CpuidEntry {
    pub function: u32,
    pub has_index: bool,
    pub index: u32,
    pub eax: u32,
    pub ebx: u32,
    pub ecx: u32,
    pub edx: u32,
}

/// A request of the plugin process. Where more than one part is present, the first in the order
/// of the fields counts.
#[derive(Debug)]
pub struct VcpuRequest {
    /// Asks why the VCPU is waiting.
    pub wait: bool,
    /// Lets the VCPU run again; the bytes are the result of a read.
    pub resume: Option<Vec<u8>>,
    /// Asks for the registers of a group.
    pub get_state: Option<StateSet>,
    /// Sets the registers of a group.
    pub set_state: Option<SetState>,
    /// Asks for the model-specific registers with these indices.
    pub get_msrs: Option<Vec<u32>>,
    /// Sets model-specific registers.
    pub set_msrs: Option<Vec<MsrEntry>>,
    /// Sets what `CPUID` reports.
    pub set_cpuid: Option<Vec<CpuidEntry>>,
}

/// Why a VCPU waits for the plugin process.
#[derive(Debug)]
pub enum WaitReason {
    /// The VCPU has not run yet.
    Init,
    /// The VCPU accessed an address that is reserved for the plugin process.
    Io { space: AddressSpace, address: u64, is_write: bool, data: Vec<u8> },
    /// A pause was requested, with this value.
    User { user: u64 },
}

/// What a response is about.
#[derive(Debug)]
pub enum ResponseBody {
    Empty,
    Wait(WaitReason),
    Resume,
    GetState(Vec<u8>),
    SetState,
    GetMsrs(Vec<u64>),
    SetMsrs,
    SetCpuid,
}

/// The response to a request: its error number, zero for success, and what it carries.
#[derive(Debug)]
pub struct VcpuResponse {
    pub errno: i32,
    pub body: ResponseBody,
}

} // verus!
