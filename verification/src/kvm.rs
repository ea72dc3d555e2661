//! The calls to the hypervisor that requests of the plugin process lead to.

use crate::errno::{einval, SysError, SysResult, EINVAL};
use crate::messages::{CpuidEntry, MsrEntry, StateSet};
use vstd::prelude::*;

verus! {

/// Marks a `CPUID` entry that holds for one index of its function only.
pub const KVM_CPUID_FLAG_SIGNIFCANT_INDEX: u32 = 1;

/// A model-specific register, as the hypervisor takes it.
#[derive(Clone, Copy, Debug, PartialEq, Eq, Structural)]
pub struct KvmMsrEntry {
    pub index: u32,
    pub reserved: u32,
    pub data: u64,
}

/// A list of model-specific registers, as the hypervisor takes it.
#[derive(Debug)]
pub struct KvmMsrs {
    pub nmsrs: u32,
    pub pad: u32,
    pub entries: Vec<KvmMsrEntry>,
}

/// A `CPUID` entry, as the hypervisor takes it.
#[derive(Clone, Copy, Debug, PartialEq, Eq, Structural)]
pub struct KvmCpuidEntry2 {
    pub function: u32,
    pub index: u32,
    pub flags: u32,
    pub eax: u32,
    pub ebx: u32,
    pub ecx: u32,
    pub edx: u32,
}

/// A group of registers to read from a VCPU.
#[derive(Clone, Copy, Debug, PartialEq, Eq, Structural)]
pub enum KvmGet {
    Regs,
    Sregs,
    Fpu,
    Debugregs,
}

/// Something to set on a VCPU. The registers of a group are given by their memory image.
#[derive(Debug)]
pub enum KvmSet {
    Regs(Vec<u8>),
    Sregs(Vec<u8>),
    Fpu(Vec<u8>),
    Debugregs(Vec<u8>),
    Msrs(KvmMsrs),
    Cpuid2(Vec<KvmCpuidEntry2>),
}

/// A call to make on a VCPU.
#[derive(Debug)]
pub enum KvmCall {
    /// Read the registers of a group; the call returns their memory image.
    GetState(KvmGet),
    /// Read model-specific registers; the call fills in the entries.
    GetMsrs(Vec<KvmMsrEntry>),
    /// Set something; the call returns nothing.
    Apply(KvmSet),
}

/// How many bytes the memory image of each group of registers has.
#[derive(Clone, Copy, Debug, PartialEq, Eq, Structural)]
pub struct StateSizes {
    pub regs: usize,
    pub sregs: usize,
    pub fpu: usize,
    pub debugregs: usize,
}

impl StateSizes {
    pub open spec fn size(self, set: StateSet) -> usize {
        match set {
            StateSet::Regs => self.regs,
            StateSet::Sregs => self.sregs,
            StateSet::Fpu => self.fpu,
            StateSet::Debugregs => self.debugregs,
        }
    }
}

/// What to read for a group of registers.
pub open spec fn get_call(set: StateSet) -> KvmGet {
    match set {
        StateSet::Regs => KvmGet::Regs,
        StateSet::Sregs => KvmGet::Sregs,
        StateSet::Fpu => KvmGet::Fpu,
        StateSet::Debugregs => KvmGet::Debugregs,
    }
}

/// `call` sets the registers of the group `set` from `image`.
pub open spec fn is_set_call(set: StateSet, image: Seq<u8>, call: KvmSet) -> bool {
    match set {
        StateSet::Regs => call matches KvmSet::Regs(v) && v@ == image,
        StateSet::Sregs => call matches KvmSet::Sregs(v) && v@ == image,
        StateSet::Fpu => call matches KvmSet::Fpu(v) && v@ == image,
        StateSet::Debugregs => call matches KvmSet::Debugregs(v) && v@ == image,
    }
}

/// The entries that ask for the registers with the given indices.
pub open spec fn msr_queries(indices: Seq<u32>) -> Seq<KvmMsrEntry> {
    indices.map_values(|index: u32| KvmMsrEntry { index, reserved: 0, data: 0 })
}

/// The entries that set registers as requested.
pub open spec fn msr_settings(entries: Seq<MsrEntry>) -> Seq<KvmMsrEntry> {
    entries.map_values(
        |entry: MsrEntry| KvmMsrEntry { index: entry.index, reserved: 0, data: entry.data },
    )
}

/// The values of the registers in the given entries.
pub open spec fn msr_data(entries: Seq<KvmMsrEntry>) -> Seq<u64> {
    entries.map_values(|entry: KvmMsrEntry| entry.data)
}

/// A requested `CPUID` entry, as the hypervisor takes it: the index counts only where the
/// request has one.
pub open spec fn cpuid_setting(entry: CpuidEntry) -> KvmCpuidEntry2 {
    KvmCpuidEntry2 {
        function: entry.function,
        index: if entry.has_index {
            entry.index
        } else {
            0
        },
        flags: if entry.has_index {
            KVM_CPUID_FLAG_SIGNIFCANT_INDEX
        } else {
            0
        },
        eax: entry.eax,
        ebx: entry.ebx,
        ecx: entry.ecx,
        edx: entry.edx,
    }
}

pub open spec fn cpuid_settings(entries: Seq<CpuidEntry>) -> Seq<KvmCpuidEntry2> {
    entries.map_values(|entry: CpuidEntry| cpuid_setting(entry))
}

/// What to read for a request for the registers of a group.
pub fn get_vcpu_state(state_set: StateSet) -> (r: KvmGet)
    ensures
        r == get_call(state_set),
        r is Regs <==> state_set is Regs,
        r is Sregs <==> state_set is Sregs,
        r is Fpu <==> state_set is Fpu,
        r is Debugregs <==> state_set is Debugregs,
{
    match state_set {
        StateSet::Regs => KvmGet::Regs,
        StateSet::Sregs => KvmGet::Sregs,
        StateSet::Fpu => KvmGet::Fpu,
        StateSet::Debugregs => KvmGet::Debugregs,
    }
}

/// What to set for a request to write the registers of a group. A request whose bytes are not
/// the memory image of the group is invalid.
pub fn set_vcpu_state(state_set: StateSet, state: &[u8], sizes: &StateSizes) -> (r: SysResult<
    KvmSet,
>)
    ensures
        state@.len() != sizes.size(state_set) ==> r == Err::<KvmSet, SysError>(
            SysError { code: EINVAL },
        ),
        state@.len() == sizes.size(state_set) ==> r is Ok && is_set_call(state_set, state@, r->Ok_0),
        r is Ok <==> state@.len() == match state_set {
            StateSet::Regs => sizes.regs,
            StateSet::Sregs => sizes.sregs,
            StateSet::Fpu => sizes.fpu,
            StateSet::Debugregs => sizes.debugregs,
        },
        r matches Ok(call) ==> match (state_set, call) {
            (StateSet::Regs, KvmSet::Regs(image)) => image@ == state@,
            (StateSet::Sregs, KvmSet::Sregs(image)) => image@ == state@,
            (StateSet::Fpu, KvmSet::Fpu(image)) => image@ == state@,
            (StateSet::Debugregs, KvmSet::Debugregs(image)) => image@ == state@,
            _ => false,
        },
{
    let size: usize = match state_set {
        StateSet::Regs => sizes.regs,
        StateSet::Sregs => sizes.sregs,
        StateSet::Fpu => sizes.fpu,
        StateSet::Debugregs => sizes.debugregs,
    };
    if state.len() != size {
        return Err(SysError::new(einval()));
    }
    let image = vstd::slice::slice_to_vec(state);
    Ok(
        match state_set {
            StateSet::Regs => KvmSet::Regs(image),
            StateSet::Sregs => KvmSet::Sregs(image),
            StateSet::Fpu => KvmSet::Fpu(image),
            StateSet::Debugregs => KvmSet::Debugregs(image),
        },
    )
}

/// The entries for a request to read model-specific registers.
pub fn query_msrs(indices: &Vec<u32>) -> (r: Vec<KvmMsrEntry>)
    ensures
        r@ == msr_queries(indices@),
        r@.len() == indices@.len(),
        forall|k: int|
            0 <= k < indices@.len() ==> (#[trigger] r@[k]).index == indices@[k] && r@[k].data == 0
                && r@[k].reserved == 0,
{
    let mut entries: Vec<KvmMsrEntry> = Vec::with_capacity(indices.len());
    let mut i: usize = 0;
    while i < indices.len()
        invariant
            i <= indices@.len(),
            entries@ == msr_queries(indices@.take(i as int)),
        decreases indices@.len() - i,
    {
        entries.push(KvmMsrEntry { index: indices[i], reserved: 0, data: 0 });
        i = i + 1;
        assert(entries@ =~= msr_queries(indices@.take(i as int)));
    }
    assert(indices@.take(i as int) =~= indices@);
    entries
}

/// The list for a request to write model-specific registers.
pub fn set_msrs_list(request_entries: &Vec<MsrEntry>) -> (r: KvmMsrs)
    ensures
        r.nmsrs == request_entries@.len() as u32,
        r.pad == 0,
        r.entries@ == msr_settings(request_entries@),
        r.entries@.len() == request_entries@.len(),
        forall|k: int|
            0 <= k < request_entries@.len() ==> (#[trigger] r.entries@[k]).index
                == request_entries@[k].index && r.entries@[k].data == request_entries@[k].data
                && r.entries@[k].reserved == 0,
{
    let mut entries: Vec<KvmMsrEntry> = Vec::with_capacity(request_entries.len());
    let mut i: usize = 0;
    while i < request_entries.len()
        invariant
            i <= request_entries@.len(),
            entries@ == msr_settings(request_entries@.take(i as int)),
        decreases request_entries@.len() - i,
    {
        let entry: MsrEntry = request_entries[i];
        entries.push(KvmMsrEntry { index: entry.index, reserved: 0, data: entry.data });
        i = i + 1;
        assert(entries@ =~= msr_settings(request_entries@.take(i as int)));
    }
    assert(request_entries@.take(i as int) =~= request_entries@);
    KvmMsrs { nmsrs: request_entries.len() as u32, pad: 0, entries }
}

/// The values in the entries that the hypervisor has filled in.
pub fn msr_values(entries: &Vec<KvmMsrEntry>) -> (r: Vec<u64>)
    ensures
        r@ == msr_data(entries@),
        r@.len() == entries@.len(),
        forall|k: int| 0 <= k < entries@.len() ==> #[trigger] r@[k] == entries@[k].data,
{
    let mut values: Vec<u64> = Vec::with_capacity(entries.len());
    let mut i: usize = 0;
    while i < entries.len()
        invariant
            i <= entries@.len(),
            values@ == msr_data(entries@.take(i as int)),
        decreases entries@.len() - i,
    {
        values.push(entries[i].data);
        i = i + 1;
        assert(values@ =~= msr_data(entries@.take(i as int)));
    }
    assert(entries@.take(i as int) =~= entries@);
    values
}

/// The entries for a request to set what `CPUID` reports.
pub fn set_cpuid_list(request_entries: &Vec<CpuidEntry>) -> (r: Vec<KvmCpuidEntry2>)
    ensures
        r@ == cpuid_settings(request_entries@),
        r@.len() == request_entries@.len(),
        forall|k: int|
            0 <= k < request_entries@.len() ==> (#[trigger] r@[k]).function
                == request_entries@[k].function && r@[k].eax == request_entries@[k].eax && r@[k].ebx
                == request_entries@[k].ebx && r@[k].ecx == request_entries@[k].ecx && r@[k].edx
                == request_entries@[k].edx,
        forall|k: int|
            0 <= k < request_entries@.len() ==> if request_entries@[k].has_index {
                (#[trigger] r@[k]).index == request_entries@[k].index && r@[k].flags == 1
            } else {
                r@[k].index == 0 && r@[k].flags == 0
            },
{
    let mut entries: Vec<KvmCpuidEntry2> = Vec::with_capacity(request_entries.len());
    let mut i: usize = 0;
    while i < request_entries.len()
        invariant
            i <= request_entries@.len(),
            entries@ == cpuid_settings(request_entries@.take(i as int)),
        decreases request_entries@.len() - i,
    {
        let request_entry: CpuidEntry = request_entries[i];
        let mut entry = KvmCpuidEntry2 {
            function: request_entry.function,
            index: 0,
            flags: 0,
            eax: request_entry.eax,
            ebx: request_entry.ebx,
            ecx: request_entry.ecx,
            edx: request_entry.edx,
        };
        if request_entry.has_index {
            entry.index = request_entry.index;
            entry.flags = KVM_CPUID_FLAG_SIGNIFCANT_INDEX;
        }
        entries.push(entry);
        i = i + 1;
        assert(entries@ =~= cpuid_settings(request_entries@.take(i as int)));
    }
    assert(request_entries@.take(i as int) =~= request_entries@);
    entries
}

/// The image in a call that sets a group of registers is the one that was asked for: the same
/// group, the same length, and the same byte at every place.
pub proof fn law_image_is_kept(set: StateSet, image: Seq<u8>, call: KvmSet)
    requires
        is_set_call(set, image, call),
    ensures
        match call {
            KvmSet::Regs(v) => set is Regs && v@.len() == image.len() && forall|k: int|
                0 <= k < image.len() ==> #[trigger] v@[k] == image[k],
            KvmSet::Sregs(v) => set is Sregs && v@.len() == image.len() && forall|k: int|
                0 <= k < image.len() ==> #[trigger] v@[k] == image[k],
            KvmSet::Fpu(v) => set is Fpu && v@.len() == image.len() && forall|k: int|
                0 <= k < image.len() ==> #[trigger] v@[k] == image[k],
            KvmSet::Debugregs(v) => set is Debugregs && v@.len() == image.len() && forall|k: int|
                0 <= k < image.len() ==> #[trigger] v@[k] == image[k],
            _ => false,
        },
{
}

/// Calls that set the same group of registers are told apart by their images alone.
pub proof fn law_images_tell_calls_apart(
    set: StateSet,
    first: Seq<u8>,
    second: Seq<u8>,
    call: KvmSet,
)
    requires
        is_set_call(set, first, call),
        is_set_call(set, second, call),
    ensures
        first == second,
{
}

/// Each group of registers is read by a call of its own, and its memory image has a size of its
/// own.
pub proof fn law_groups_are_kept_apart(set: StateSet, sizes: StateSizes)
    ensures
        get_call(set) is Regs <==> set is Regs,
        get_call(set) is Sregs <==> set is Sregs,
        get_call(set) is Fpu <==> set is Fpu,
        get_call(set) is Debugregs <==> set is Debugregs,
        set is Regs ==> sizes.size(set) == sizes.regs,
        set is Sregs ==> sizes.size(set) == sizes.sregs,
        set is Fpu ==> sizes.size(set) == sizes.fpu,
        set is Debugregs ==> sizes.size(set) == sizes.debugregs,
{
}

/// The entries that ask for model-specific registers name one register each, in the order of the
/// request, and nothing else.
pub proof fn law_queries_name_the_registers(indices: Seq<u32>)
    ensures
        msr_queries(indices).len() == indices.len(),
        forall|k: int|
            0 <= k < indices.len() ==> (#[trigger] msr_queries(indices)[k]).index == indices[k]
                && msr_queries(indices)[k].data == 0 && msr_queries(indices)[k].reserved == 0,
{
}

/// The entries that set model-specific registers have, in the order of the request, the registers
/// and the whole values that were asked for.
pub proof fn law_register_values_are_kept(entries: Seq<MsrEntry>)
    ensures
        msr_settings(entries).len() == entries.len(),
        forall|k: int|
            0 <= k < entries.len() ==> (#[trigger] msr_settings(entries)[k]).index
                == entries[k].index && msr_settings(entries)[k].data == entries[k].data
                && msr_settings(entries)[k].reserved == 0,
{
}

/// Reading back the entries that set registers gives the values that were asked for.
pub proof fn law_settings_read_back(entries: Seq<MsrEntry>)
    ensures
        msr_data(msr_settings(entries)).len() == entries.len(),
        forall|k: int|
            0 <= k < entries.len() ==> #[trigger] msr_data(msr_settings(entries))[k]
                == entries[k].data,
{
}

/// The values that are answered are those of the entries, one for each, in their order.
pub proof fn law_values_are_those_read(entries: Seq<KvmMsrEntry>)
    ensures
        msr_data(entries).len() == entries.len(),
        forall|k: int|
            0 <= k < entries.len() ==> #[trigger] msr_data(entries)[k] == entries[k].data,
{
}

/// What `CPUID` is to report is handed over as it was asked for, entry by entry, with an index or
/// without. Only the index and its flag go by whether there is one.
pub proof fn law_cpuid_is_kept(entries: Seq<CpuidEntry>)
    ensures
        cpuid_settings(entries).len() == entries.len(),
        forall|k: int|
            0 <= k < entries.len() ==> (#[trigger] cpuid_settings(entries)[k]).function
                == entries[k].function && cpuid_settings(entries)[k].eax == entries[k].eax
                && cpuid_settings(entries)[k].ebx == entries[k].ebx && cpuid_settings(entries)[k].ecx
                == entries[k].ecx && cpuid_settings(entries)[k].edx == entries[k].edx,
        forall|k: int|
            0 <= k < entries.len() ==> if entries[k].has_index {
                (#[trigger] cpuid_settings(entries)[k]).index == entries[k].index
                    && cpuid_settings(entries)[k].flags == 1
            } else {
                cpuid_settings(entries)[k].index == 0 && cpuid_settings(entries)[k].flags == 0
            },
{
}

/// Two requests for one entry that differ in having an index alone lead to entries that differ in
/// the index and its flag alone.
pub proof fn law_index_changes_nothing_else(first: CpuidEntry, second: CpuidEntry)
    requires
        first.function == second.function,
        first.eax == second.eax,
        first.ebx == second.ebx,
        first.ecx == second.ecx,
        first.edx == second.edx,
    ensures
        cpuid_setting(first).function == first.function,
        cpuid_setting(first).function == cpuid_setting(second).function,
        cpuid_setting(first).eax == first.eax,
        cpuid_setting(first).eax == cpuid_setting(second).eax,
        cpuid_setting(first).ebx == first.ebx,
        cpuid_setting(first).ebx == cpuid_setting(second).ebx,
        cpuid_setting(first).ecx == first.ecx,
        cpuid_setting(first).ecx == cpuid_setting(second).ecx,
        cpuid_setting(first).edx == first.edx,
        cpuid_setting(first).edx == cpuid_setting(second).edx,
{
}

} // verus!
