//! A VCPU's side of the conversation with the plugin process.

use crate::errno::{edeadlk, enotty, epipe, eproto, SysError, SysResult};
use crate::errno::{EDEADLK, EINVAL, ENOTTY, EPIPE, EPROTO};
use crate::kvm::{get_vcpu_state, msr_values, query_msrs, set_cpuid_list, set_msrs_list};
use crate::kvm::{set_vcpu_state, KvmCall, KvmMsrEntry, KvmSet, StateSizes};
use crate::messages::{AddressSpace, ResponseBody, VcpuRequest, VcpuResponse, WaitReason};
use crate::regions::{IoSpace, Range, SharedVcpuState};
use vstd::prelude::*;

verus! {

/// What to do about a request.
#[derive(Debug)]
pub enum Step {
    /// Send the response. With `resume_data`, the VCPU is to run again after that.
    Reply { response: VcpuResponse, resume_data: Option<Vec<u8>> },
    /// Make the call, and send the response that its result gives.
    Call(KvmCall),
}

/// The step that answers a request without a call to the hypervisor.
pub open spec fn reply(errno: i32, body: ResponseBody, resume_data: Option<Vec<u8>>) -> Step {
    Step::Reply { response: VcpuResponse { errno, body }, resume_data }
}

/// What the VCPU waits for after `request`, where it waited for `pending` before.
pub open spec fn pending_after(
    pending: Option<WaitReason>,
    request: VcpuRequest,
) -> Option<WaitReason> {
    if request.wait {
        None
    } else {
        pending
    }
}

/// `step` is right for a request that comes when the plugin process has been told why the VCPU
/// waits.
pub open spec fn is_step_for(request: VcpuRequest, sizes: StateSizes, step: Step) -> bool {
    if request.resume is Some {
        step == reply(0, ResponseBody::Resume, request.resume)
    } else if let Some(set) = request.get_state {
        step == Step::Call(KvmCall::GetState(crate::kvm::get_call(set)))
    } else if let Some(set_state) = request.set_state {
        if set_state.state@.len() == sizes.size(set_state.set) {
            &&& step matches Step::Call(KvmCall::Apply(call))
            &&& crate::kvm::is_set_call(set_state.set, set_state.state@, call)
        } else {
            step == reply(EINVAL, ResponseBody::SetState, None)
        }
    } else if let Some(indices) = request.get_msrs {
        &&& step matches Step::Call(KvmCall::GetMsrs(entries))
        &&& entries@ == crate::kvm::msr_queries(indices@)
    } else if let Some(entries) = request.set_msrs {
        &&& step matches Step::Call(KvmCall::Apply(KvmSet::Msrs(msrs)))
        &&& msrs.nmsrs == entries@.len() as u32
        &&& msrs.pad == 0
        &&& msrs.entries@ == crate::kvm::msr_settings(entries@)
    } else if let Some(entries) = request.set_cpuid {
        &&& step matches Step::Call(KvmCall::Apply(KvmSet::Cpuid2(cpuid)))
        &&& cpuid@ == crate::kvm::cpuid_settings(entries@)
    } else {
        step == reply(ENOTTY, ResponseBody::Empty, None)
    }
}

/// `step` is right for `request`, where the VCPU waits for `pending`.
pub open spec fn is_step(
    pending: Option<WaitReason>,
    request: VcpuRequest,
    sizes: StateSizes,
    step: Step,
) -> bool {
    match pending {
        Some(reason) => if request.wait {
            step == reply(0, ResponseBody::Wait(reason), None)
        } else {
            step == reply(EPROTO, ResponseBody::Empty, None)
        },
        None => if request.wait {
            step == reply(EPROTO, ResponseBody::Empty, None)
        } else {
            is_step_for(request, sizes, step)
        },
    }
}

/// State specific to a VCPU, grouped so that each `PluginVcpu` object will share a canonical
/// version.
pub struct PerVcpuState {
    pause_request: Option<u64>,
}

impl PerVcpuState {
    /// The pause that was requested and has not been taken yet.
    pub closed spec fn pause(self) -> Option<u64> {
        self.pause_request
    }

    /// Indicates that a VCPU should wait until the plugin process resumes the VCPU.
    ///
    /// This method will not cause a VCPU to pause immediately. Instead, the VCPU thread will
    /// continue running until interrupted, at which point it will check for a pending pause. If
    /// there is another call to `request_pause` for this VCPU before that happens, the last
    /// pause request's `data` will be overwritten with the most recent `data`.
    ///
    /// To get an immediate pause after calling `request_pause`, send a signal (with a registered
    /// handler) to the thread handling the VCPU corresponding to this state. This should
    /// interrupt the running VCPU, which should check for a pause with `PluginVcpu::pre_run`.
    pub fn request_pause(&mut self, data: u64)
        ensures
            final(self).pause() == Some(data),
    {
        self.pause_request = Some(data);
    }

    /// Takes the pending pause request, if there is one.
    pub fn take_pause_request(&mut self) -> (r: Option<u64>)
        ensures
            r == old(self).pause(),
            final(self).pause() is None,
    {
        self.pause_request.take()
    }
}

impl Default for PerVcpuState {
    fn default() -> (r: PerVcpuState)
        ensures
            r.pause() is None,
    {
        PerVcpuState { pause_request: None }
    }
}

/// The bytes of an access: where to put them, or what they are.
pub enum VcpuRunData<'a> {
    Read(&'a mut [u8]),
    Write(&'a [u8]),
}

impl<'a> VcpuRunData<'a> {
    pub open spec fn bytes(&self) -> Seq<u8> {
        match self {
            VcpuRunData::Read(s) => s@,
            VcpuRunData::Write(s) => s@,
        }
    }

    pub fn is_write(&self) -> (r: bool)
        ensures
            r == (self is Write),
    {
        match self {
            VcpuRunData::Write(_) => true,
            _ => false,
        }
    }

    pub fn as_slice(&self) -> (r: &[u8])
        ensures
            r@ == self.bytes(),
            *self matches VcpuRunData::Read(s) ==> r@ == s@,
            *self matches VcpuRunData::Write(s) ==> r@ == s@,
    {
        match self {
            VcpuRunData::Read(s) => s,
            VcpuRunData::Write(s) => s,
        }
    }

    /// Fills the bytes of a read from the front of `data`, and does nothing for a write.
    pub fn copy_from_slice(&mut self, data: &[u8])
        requires
            *old(self) is Read ==> old(self).bytes().len() <= data@.len(),
        ensures
            *old(self) is Write ==> *final(self) == *old(self),
            *old(self) is Read ==> *final(self) is Read && final(self).bytes() == data@.take(
                old(self).bytes().len() as int,
            ) && final(final(self)->Read_0)@ == final(old(self)->Read_0)@,
    {
        match self {
            VcpuRunData::Read(s) => {
                let copy_size: usize = s.len();
                let mut i: usize = 0;
                while i < copy_size
                    invariant
                        copy_size == s@.len(),
                        i <= copy_size <= data@.len(),
                        forall|j: int| 0 <= j < i ==> s@[j] == data@[j],
                        final(*s)@ == final(old(self)->Read_0)@,
                    decreases copy_size - i,
                {
                    s[i] = data[i];
                    i = i + 1;
                }
                assert(s@ =~= data@.take(copy_size as int));
            },
            VcpuRunData::Write(_) => {},
        }
    }
}

/// The lock on a state that VCPUs share could not be taken, because its last holder panicked.
#[derive(Clone, Copy, Debug, PartialEq, Eq, Structural)]
pub struct LockPoisoned;

/// State object for a VCPU's connection with the plugin process.
///
/// This is used by a VCPU thread to allow the plugin process to handle vmexits. A method that
/// sets a wait reason is followed by requests of the plugin process, each of which goes through
/// [`PluginVcpu::handle_request`], until one resumes the VCPU.
pub struct PluginVcpu {
    wait_reason: Option<WaitReason>,
}

/// The space of an access, as the plugin process names it.
pub open spec fn address_space(space: IoSpace) -> AddressSpace {
    match space {
        IoSpace::Ioport => AddressSpace::Ioport,
        IoSpace::Mmio => AddressSpace::Mmio,
    }
}

/// `reason` is an access to `addr` in `space` with these bytes.
pub open spec fn is_io_wait(
    reason: Option<WaitReason>,
    space: IoSpace,
    addr: u64,
    write: bool,
    bytes: Seq<u8>,
) -> bool {
    reason matches Some(WaitReason::Io { space: s, address, is_write, data }) && s
        == address_space(space) && address == addr && is_write == write && data@ == bytes
}

impl PluginVcpu {
    /// Why the VCPU waits, until the plugin process has asked.
    pub closed spec fn pending(self) -> Option<WaitReason> {
        self.wait_reason
    }

    /// Creates the state of a connection that no reason waits on.
    pub fn new() -> (r: PluginVcpu)
        ensures
            r.pending() is None,
    {
        PluginVcpu { wait_reason: None }
    }

    /// Makes the VCPU wait for the plugin process to initialize it.
    ///
    /// This should be called for each VCPU before the first run of any of the VCPUs in the VM.
    pub fn init(&mut self)
        ensures
            final(self).pending() == Some(WaitReason::Init),
    {
        self.wait_reason = Some(WaitReason::Init);
    }

    /// The VCPU thread should call this before rerunning a VM in order to handle pending requests
    /// to this VCPU. `request` is the pause request taken from the state of the VCPU, if its lock
    /// could be taken. Returns whether the VCPU now waits.
    pub fn pre_run(&mut self, request: Result<Option<u64>, LockPoisoned>) -> (r: SysResult<bool>)
        ensures
            request is Err ==> r == Err::<bool, SysError>(SysError { code: EDEADLK }),
            request matches Ok(pause) ==> r == Ok::<bool, SysError>(pause is Some),
            final(self).pending() == match request {
                Ok(Some(user)) => Some(WaitReason::User { user }),
                _ => old(self).pending(),
            },
    {
        match request {
            Err(_) => Err(SysError::new(edeadlk())),
            Ok(None) => Ok(false),
            Ok(Some(user)) => {
                self.wait_reason = Some(WaitReason::User { user });
                Ok(true)
            },
        }
    }

    /// Makes the VCPU wait for the plugin process to handle an access, if the address is
    /// reserved. Returns whether it is.
    pub fn process(
        &mut self,
        shared: &SharedVcpuState,
        io_space: IoSpace,
        addr: u64,
        data: &VcpuRunData,
    ) -> (r: bool)
        requires
            shared.wf(),
        ensures
            r == crate::regions::covered(shared.regions(io_space), addr as int),
            r ==> is_io_wait(
                final(self).pending(),
                io_space,
                addr,
                data is Write,
                data.bytes(),
            ),
            !r ==> *final(self) == *old(self),
            r ==> (final(self).pending() matches Some(
                WaitReason::Io { space, address, is_write, data: sent },
            ) && (space is Ioport <==> io_space is Ioport) && address == addr && is_write == (
            data is Write) && sent@.len() == data.bytes().len() && forall|k: int|
                0 <= k < sent@.len() ==> #[trigger] sent@[k] == data.bytes()[k]),
            r <==> exists|s: u64| #[trigger]
                shared.regions(io_space).dom().contains(s) && s <= addr < s + shared.regions(
                    io_space,
                )[s],
    {
        proof {
            shared.lemma_wf(io_space);
        }
        let ghost m = shared.regions(io_space);
        match shared.first_before(io_space, addr) {
            Some(Range(start, len)) => {
                proof {
                    crate::regions::lemma_nearest_decides(m, start, addr);
                }
                let offset: u64 = addr - start;
                if offset >= len {
                    return false;
                }
                let space = match io_space {
                    IoSpace::Ioport => AddressSpace::Ioport,
                    IoSpace::Mmio => AddressSpace::Mmio,
                };
                self.wait_reason = Some(
                    WaitReason::Io {
                        space,
                        address: addr,
                        is_write: data.is_write(),
                        data: vstd::slice::slice_to_vec(data.as_slice()),
                    },
                );
                true
            },
            None => false,
        }
    }

    /// Ends an access that [`PluginVcpu::process`] made the VCPU wait for: a read takes its bytes
    /// from what the VCPU was resumed with. Returns the error to report, if there is one; that
    /// the connection was shut down is none.
    pub fn finish_process(data: &mut VcpuRunData, resumed: SysResult<Vec<u8>>) -> (r: Option<
        SysError,
    >)
        requires
            *old(data) is Read && resumed is Ok ==> old(data).bytes().len()
                <= resumed->Ok_0@.len(),
        ensures
            r == match resumed {
                Ok(_) => None::<SysError>,
                Err(e) => if e.code == EPIPE {
                    None
                } else {
                    Some(e)
                },
            },
            *old(data) is Write || resumed is Err ==> *final(data) == *old(data),
            *old(data) is Read && resumed is Ok ==> *final(data) is Read && final(data).bytes()
                == resumed->Ok_0@.take(old(data).bytes().len() as int)
                && final(final(data)->Read_0)@ == final(old(data)->Read_0)@,
    {
        match resumed {
            Ok(resume_data) => {
                data.copy_from_slice(&resume_data);
                None
            },
            Err(e) => if e.errno() == epipe() {
                None
            } else {
                Some(e)
            },
        }
    }

    /// Has the plugin process handle an IO port read, if the address is reserved.
    pub fn io_read(&mut self, shared: &SharedVcpuState, addr: u64, data: &mut [u8]) -> (r: bool)
        requires
            shared.wf(),
        ensures
            r == crate::regions::covered(shared.regions(IoSpace::Ioport), addr as int),
            r ==> is_io_wait(final(self).pending(), IoSpace::Ioport, addr, false, old(data)@),
            r ==> (final(self).pending() matches Some(
                WaitReason::Io { space, address, is_write, data: sent },
            ) && space is Ioport && address == addr && !is_write && sent@.len() == old(data)@.len()
                && forall|k: int| 0 <= k < sent@.len() ==> #[trigger] sent@[k] == old(data)@[k]),
            r <==> exists|s: u64| #[trigger]
                shared.regions(IoSpace::Ioport).dom().contains(s) && s <= addr < s + shared.regions(IoSpace::Ioport)[s],
            !r ==> *final(self) == *old(self),
            final(data)@ == old(data)@,
    {
        let run_data = VcpuRunData::Read(data);
        let r = self.process(shared, IoSpace::Ioport, addr, &run_data);
        assert(has_resolved(run_data->Read_0));
        r
    }

    /// Has the plugin process handle an IO port write, if the address is reserved.
    pub fn io_write(&mut self, shared: &SharedVcpuState, addr: u64, data: &[u8]) -> (r: bool)
        requires
            shared.wf(),
        ensures
            r == crate::regions::covered(shared.regions(IoSpace::Ioport), addr as int),
            r ==> is_io_wait(final(self).pending(), IoSpace::Ioport, addr, true, data@),
            r ==> (final(self).pending() matches Some(
                WaitReason::Io { space, address, is_write, data: sent },
            ) && space is Ioport && address == addr && is_write && sent@.len() == data@.len()
                && forall|k: int| 0 <= k < sent@.len() ==> #[trigger] sent@[k] == data@[k]),
            r <==> exists|s: u64| #[trigger]
                shared.regions(IoSpace::Ioport).dom().contains(s) && s <= addr < s + shared.regions(IoSpace::Ioport)[s],
            !r ==> *final(self) == *old(self),
    {
        self.process(shared, IoSpace::Ioport, addr, &VcpuRunData::Write(data))
    }

    /// Has the plugin process handle an MMIO read, if the address is reserved.
    pub fn mmio_read(&mut self, shared: &SharedVcpuState, addr: u64, data: &mut [u8]) -> (r: bool)
        requires
            shared.wf(),
        ensures
            r == crate::regions::covered(shared.regions(IoSpace::Mmio), addr as int),
            r ==> is_io_wait(final(self).pending(), IoSpace::Mmio, addr, false, old(data)@),
            r ==> (final(self).pending() matches Some(
                WaitReason::Io { space, address, is_write, data: sent },
            ) && space is Mmio && address == addr && !is_write && sent@.len() == old(data)@.len()
                && forall|k: int| 0 <= k < sent@.len() ==> #[trigger] sent@[k] == old(data)@[k]),
            r <==> exists|s: u64| #[trigger]
                shared.regions(IoSpace::Mmio).dom().contains(s) && s <= addr < s + shared.regions(IoSpace::Mmio)[s],
            !r ==> *final(self) == *old(self),
            final(data)@ == old(data)@,
    {
        let run_data = VcpuRunData::Read(data);
        let r = self.process(shared, IoSpace::Mmio, addr, &run_data);
        assert(has_resolved(run_data->Read_0));
        r
    }

    /// Has the plugin process handle an MMIO write, if the address is reserved.
    pub fn mmio_write(&mut self, shared: &SharedVcpuState, addr: u64, data: &[u8]) -> (r: bool)
        requires
            shared.wf(),
        ensures
            r == crate::regions::covered(shared.regions(IoSpace::Mmio), addr as int),
            r ==> is_io_wait(final(self).pending(), IoSpace::Mmio, addr, true, data@),
            r ==> (final(self).pending() matches Some(
                WaitReason::Io { space, address, is_write, data: sent },
            ) && space is Mmio && address == addr && is_write && sent@.len() == data@.len()
                && forall|k: int| 0 <= k < sent@.len() ==> #[trigger] sent@[k] == data@[k]),
            r <==> exists|s: u64| #[trigger]
                shared.regions(IoSpace::Mmio).dom().contains(s) && s <= addr < s + shared.regions(IoSpace::Mmio)[s],
            !r ==> *final(self) == *old(self),
    {
        self.process(shared, IoSpace::Mmio, addr, &VcpuRunData::Write(data))
    }

    /// Ends a read: its bytes are those that the VCPU was resumed with.
    pub fn finish_read(data: &mut [u8], resumed: SysResult<Vec<u8>>) -> (r: Option<SysError>)
        requires
            resumed is Ok ==> old(data)@.len() <= resumed->Ok_0@.len(),
        ensures
            r == match resumed {
                Ok(_) => None::<SysError>,
                Err(e) => if e.code == EPIPE {
                    None
                } else {
                    Some(e)
                },
            },
            final(data)@ == match resumed {
                Ok(bytes) => bytes@.take(old(data)@.len() as int),
                Err(_) => old(data)@,
            },
    {
        let mut run_data = VcpuRunData::Read(data);
        let r = Self::finish_process(&mut run_data, resumed);
        assert(has_resolved(run_data->Read_0));
        r
    }

    /// Decides what to do about a request of the plugin process.
    ///
    /// The plugin process has to ask why the VCPU waits before anything else, and learns it
    /// once. Any other request while a reason is pending is invalid.
    pub fn handle_request(&mut self, request: VcpuRequest, sizes: &StateSizes) -> (step: Step)
        ensures
            final(self).pending() == pending_after(old(self).pending(), request),
            is_step(old(self).pending(), request, *sizes, step),
    {
        let wait_reason = self.wait_reason.take();
        if request.wait {
            return match wait_reason {
                Some(reason) => Self::reply(0, ResponseBody::Wait(reason), None),
                None => Self::reply(eproto(), ResponseBody::Empty, None),
            };
        }
        if wait_reason.is_some() {
            // Any request other than getting the wait reason while there is one pending is
            // invalid.
            self.wait_reason = wait_reason;
            return Self::reply(eproto(), ResponseBody::Empty, None);
        }
        if request.resume.is_some() {
            return Self::reply(0, ResponseBody::Resume, request.resume);
        }
        if let Some(set) = request.get_state {
            return Step::Call(KvmCall::GetState(get_vcpu_state(set)));
        }
        if let Some(set_state) = &request.set_state {
            return match set_vcpu_state(set_state.set, set_state.state.as_slice(), sizes) {
                Ok(call) => Step::Call(KvmCall::Apply(call)),
                Err(e) => Self::reply(e.errno(), ResponseBody::SetState, None),
            };
        }
        if let Some(entry_indices) = &request.get_msrs {
            return Step::Call(KvmCall::GetMsrs(query_msrs(entry_indices)));
        }
        if let Some(entries) = &request.set_msrs {
            return Step::Call(KvmCall::Apply(KvmSet::Msrs(set_msrs_list(entries))));
        }
        if let Some(entries) = &request.set_cpuid {
            return Step::Call(KvmCall::Apply(KvmSet::Cpuid2(set_cpuid_list(entries))));
        }
        Self::reply(enotty(), ResponseBody::Empty, None)
    }

    fn reply(errno: i32, body: ResponseBody, resume_data: Option<Vec<u8>>) -> (step: Step)
        ensures
            step == reply(errno, body, resume_data),
    {
        Step::Reply { response: VcpuResponse { errno, body }, resume_data }
    }

    /// The response to a request for the registers of a group, once they have been read.
    pub fn finish_get_state(result: SysResult<Vec<u8>>) -> (r: VcpuResponse)
        ensures
            result matches Ok(state) ==> r == (VcpuResponse {
                errno: 0,
                body: ResponseBody::GetState(state),
            }),
            result matches Err(e) ==> r.errno == e.code && (r.body matches ResponseBody::GetState(
                state,
            ) && state@ == Seq::<u8>::empty()),
    {
        match result {
            Ok(state) => VcpuResponse { errno: 0, body: ResponseBody::GetState(state) },
            Err(e) => VcpuResponse {
                errno: e.errno(),
                body: ResponseBody::GetState(Vec::new()),
            },
        }
    }

    /// The response to a request for model-specific registers, once they have been read.
    pub fn finish_get_msrs(result: SysResult<Vec<KvmMsrEntry>>) -> (r: VcpuResponse)
        ensures
            result matches Ok(entries) ==> r.errno == 0 && (r.body matches ResponseBody::GetMsrs(
                data,
            ) && data@ == crate::kvm::msr_data(entries@) && data@.len() == entries@.len()
                && forall|k: int|
                0 <= k < data@.len() ==> #[trigger] data@[k] == entries@[k].data),
            result matches Err(e) ==> r.errno == e.code && (r.body matches ResponseBody::GetMsrs(
                data,
            ) && data@ == Seq::<u64>::empty()),
    {
        match result {
            Ok(entries) => VcpuResponse {
                errno: 0,
                body: ResponseBody::GetMsrs(msr_values(&entries)),
            },
            Err(e) => VcpuResponse { errno: e.errno(), body: ResponseBody::GetMsrs(Vec::new()) },
        }
    }

    /// The response to a request to set something, once that has been tried.
    pub fn finish_set(call: &KvmSet, result: SysResult<()>) -> (r: VcpuResponse)
        ensures
            r == (VcpuResponse {
                errno: match result {
                    Ok(_) => 0,
                    Err(e) => e.code,
                },
                body: match call {
                    KvmSet::Msrs(_) => ResponseBody::SetMsrs,
                    KvmSet::Cpuid2(_) => ResponseBody::SetCpuid,
                    _ => ResponseBody::SetState,
                },
            }),
    {
        let errno: i32 = match result {
            Ok(_) => 0,
            Err(e) => e.errno(),
        };
        let body = match call {
            KvmSet::Msrs(_) => ResponseBody::SetMsrs,
            KvmSet::Cpuid2(_) => ResponseBody::SetCpuid,
            _ => ResponseBody::SetState,
        };
        VcpuResponse { errno, body }
    }
}

/// What the VCPU waits for after all of `requests`, where it waited for `pending` before.
pub open spec fn pending_after_all(
    pending: Option<WaitReason>,
    requests: Seq<VcpuRequest>,
) -> Option<WaitReason>
    decreases requests.len(),
{
    if requests.len() == 0 {
        pending
    } else {
        pending_after(pending_after_all(pending, requests.drop_last()), requests.last())
    }
}

/// The VCPU is to run again after the step.
pub open spec fn resumes(step: Step) -> bool {
    step matches Step::Reply { resume_data: Some(_), .. }
}

/// A request other than for the wait reason, while one is pending, is answered with a protocol
/// error, reaches neither the hypervisor nor the VCPU, and leaves the reason pending.
pub proof fn law_refused_while_pending(
    reason: WaitReason,
    request: VcpuRequest,
    sizes: StateSizes,
    step: Step,
)
    requires
        !request.wait,
        is_step(Some(reason), request, sizes, step),
    ensures
        step == reply(EPROTO, ResponseBody::Empty, None),
        step matches Step::Reply { response, resume_data } && response.errno == EPROTO
            && response.body is Empty && resume_data is None,
        !resumes(step),
        pending_after(Some(reason), request) == Some(reason),
{
}

/// A request for the wait reason never reaches the hypervisor and never resumes the VCPU. It is
/// answered with the reason that is pending, or with a protocol error where there is none.
pub proof fn law_wait_answered(
    pending: Option<WaitReason>,
    request: VcpuRequest,
    sizes: StateSizes,
    step: Step,
)
    requires
        request.wait,
        is_step(pending, request, sizes, step),
    ensures
        step is Reply,
        !resumes(step),
        pending matches Some(reason) ==> step == reply(0, ResponseBody::Wait(reason), None),
        pending is None ==> step == reply(EPROTO, ResponseBody::Empty, None),
        step matches Step::Reply { response, resume_data } && resume_data is None && match pending {
            Some(reason) => response.errno == 0 && response.body == ResponseBody::Wait(reason),
            None => response.errno == EPROTO && response.body is Empty,
        },
        pending_after(pending, request) is None,
{
}

/// Once no reason is pending, no request makes one.
pub proof fn law_nothing_pending_stays(requests: Seq<VcpuRequest>)
    ensures
        pending_after_all(None, requests) is None,
    decreases requests.len(),
{
    if requests.len() > 0 {
        law_nothing_pending_stays(requests.drop_last());
    }
}

/// A reason stays pending for as long as the plugin process does not ask for it, and is gone
/// as soon as it has.
pub proof fn law_pending_until_asked(reason: WaitReason, requests: Seq<VcpuRequest>)
    ensures
        pending_after_all(Some(reason), requests) == if exists|i: int|
            0 <= i < requests.len() && (#[trigger] requests[i]).wait {
            None
        } else {
            Some(reason)
        },
    decreases requests.len(),
{
    if requests.len() > 0 {
        let earlier = requests.drop_last();
        law_pending_until_asked(reason, earlier);
        if exists|i: int| 0 <= i < earlier.len() && (#[trigger] earlier[i]).wait {
            let i = choose|i: int| 0 <= i < earlier.len() && (#[trigger] earlier[i]).wait;
            assert(requests[i].wait);
        } else if requests.last().wait {
            assert(requests[requests.len() - 1].wait);
        } else {
            assert forall|i: int| 0 <= i < requests.len() implies !(#[trigger] requests[i]).wait by {
                if i < earlier.len() {
                    assert(!earlier[i].wait);
                }
            }
        }
    }
}

/// A VCPU that waits runs again only after the plugin process has been told why it waits.
pub proof fn law_resumed_only_after_asked(
    reason: WaitReason,
    earlier: Seq<VcpuRequest>,
    request: VcpuRequest,
    sizes: StateSizes,
    step: Step,
)
    requires
        is_step(pending_after_all(Some(reason), earlier), request, sizes, step),
        resumes(step),
    ensures
        exists|i: int| 0 <= i < earlier.len() && (#[trigger] earlier[i]).wait,
{
    law_pending_until_asked(reason, earlier);
}

/// The hypervisor is called for a VCPU that waits only after the plugin process has been told
/// why it waits.
pub proof fn law_called_only_after_asked(
    reason: WaitReason,
    earlier: Seq<VcpuRequest>,
    request: VcpuRequest,
    sizes: StateSizes,
    step: Step,
)
    requires
        is_step(pending_after_all(Some(reason), earlier), request, sizes, step),
        step is Call,
    ensures
        exists|i: int| 0 <= i < earlier.len() && (#[trigger] earlier[i]).wait,
{
    law_pending_until_asked(reason, earlier);
}

/// A wait reason is handed out once: every later request for it is a protocol error.
pub proof fn law_reason_given_once(
    pending: Option<WaitReason>,
    earlier: Seq<VcpuRequest>,
    request: VcpuRequest,
    sizes: StateSizes,
    step: Step,
)
    requires
        exists|i: int| 0 <= i < earlier.len() && (#[trigger] earlier[i]).wait,
        request.wait,
        is_step(pending_after_all(pending, earlier), request, sizes, step),
    ensures
        step == reply(EPROTO, ResponseBody::Empty, None),
{
    match pending {
        Some(reason) => law_pending_until_asked(reason, earlier),
        None => law_nothing_pending_stays(earlier),
    }
}

/// Only a request to resume the VCPU resumes it, with the bytes that the request carries.
pub proof fn law_resume_data(
    pending: Option<WaitReason>,
    request: VcpuRequest,
    sizes: StateSizes,
    step: Step,
)
    requires
        is_step(pending, request, sizes, step),
    ensures
        resumes(step) <==> (!request.wait && pending is None && request.resume is Some),
        resumes(step) ==> step->resume_data == request.resume,
        resumes(step) ==> (step matches Step::Reply { response, resume_data: Some(data) }
            && response.errno == 0 && response.body is Resume && data@ == request.resume->0@),
{
}

/// A reason to wait for an access names the space and the address of it, whether it is a write,
/// and all of its bytes, one by one.
pub proof fn law_access_is_handed_over_whole(
    reason: Option<WaitReason>,
    space: IoSpace,
    addr: u64,
    write: bool,
    bytes: Seq<u8>,
)
    requires
        is_io_wait(reason, space, addr, write, bytes),
    ensures
        reason matches Some(WaitReason::Io { space: named, address, is_write, data }) && (
        named is Ioport <==> space is Ioport) && address == addr && is_write == write && data@.len()
            == bytes.len() && forall|k: int|
            0 <= k < bytes.len() ==> #[trigger] data@[k] == bytes[k],
{
}

/// Two accesses that lead to the same reason are the same access.
pub proof fn law_reasons_tell_accesses_apart(
    reason: Option<WaitReason>,
    space: IoSpace,
    addr: u64,
    write: bool,
    bytes: Seq<u8>,
    other_space: IoSpace,
    other_addr: u64,
    other_write: bool,
    other_bytes: Seq<u8>,
)
    requires
        is_io_wait(reason, space, addr, write, bytes),
        is_io_wait(reason, other_space, other_addr, other_write, other_bytes),
    ensures
        space == other_space,
        addr == other_addr,
        write == other_write,
        bytes == other_bytes,
{
}

/// A request for a group of registers, with nothing pending and no request to resume beside it,
/// leads to a call that reads just that group.
pub proof fn law_get_state_as_requested(request: VcpuRequest, sizes: StateSizes, step: Step)
    requires
        is_step(None, request, sizes, step),
        !request.wait,
        request.resume is None,
        request.get_state is Some,
    ensures
        step matches Step::Call(KvmCall::GetState(group)) && match request.get_state->0 {
            crate::messages::StateSet::Regs => group is Regs,
            crate::messages::StateSet::Sregs => group is Sregs,
            crate::messages::StateSet::Fpu => group is Fpu,
            crate::messages::StateSet::Debugregs => group is Debugregs,
        },
{
}

/// A request to set a group of registers, with nothing pending and no part that goes before it,
/// leads to a call that sets that group to the bytes of the request, where they are as many as the
/// group has, and is refused otherwise.
pub proof fn law_set_state_as_requested(request: VcpuRequest, sizes: StateSizes, step: Step)
    requires
        is_step(None, request, sizes, step),
        !request.wait,
        request.resume is None,
        request.get_state is None,
        request.set_state is Some,
    ensures
        ({
            let image = request.set_state->0.state@;
            let (size, set) = match request.set_state->0.set {
                crate::messages::StateSet::Regs => (
                    sizes.regs,
                    step matches Step::Call(KvmCall::Apply(KvmSet::Regs(v))) && v@ == image,
                ),
                crate::messages::StateSet::Sregs => (
                    sizes.sregs,
                    step matches Step::Call(KvmCall::Apply(KvmSet::Sregs(v))) && v@ == image,
                ),
                crate::messages::StateSet::Fpu => (
                    sizes.fpu,
                    step matches Step::Call(KvmCall::Apply(KvmSet::Fpu(v))) && v@ == image,
                ),
                crate::messages::StateSet::Debugregs => (
                    sizes.debugregs,
                    step matches Step::Call(KvmCall::Apply(KvmSet::Debugregs(v))) && v@ == image,
                ),
            };
            if image.len() == size {
                set
            } else {
                step matches Step::Reply { response, resume_data } && response.errno == EINVAL
                    && response.body is SetState && resume_data is None
            }
        }),
{
}

/// A request for model-specific registers, with nothing pending and no part that goes before it,
/// leads to a call that reads those registers, in the order of the request.
pub proof fn law_get_msrs_as_requested(request: VcpuRequest, sizes: StateSizes, step: Step)
    requires
        is_step(None, request, sizes, step),
        !request.wait,
        request.resume is None,
        request.get_state is None,
        request.set_state is None,
        request.get_msrs is Some,
    ensures
        step matches Step::Call(KvmCall::GetMsrs(entries)) && entries@.len()
            == request.get_msrs->0@.len() && forall|k: int|
            0 <= k < entries@.len() ==> (#[trigger] entries@[k]).index == request.get_msrs->0@[k]
                && entries@[k].data == 0 && entries@[k].reserved == 0,
{
}

/// A request to set model-specific registers, with nothing pending and no part that goes before
/// it, leads to a call that sets each of them, in the order of the request, to the whole value
/// that was asked for.
pub proof fn law_set_msrs_as_requested(request: VcpuRequest, sizes: StateSizes, step: Step)
    requires
        is_step(None, request, sizes, step),
        !request.wait,
        request.resume is None,
        request.get_state is None,
        request.set_state is None,
        request.get_msrs is None,
        request.set_msrs is Some,
    ensures
        step matches Step::Call(KvmCall::Apply(KvmSet::Msrs(msrs))) && msrs.entries@.len()
            == request.set_msrs->0@.len() && msrs.nmsrs == request.set_msrs->0@.len() as u32
            && msrs.pad == 0 && forall|k: int|
            0 <= k < msrs.entries@.len() ==> (#[trigger] msrs.entries@[k]).index
                == request.set_msrs->0@[k].index && msrs.entries@[k].data
                == request.set_msrs->0@[k].data && msrs.entries@[k].reserved == 0,
{
}

/// A request to set what `CPUID` reports, with nothing pending and no part that goes before it,
/// leads to a call that sets each entry, in the order of the request, as it was asked for.
pub proof fn law_set_cpuid_as_requested(request: VcpuRequest, sizes: StateSizes, step: Step)
    requires
        is_step(None, request, sizes, step),
        !request.wait,
        request.resume is None,
        request.get_state is None,
        request.set_state is None,
        request.get_msrs is None,
        request.set_msrs is None,
        request.set_cpuid is Some,
    ensures
        step matches Step::Call(KvmCall::Apply(KvmSet::Cpuid2(cpuid))) && cpuid@.len()
            == request.set_cpuid->0@.len() && forall|k: int|
            0 <= k < cpuid@.len() ==> {
                let asked = request.set_cpuid->0@[k];
                let set = #[trigger] cpuid@[k];
                &&& set.function == asked.function
                &&& set.eax == asked.eax
                &&& set.ebx == asked.ebx
                &&& set.ecx == asked.ecx
                &&& set.edx == asked.edx
                &&& asked.has_index ==> set.index == asked.index && set.flags == 1
                &&& !asked.has_index ==> set.index == 0 && set.flags == 0
            },
{
}

/// A request without any part, with nothing pending, is refused as unknown.
pub proof fn law_empty_request_is_unknown(request: VcpuRequest, sizes: StateSizes, step: Step)
    requires
        is_step(None, request, sizes, step),
        !request.wait,
        request.resume is None,
        request.get_state is None,
        request.set_state is None,
        request.get_msrs is None,
        request.set_msrs is None,
        request.set_cpuid is None,
    ensures
        step matches Step::Reply { response, resume_data } && response.errno == ENOTTY
            && response.body is Empty && resume_data is None,
{
}

/// A reason is gone once it was asked for, and no other request changes it.
pub proof fn law_only_asking_takes_the_reason(pending: Option<WaitReason>, request: VcpuRequest)
    ensures
        request.wait ==> pending_after(pending, request) is None,
        !request.wait ==> pending_after(pending, request) == pending,
{
}

} // verus!
