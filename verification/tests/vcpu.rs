use crosvm::errno::SysError;
use crosvm::kvm::{
    get_vcpu_state, msr_values, query_msrs, set_cpuid_list, set_msrs_list, set_vcpu_state, KvmCall,
    KvmGet, KvmMsrEntry, KvmSet, StateSizes, KVM_CPUID_FLAG_SIGNIFCANT_INDEX,
};
use crosvm::messages::{
    AddressSpace, CpuidEntry, MsrEntry, ResponseBody, SetState, StateSet, VcpuRequest,
    VcpuResponse, WaitReason,
};
use crosvm::regions::{IoSpace, SharedVcpuState};
use crosvm::vcpu::{LockPoisoned, PerVcpuState, PluginVcpu, Step, VcpuRunData};

const SIZES: StateSizes = StateSizes { regs: 4, sregs: 5, fpu: 6, debugregs: 7 };

fn request() -> VcpuRequest {
    VcpuRequest {
        wait: false,
        resume: None,
        get_state: None,
        set_state: None,
        get_msrs: None,
        set_msrs: None,
        set_cpuid: None,
    }
}

fn wait_request() -> VcpuRequest {
    VcpuRequest { wait: true, ..request() }
}

fn resume_request(data: Vec<u8>) -> VcpuRequest {
    VcpuRequest { resume: Some(data), ..request() }
}

fn reply(step: Step) -> (VcpuResponse, Option<Vec<u8>>) {
    match step {
        Step::Reply { response, resume_data } => (response, resume_data),
        Step::Call(call) => panic!("unexpected call {:?}", call),
    }
}

fn call(step: Step) -> KvmCall {
    match step {
        Step::Call(call) => call,
        Step::Reply { response, .. } => panic!("unexpected reply {:?}", response),
    }
}

fn assert_refused(step: Step, errno: i32) {
    let (response, resume_data) = reply(step);
    assert_eq!(response.errno, errno);
    assert!(matches!(response.body, ResponseBody::Empty));
    assert!(resume_data.is_none());
}

fn io_wait(vcpu: &mut PluginVcpu) -> (AddressSpace, u64, bool, Vec<u8>) {
    match reply(vcpu.handle_request(wait_request(), &SIZES)).0.body {
        ResponseBody::Wait(WaitReason::Io { space, address, is_write, data }) => {
            (space, address, is_write, data)
        }
        body => panic!("unexpected body {:?}", body),
    }
}

#[test]
fn init_waits_until_resumed() {
    let mut vcpu = PluginVcpu::new();
    vcpu.init();
    // Nothing but the reason can be asked for while it is pending.
    assert_refused(vcpu.handle_request(resume_request(vec![1]), &SIZES), libc::EPROTO);
    let get = VcpuRequest { get_state: Some(StateSet::Regs), ..request() };
    assert_refused(vcpu.handle_request(get, &SIZES), libc::EPROTO);
    assert_refused(vcpu.handle_request(request(), &SIZES), libc::EPROTO);
    let (response, resume_data) = reply(vcpu.handle_request(wait_request(), &SIZES));
    assert_eq!(response.errno, 0);
    assert!(matches!(response.body, ResponseBody::Wait(WaitReason::Init)));
    assert!(resume_data.is_none());
    // The reason is handed out once.
    assert_refused(vcpu.handle_request(wait_request(), &SIZES), libc::EPROTO);
    let (response, resume_data) = reply(vcpu.handle_request(resume_request(vec![1, 2]), &SIZES));
    assert_eq!(response.errno, 0);
    assert!(matches!(response.body, ResponseBody::Resume));
    assert_eq!(resume_data, Some(vec![1, 2]));
}

#[test]
fn empty_request_is_unknown() {
    let mut vcpu = PluginVcpu::new();
    assert_refused(vcpu.handle_request(request(), &SIZES), libc::ENOTTY);
}

#[test]
fn first_part_of_a_request_counts() {
    let mut vcpu = PluginVcpu::new();
    let both = VcpuRequest { get_state: Some(StateSet::Fpu), ..resume_request(vec![3]) };
    let (_, resume_data) = reply(vcpu.handle_request(both, &SIZES));
    assert_eq!(resume_data, Some(vec![3]));
    let both = VcpuRequest {
        get_state: Some(StateSet::Fpu),
        get_msrs: Some(vec![1]),
        ..request()
    };
    assert!(matches!(call(vcpu.handle_request(both, &SIZES)), KvmCall::GetState(KvmGet::Fpu)));
    let both = VcpuRequest { wait: true, ..resume_request(vec![3]) };
    assert_refused(vcpu.handle_request(both, &SIZES), libc::EPROTO);
}

#[test]
fn get_state_requests() {
    let mut vcpu = PluginVcpu::new();
    let sets = [StateSet::Regs, StateSet::Sregs, StateSet::Fpu, StateSet::Debugregs];
    let gets = [KvmGet::Regs, KvmGet::Sregs, KvmGet::Fpu, KvmGet::Debugregs];
    for i in 0..4 {
        let get = VcpuRequest { get_state: Some(sets[i]), ..request() };
        match call(vcpu.handle_request(get, &SIZES)) {
            KvmCall::GetState(what) => assert_eq!(what, gets[i]),
            other => panic!("unexpected call {:?}", other),
        }
        assert_eq!(get_vcpu_state(sets[i]), gets[i]);
    }
    let response = PluginVcpu::finish_get_state(Ok(vec![9, 8]));
    assert_eq!(response.errno, 0);
    assert!(matches!(response.body, ResponseBody::GetState(state) if state == vec![9, 8]));
    let response = PluginVcpu::finish_get_state(Err(SysError::new(14)));
    assert_eq!(response.errno, 14);
    assert!(matches!(response.body, ResponseBody::GetState(state) if state.is_empty()));
}

#[test]
fn set_state_requests() {
    let mut vcpu = PluginVcpu::new();
    let set = |set: StateSet, state: Vec<u8>| VcpuRequest {
        set_state: Some(SetState { set, state }),
        ..request()
    };
    let step = vcpu.handle_request(set(StateSet::Sregs, vec![1, 2, 3, 4, 5]), &SIZES);
    match call(step) {
        KvmCall::Apply(KvmSet::Sregs(image)) => {
            assert_eq!(image, vec![1, 2, 3, 4, 5]);
            let response = PluginVcpu::finish_set(&KvmSet::Sregs(image), Ok(()));
            assert_eq!(response.errno, 0);
            assert!(matches!(response.body, ResponseBody::SetState));
        }
        other => panic!("unexpected call {:?}", other),
    }
    let (response, resume_data) =
        reply(vcpu.handle_request(set(StateSet::Fpu, vec![1, 2, 3, 4, 5]), &SIZES));
    assert_eq!(response.errno, libc::EINVAL);
    assert!(matches!(response.body, ResponseBody::SetState));
    assert!(resume_data.is_none());
    assert!(matches!(
        set_vcpu_state(StateSet::Regs, &[0; 4], &SIZES),
        Ok(KvmSet::Regs(image)) if image == vec![0; 4]
    ));
    assert!(matches!(
        set_vcpu_state(StateSet::Fpu, &[1; 6], &SIZES),
        Ok(KvmSet::Fpu(image)) if image == vec![1; 6]
    ));
    assert!(matches!(
        set_vcpu_state(StateSet::Debugregs, &[2; 7], &SIZES),
        Ok(KvmSet::Debugregs(image)) if image == vec![2; 7]
    ));
    let error = set_vcpu_state(StateSet::Debugregs, &[2; 8], &SIZES).unwrap_err();
    assert_eq!(error.errno(), libc::EINVAL);
}

#[test]
fn get_msrs_requests() {
    let mut vcpu = PluginVcpu::new();
    let get = VcpuRequest { get_msrs: Some(vec![0x10, 0x1b]), ..request() };
    let mut entries = match call(vcpu.handle_request(get, &SIZES)) {
        KvmCall::GetMsrs(entries) => entries,
        other => panic!("unexpected call {:?}", other),
    };
    assert_eq!(
        entries,
        vec![
            KvmMsrEntry { index: 0x10, reserved: 0, data: 0 },
            KvmMsrEntry { index: 0x1b, reserved: 0, data: 0 },
        ]
    );
    assert_eq!(query_msrs(&vec![]), vec![]);
    entries[0].data = 7;
    entries[1].data = u64::MAX;
    assert_eq!(msr_values(&entries), vec![7, u64::MAX]);
    let response = PluginVcpu::finish_get_msrs(Ok(entries));
    assert_eq!(response.errno, 0);
    assert!(matches!(response.body, ResponseBody::GetMsrs(data) if data == vec![7, u64::MAX]));
    let response = PluginVcpu::finish_get_msrs(Err(SysError::new(5)));
    assert_eq!(response.errno, 5);
    assert!(matches!(response.body, ResponseBody::GetMsrs(data) if data.is_empty()));
}

#[test]
fn set_msrs_requests() {
    let mut vcpu = PluginVcpu::new();
    let entries = vec![MsrEntry { index: 0x10, data: 1 }, MsrEntry { index: 0x1b, data: 2 }];
    let set = VcpuRequest { set_msrs: Some(entries), ..request() };
    let msrs = match call(vcpu.handle_request(set, &SIZES)) {
        KvmCall::Apply(KvmSet::Msrs(msrs)) => msrs,
        other => panic!("unexpected call {:?}", other),
    };
    assert_eq!((msrs.nmsrs, msrs.pad), (2, 0));
    assert_eq!(
        msrs.entries,
        vec![
            KvmMsrEntry { index: 0x10, reserved: 0, data: 1 },
            KvmMsrEntry { index: 0x1b, reserved: 0, data: 2 },
        ]
    );
    let response = PluginVcpu::finish_set(&KvmSet::Msrs(msrs), Err(SysError::new(22)));
    assert_eq!(response.errno, 22);
    assert!(matches!(response.body, ResponseBody::SetMsrs));
    assert_eq!(set_msrs_list(&vec![]).nmsrs, 0);
}

#[test]
fn set_cpuid_requests() {
    let mut vcpu = PluginVcpu::new();
    let entry =
        CpuidEntry { function: 4, has_index: true, index: 3, eax: 1, ebx: 2, ecx: 5, edx: 6 };
    let entries = vec![entry, CpuidEntry { has_index: false, ..entry }];
    let list = set_cpuid_list(&entries);
    let set = VcpuRequest { set_cpuid: Some(entries), ..request() };
    let cpuid = match call(vcpu.handle_request(set, &SIZES)) {
        KvmCall::Apply(KvmSet::Cpuid2(cpuid)) => cpuid,
        other => panic!("unexpected call {:?}", other),
    };
    assert_eq!(cpuid, list);
    assert_eq!(cpuid.len(), 2);
    assert_eq!((cpuid[0].function, cpuid[0].index, cpuid[0].flags), (4, 3, 1));
    assert_eq!(cpuid[0].flags, KVM_CPUID_FLAG_SIGNIFCANT_INDEX);
    assert_eq!((cpuid[1].function, cpuid[1].index, cpuid[1].flags), (4, 0, 0));
    assert_eq!((cpuid[1].eax, cpuid[1].ebx, cpuid[1].ecx, cpuid[1].edx), (1, 2, 5, 6));
    let response = PluginVcpu::finish_set(&KvmSet::Cpuid2(cpuid), Ok(()));
    assert_eq!(response.errno, 0);
    assert!(matches!(response.body, ResponseBody::SetCpuid));
}

#[test]
fn reserved_accesses_wait() {
    let mut shared = SharedVcpuState::default();
    shared.reserve_range(IoSpace::Ioport, 0x10, 4).unwrap();
    shared.reserve_range(IoSpace::Mmio, 0x1000, 4).unwrap();
    let mut vcpu = PluginVcpu::new();
    assert!(!vcpu.io_write(&shared, 0x14, &[1]));
    assert!(!vcpu.io_write(&shared, 0x0f, &[1]));
    assert!(!vcpu.mmio_write(&shared, 0x10, &[1]));
    assert_refused(vcpu.handle_request(wait_request(), &SIZES), libc::EPROTO);
    assert!(vcpu.io_write(&shared, 0x13, &[1, 2]));
    assert_eq!(io_wait(&mut vcpu), (AddressSpace::Ioport, 0x13, true, vec![1, 2]));
    assert!(vcpu.mmio_write(&shared, 0x1000, &[3]));
    assert_eq!(io_wait(&mut vcpu), (AddressSpace::Mmio, 0x1000, true, vec![3]));
    let mut data = [7, 8];
    assert!(vcpu.io_read(&shared, 0x10, &mut data));
    assert_eq!(io_wait(&mut vcpu), (AddressSpace::Ioport, 0x10, false, vec![7, 8]));
    assert!(vcpu.mmio_read(&shared, 0x1003, &mut data));
    assert_eq!(io_wait(&mut vcpu), (AddressSpace::Mmio, 0x1003, false, vec![7, 8]));
    assert_eq!(data, [7, 8]);
    assert!(!vcpu.mmio_read(&shared, 0x1004, &mut data));
}

#[test]
fn reads_end_with_the_bytes_of_the_resume() {
    let mut data = [0; 3];
    assert!(PluginVcpu::finish_read(&mut data, Ok(vec![1, 2, 3, 4])).is_none());
    assert_eq!(data, [1, 2, 3]);
    // That the connection was shut down is not reported.
    assert!(PluginVcpu::finish_read(&mut data, Err(SysError::new(libc::EPIPE))).is_none());
    assert_eq!(data, [1, 2, 3]);
    let error = PluginVcpu::finish_read(&mut data, Err(SysError::new(5))).unwrap();
    assert_eq!(error.errno(), 5);
    let mut write = VcpuRunData::Write(&[9]);
    assert!(PluginVcpu::finish_process(&mut write, Ok(vec![])).is_none());
    assert_eq!(write.as_slice(), &[9]);
    assert!(write.is_write());
}

#[test]
fn pauses_are_taken_before_a_run() {
    let mut state = PerVcpuState::default();
    let mut vcpu = PluginVcpu::new();
    assert_eq!(vcpu.pre_run(Ok(state.take_pause_request())), Ok(false));
    state.request_pause(1);
    state.request_pause(2);
    assert_eq!(vcpu.pre_run(Ok(state.take_pause_request())), Ok(true));
    assert_eq!(state.take_pause_request(), None);
    let (response, _) = reply(vcpu.handle_request(wait_request(), &SIZES));
    assert!(matches!(response.body, ResponseBody::Wait(WaitReason::User { user: 2 })));
    assert_eq!(vcpu.pre_run(Err(LockPoisoned)), Err(SysError::new(libc::EDEADLK)));
    assert_refused(vcpu.handle_request(wait_request(), &SIZES), libc::EPROTO);
}
