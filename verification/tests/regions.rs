use crosvm::errno::{SysError, EINVAL, ENOENT, EPERM};
use crosvm::regions::{IoSpace, Range, SharedVcpuState};

#[test]
fn shared_vcpu_reserve() {
    let mut shared_vcpu_state = SharedVcpuState::default();
    shared_vcpu_state
        .reserve_range(IoSpace::Ioport, 0x10, 0)
        .unwrap_err();
    shared_vcpu_state
        .reserve_range(IoSpace::Ioport, 0x10, 0x10)
        .unwrap();
    shared_vcpu_state
        .reserve_range(IoSpace::Ioport, 0x0f, 0x10)
        .unwrap_err();
    shared_vcpu_state
        .reserve_range(IoSpace::Ioport, 0x10, 0x10)
        .unwrap_err();
    shared_vcpu_state
        .reserve_range(IoSpace::Ioport, 0x10, 0x15)
        .unwrap_err();
    shared_vcpu_state
        .reserve_range(IoSpace::Ioport, 0x12, 0x15)
        .unwrap_err();
    shared_vcpu_state
        .reserve_range(IoSpace::Ioport, 0x12, 0x01)
        .unwrap_err();
    shared_vcpu_state
        .reserve_range(IoSpace::Ioport, 0x0, 0x20)
        .unwrap_err();
    shared_vcpu_state
        .reserve_range(IoSpace::Ioport, 0x20, 0x05)
        .unwrap();
    shared_vcpu_state
        .reserve_range(IoSpace::Ioport, 0x25, 0x05)
        .unwrap();
    shared_vcpu_state
        .reserve_range(IoSpace::Ioport, 0x0, 0x10)
        .unwrap();
}

fn code(result: Result<(), SysError>) -> i32 {
    result.unwrap_err().errno()
}

#[test]
fn reserve_errors() {
    let mut state = SharedVcpuState::default();
    assert_eq!(code(state.reserve_range(IoSpace::Mmio, 0x10, 0)), libc::EINVAL);
    state.reserve_range(IoSpace::Mmio, 0x10, 0x10).unwrap();
    assert_eq!(code(state.reserve_range(IoSpace::Mmio, 0x1f, 1)), libc::EPERM);
    assert_eq!(code(state.reserve_range(IoSpace::Mmio, 0x1f, 0)), EINVAL);
    // The start counts before the end does.
    assert_eq!(code(state.reserve_range(IoSpace::Mmio, 0x10, u64::MAX)), EPERM);
    assert_eq!(code(state.reserve_range(IoSpace::Mmio, 0x20, u64::MAX)), EINVAL);
    assert_eq!(code(state.unreserve_range(IoSpace::Mmio, 0x11)), libc::ENOENT);
    assert_eq!(code(state.unreserve_range(IoSpace::Ioport, 0x10)), ENOENT);
}

#[test]
fn reserve_rejects_overlap_at_last_address() {
    let mut state = SharedVcpuState::default();
    state.reserve_range(IoSpace::Ioport, 0x10, 0x10).unwrap();
    assert_eq!(code(state.reserve_range(IoSpace::Ioport, 0x0f, 2)), EPERM);
    assert_eq!(code(state.reserve_range(IoSpace::Ioport, 0, 0x11)), EPERM);
    state.reserve_range(IoSpace::Ioport, 0, 0x10).unwrap();
    assert!(state.is_reserved(IoSpace::Ioport, 0x0f));
}

#[test]
fn reserve_at_the_end_of_the_address_space() {
    let mut state = SharedVcpuState::default();
    assert_eq!(code(state.reserve_range(IoSpace::Mmio, u64::MAX, 1)), EINVAL);
    assert_eq!(code(state.reserve_range(IoSpace::Mmio, u64::MAX - 1, 2)), EINVAL);
    state.reserve_range(IoSpace::Mmio, u64::MAX - 1, 1).unwrap();
    assert!(state.is_reserved(IoSpace::Mmio, u64::MAX - 1));
    assert!(!state.is_reserved(IoSpace::Mmio, u64::MAX));
    assert!(state.first_before(IoSpace::Mmio, u64::MAX).is_none());
}

#[test]
fn spaces_are_independent() {
    let mut state = SharedVcpuState::default();
    state.reserve_range(IoSpace::Ioport, 0x10, 0x10).unwrap();
    state.reserve_range(IoSpace::Mmio, 0x18, 0x10).unwrap();
    assert!(state.is_reserved(IoSpace::Ioport, 0x10));
    assert!(!state.is_reserved(IoSpace::Mmio, 0x10));
    state.unreserve_range(IoSpace::Ioport, 0x10).unwrap();
    assert!(!state.is_reserved(IoSpace::Ioport, 0x18));
    assert!(state.is_reserved(IoSpace::Mmio, 0x18));
}

#[test]
fn reserve_covers_its_own_addresses_only() {
    let mut state = SharedVcpuState::default();
    state.reserve_range(IoSpace::Ioport, 100, 10).unwrap();
    state.reserve_range(IoSpace::Ioport, 50, 10).unwrap();
    state.reserve_range(IoSpace::Ioport, 70, 1).unwrap();
    let reserved: Vec<u64> = (0..200).filter(|a| state.is_reserved(IoSpace::Ioport, *a)).collect();
    let expected: Vec<u64> = (50..60).chain(70..71).chain(100..110).collect();
    assert_eq!(reserved, expected);
}

#[test]
fn unreserve_undoes_reserve() {
    let mut state = SharedVcpuState::default();
    state.reserve_range(IoSpace::Ioport, 0x10, 0x10).unwrap();
    state.reserve_range(IoSpace::Ioport, 0x20, 0x10).unwrap();
    state.unreserve_range(IoSpace::Ioport, 0x20).unwrap();
    assert!(!state.is_reserved(IoSpace::Ioport, 0x20));
    assert!(state.is_reserved(IoSpace::Ioport, 0x1f));
    assert_eq!(code(state.unreserve_range(IoSpace::Ioport, 0x20)), ENOENT);
    state.reserve_range(IoSpace::Ioport, 0x20, 0x10).unwrap();
    assert!(state.is_reserved(IoSpace::Ioport, 0x2f));
    assert_eq!(code(state.reserve_range(IoSpace::Ioport, 0x2f, 0x10)), EPERM);
}

#[test]
fn first_before_finds_the_nearest_start() {
    let mut state = SharedVcpuState::default();
    assert!(state.first_before(IoSpace::Mmio, 5).is_none());
    state.reserve_range(IoSpace::Mmio, 10, 5).unwrap();
    state.reserve_range(IoSpace::Mmio, 30, 7).unwrap();
    assert!(state.first_before(IoSpace::Mmio, 9).is_none());
    let found = state.first_before(IoSpace::Mmio, 29).unwrap();
    assert_eq!((found.0, found.1), (10, 5));
    let found = state.first_before(IoSpace::Mmio, 30).unwrap();
    assert_eq!((found.0, found.1), (30, 7));
}

#[test]
fn ranges_are_ordered_by_start() {
    assert!(Range(1, 2) == Range(1, 3));
    assert!(Range(1, 2) != Range(2, 2));
    assert!(Range(1, 9) < Range(2, 0));
    assert!(Range(1, 9) <= Range(1, 0));
}
