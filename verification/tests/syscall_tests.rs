//! Tests of the syscall surface: decoding, handlers, and the dispatcher.

use process_core::mm::AddressSpace;
use process_core::syscall::{handle_syscall, sys_mmap, ArchPrctlCode, MmapFlags, MmapProt,
    PosixCall, SyscallOutcome, ARCH_GET_FS, ARCH_SET_FS, SYS_CLONE, SYS_EXIT, SYS_EXITGROUP,
    SYS_GETPID, SYS_IOCTL, SYS_MMAP, SYS_READ, SYS_SCHED_YIELD, SYS_SET_TID_ADDRESS, SYS_WRITE,
    SYS_WRITEV};
use process_core::task::{spawn_user_task, Kernel, TaskState, TrapFrame, UspaceContext};

fn kernel_with_task() -> Kernel {
    let mut kernel = Kernel::new();
    let space = AddressSpace::new(0x1000, 0x3fff_f000).unwrap();
    let a = kernel.attach_aspace(space);
    spawn_user_task(&mut kernel, a, UspaceContext::new(0x1000, 0x4000_0000, 0));
    kernel
}

fn frame(arg0: usize, arg1: usize, arg2: usize, arg3: usize) -> TrapFrame {
    TrapFrame { ip: 0x1000, sp: 0x4000_0000, arg0, arg1, arg2, arg3, arg4: 0, arg5: 0 }
}

#[test]
fn syscall_numbers_match_the_linux_tables() {
    assert_eq!(syscalls::Sysno::read as usize, SYS_READ);
    assert_eq!(syscalls::Sysno::write as usize, SYS_WRITE);
    assert_eq!(syscalls::Sysno::mmap as usize, SYS_MMAP);
    assert_eq!(syscalls::Sysno::ioctl as usize, SYS_IOCTL);
    assert_eq!(syscalls::Sysno::writev as usize, SYS_WRITEV);
    assert_eq!(syscalls::Sysno::sched_yield as usize, SYS_SCHED_YIELD);
    assert_eq!(syscalls::Sysno::getpid as usize, SYS_GETPID);
    assert_eq!(syscalls::Sysno::clone as usize, SYS_CLONE);
    assert_eq!(syscalls::Sysno::exit as usize, SYS_EXIT);
    assert_eq!(syscalls::Sysno::set_tid_address as usize, SYS_SET_TID_ADDRESS);
    assert_eq!(syscalls::Sysno::exit_group as usize, SYS_EXITGROUP);
}

#[test]
fn error_numbers_match_the_standard_codes() {
    assert_eq!(process_core::syscall::ENOMEM as i32, axerrno::LinuxError::ENOMEM.code());
    assert_eq!(process_core::syscall::EINVAL as i32, axerrno::LinuxError::EINVAL.code());
    assert_eq!(process_core::syscall::ENOSYS as i32, axerrno::LinuxError::ENOSYS.code());
    assert_eq!(process_core::syscall::EEXIST as i32, axerrno::LinuxError::EEXIST.code());
    assert_eq!(process_core::syscall::EFAULT as i32, axerrno::LinuxError::EFAULT.code());
}

#[test]
fn prot_and_flags_decode_their_bits() {
    let prot = MmapProt::from_bits_truncate(0x5);
    assert!(prot.read && !prot.write && prot.execute);
    let flags = MmapFlags::from_bits_truncate(0x32);
    assert!(!flags.shared && flags.private && flags.fixed && flags.anonymous);
    assert_eq!(ArchPrctlCode::try_from(0x1002), Some(ArchPrctlCode::ArchSetFs));
    assert_eq!(ArchPrctlCode::try_from(0x9999), None);
}

#[test]
fn mmap_finds_disjoint_areas() {
    let mut kernel = kernel_with_task();
    // MAP_PRIVATE | MAP_ANONYMOUS, read-write
    let a1 = sys_mmap(&mut kernel, 0, 0, 0x2000, 3, 0x22, -1, 0);
    let a2 = sys_mmap(&mut kernel, 0, 0, 0x2000, 3, 0x22, -1, 0);
    assert_eq!(a1, 0x1000);
    assert_eq!(a2, 0x3000);
    // the two ranges never overlap
    assert!(a1 + 0x2000 <= a2 || a2 + 0x2000 <= a1);
}

#[test]
fn mmap_rounds_length_to_pages() {
    let mut kernel = kernel_with_task();
    let a1 = sys_mmap(&mut kernel, 0, 0, 0x1001, 3, 0x22, -1, 0);
    let a2 = sys_mmap(&mut kernel, 0, 0, 0x1000, 3, 0x22, -1, 0);
    assert_eq!(a1, 0x1000);
    assert_eq!(a2, 0x3000);
}

#[test]
fn mmap_fixed_rejects_an_occupied_address() {
    let mut kernel = kernel_with_task();
    let a1 = sys_mmap(&mut kernel, 0, 0x2000, 0x1000, 3, 0x32, -1, 0);
    assert_eq!(a1, 0x2000);
    // fixed placement at a mapped address is rejected
    let a2 = sys_mmap(&mut kernel, 0, 0x2000, 0x1000, 3, 0x32, -1, 0);
    assert_eq!(a2, -17);
}

#[test]
fn mmap_rejects_bad_arguments() {
    let mut kernel = kernel_with_task();
    assert_eq!(sys_mmap(&mut kernel, 0, 0, 0, 3, 0x22, -1, 0), -22);
    assert_eq!(sys_mmap(&mut kernel, 0, 0x2001, 0x1000, 3, 0x32, -1, 0), -22);
    assert_eq!(sys_mmap(&mut kernel, 0, 0x8000_0000, 0x1000, 3, 0x32, -1, 0), -12);
    assert_eq!(sys_mmap(&mut kernel, 0, 0, usize::MAX, 3, 0x22, -1, 0), -12);
}

#[test]
fn dispatcher_delegates_io_to_the_posix_shim() {
    let mut kernel = kernel_with_task();
    let tf = frame(1, 0x5000, 16, 0);
    let r = handle_syscall(&mut kernel, 0, &tf, SYS_WRITE);
    assert_eq!(r, SyscallOutcome::Delegated(PosixCall::Write { fd: 1, buf: 0x5000, count: 16 }));
    let r = handle_syscall(&mut kernel, 0, &tf, SYS_READ);
    assert_eq!(r, SyscallOutcome::Delegated(PosixCall::Read { fd: 1, buf: 0x5000, count: 16 }));
    let r = handle_syscall(&mut kernel, 0, &tf, SYS_SCHED_YIELD);
    assert_eq!(r, SyscallOutcome::Delegated(PosixCall::SchedYield));
    let r = handle_syscall(&mut kernel, 0, &tf, SYS_WRITEV);
    assert_eq!(r, SyscallOutcome::Delegated(PosixCall::Writev { fd: 1, iov: 0x5000, iocnt: 16 }));
}

#[test]
fn dispatcher_answers_getpid_and_ioctl() {
    let mut kernel = kernel_with_task();
    let tf = frame(0, 0, 0, 0);
    assert_eq!(handle_syscall(&mut kernel, 0, &tf, SYS_GETPID), SyscallOutcome::Ret(233));
    assert_eq!(handle_syscall(&mut kernel, 0, &tf, SYS_IOCTL), SyscallOutcome::Ret(0));
}

#[test]
fn unknown_syscall_terminates_the_task() {
    let mut kernel = kernel_with_task();
    let tf = frame(0, 0, 0, 0);
    let r = handle_syscall(&mut kernel, 0, &tf, 9999);
    assert_eq!(r, SyscallOutcome::Terminated(38));
    assert_eq!(kernel.join(0), Some(38));
}

#[test]
fn exit_records_the_status() {
    let mut kernel = kernel_with_task();
    let tf = frame(7, 0, 0, 0);
    let r = handle_syscall(&mut kernel, 0, &tf, SYS_EXIT);
    assert_eq!(r, SyscallOutcome::Terminated(7));
    assert_eq!(kernel.join(0), Some(7));
}

#[test]
fn exit_group_records_the_status() {
    let mut kernel = kernel_with_task();
    let tf = frame(3, 0, 0, 0);
    let r = handle_syscall(&mut kernel, 0, &tf, SYS_EXITGROUP);
    assert_eq!(r, SyscallOutcome::Terminated(3));
    assert_eq!(kernel.join(0), Some(3));
}

#[test]
fn set_tid_address_stores_and_returns_the_id() {
    let mut kernel = kernel_with_task();
    let tf = frame(0x3fff_0000, 0, 0, 0);
    let r = handle_syscall(&mut kernel, 0, &tf, SYS_SET_TID_ADDRESS);
    assert_eq!(r, SyscallOutcome::Ret(0));
    assert_eq!(kernel.tasks[0].ext.clear_child_tid(), 0x3fff_0000);
}

#[test]
fn clone_returns_child_id_and_child_sees_zero() {
    let mut kernel = kernel_with_task();
    let tf = TrapFrame {
        ip: 0x1040,
        sp: 0x4000_0000,
        arg0: 0,
        arg1: 0x3000_0000, // the new stack pointer
        arg2: 0,
        arg3: 0,
        arg4: 0,
        arg5: 0,
    };
    let r = handle_syscall(&mut kernel, 0, &tf, SYS_CLONE);
    // the parent observes the child's id
    assert_eq!(r, SyscallOutcome::Ret(1));
    // the child shares the parent's address space by reference
    assert_eq!(kernel.tasks[1].ext.aspace, kernel.tasks[0].ext.aspace);
    // the child's context: the trapped frame with the new stack and a
    // zero return value
    assert_eq!(kernel.tasks[1].ext.uctx.ip, 0x1040);
    assert_eq!(kernel.tasks[1].ext.uctx.sp, 0x3000_0000);
    assert_eq!(kernel.tasks[1].ext.uctx.retval, 0);
    assert_eq!(kernel.tasks[1].state, TaskState::Runnable);
}

#[test]
fn arch_prctl_sets_and_gets_the_thread_pointer() {
    let mut kernel = kernel_with_task();
    // map a writable page for the read-back
    let dst = sys_mmap(&mut kernel, 0, 0, 0x1000, 3, 0x22, -1, 0) as usize;
    let tf_set = frame(ARCH_SET_FS as usize, 0x5555_1234, 0, 0);
    assert_eq!(handle_syscall(&mut kernel, 0, &tf_set, 158), SyscallOutcome::Ret(0));
    assert_eq!(kernel.tasks[0].ext.uctx.tls, 0x5555_1234);
    let tf_get = frame(ARCH_GET_FS as usize, dst, 0, 0);
    assert_eq!(handle_syscall(&mut kernel, 0, &tf_get, 158), SyscallOutcome::Ret(0));
    let word = kernel.aspaces[0].read_bytes(dst, 8).unwrap();
    assert_eq!(word, 0x5555_1234u64.to_le_bytes().to_vec());
}

#[test]
fn arch_prctl_rejects_bad_requests() {
    let mut kernel = kernel_with_task();
    // unrecognized sub-code
    let tf = frame(0x9999, 0, 0, 0);
    assert_eq!(handle_syscall(&mut kernel, 0, &tf, 158), SyscallOutcome::Ret(-22));
    // get into unmapped memory
    let tf = frame(ARCH_GET_FS as usize, 0x9000, 0, 0);
    assert_eq!(handle_syscall(&mut kernel, 0, &tf, 158), SyscallOutcome::Ret(-14));
}
