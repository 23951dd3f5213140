//! End-to-end scenarios: loading a program, running its syscalls through
//! the dispatcher, faults, threads, and teardown.

use process_core::loader::{Arch, LoadError};
use process_core::mm::{load_user_app, MappingFlags, ProcessError};
use process_core::task::{handle_page_fault, spawn_user_task, Kernel, TaskState, TrapFrame,
    UspaceContext};
use process_core::syscall::{handle_syscall, PosixCall, SyscallOutcome, SYS_CLONE, SYS_EXIT,
    SYS_SET_TID_ADDRESS, SYS_WRITE};

/// Builds a minimal little-endian ELF64 image: a header, `segs` program
/// headers, and each segment's bytes appended behind the table.
/// Each segment is (vaddr, flags, file bytes, memsz).
fn make_elf(machine: u16, e_type: u16, entry: u64, segs: &[(u64, u32, Vec<u8>, u64)]) -> Vec<u8> {
    let phnum = segs.len();
    let phoff = 64u64;
    let data_base = 64 + 56 * phnum;
    let mut img = vec![0u8; data_base];
    img[0] = 0x7f;
    img[1] = b'E';
    img[2] = b'L';
    img[3] = b'F';
    img[4] = 2;
    img[5] = 1;
    img[6] = 1;
    img[16..18].copy_from_slice(&e_type.to_le_bytes());
    img[18..20].copy_from_slice(&machine.to_le_bytes());
    img[20..24].copy_from_slice(&1u32.to_le_bytes());
    img[24..32].copy_from_slice(&entry.to_le_bytes());
    img[32..40].copy_from_slice(&phoff.to_le_bytes());
    img[52..54].copy_from_slice(&64u16.to_le_bytes());
    img[54..56].copy_from_slice(&56u16.to_le_bytes());
    img[56..58].copy_from_slice(&(phnum as u16).to_le_bytes());
    let mut blobs: Vec<u8> = Vec::new();
    for (k, (vaddr, flags, data, memsz)) in segs.iter().enumerate() {
        let base = 64 + 56 * k;
        let p_offset = (data_base + blobs.len()) as u64;
        img[base..base + 4].copy_from_slice(&1u32.to_le_bytes());
        img[base + 4..base + 8].copy_from_slice(&flags.to_le_bytes());
        img[base + 8..base + 16].copy_from_slice(&p_offset.to_le_bytes());
        img[base + 16..base + 24].copy_from_slice(&vaddr.to_le_bytes());
        img[base + 32..base + 40].copy_from_slice(&(data.len() as u64).to_le_bytes());
        img[base + 40..base + 48].copy_from_slice(&memsz.to_le_bytes());
        img[base + 48..base + 56].copy_from_slice(&0x1000u64.to_le_bytes());
        blobs.extend_from_slice(data);
    }
    img.extend_from_slice(&blobs);
    img
}

/// One RX code segment at 0x1000 with the bytes "ok" at 0x1010.
fn demo_image() -> Vec<u8> {
    let mut code = vec![0x90u8; 16];
    code.extend_from_slice(b"ok");
    make_elf(62, 2, 0x1000, &[(0x1000, 5, code, 0x1000)])
}

/// Loads the demo image and spawns its task; returns the kernel, the
/// task index, and the initial stack pointer.
fn boot(name: &str) -> (Kernel, usize, usize) {
    let img = demo_image();
    let (entry, usp, space) = load_user_app(&name.to_string(), &img, Arch::X86_64).unwrap();
    assert_eq!(entry, 0x1000);
    let mut kernel = Kernel::new();
    let a = kernel.attach_aspace(space);
    let id = spawn_user_task(&mut kernel, a, UspaceContext::new(entry, usp, 2333));
    (kernel, id as usize, usp)
}

fn frame(arg0: usize, arg1: usize, arg2: usize) -> TrapFrame {
    TrapFrame { ip: 0x1000, sp: 0x4000_0000, arg0, arg1, arg2, arg3: 0, arg4: 0, arg5: 0 }
}

#[test]
fn load_spawn_exit_joins_with_the_exit_value() {
    let (mut kernel, task, _usp) = boot("demo");
    assert_eq!(kernel.join(task), None);
    let r = handle_syscall(&mut kernel, task, &frame(7, 0, 0), SYS_EXIT);
    assert_eq!(r, SyscallOutcome::Terminated(7));
    assert_eq!(kernel.join(task), Some(7));
}

#[test]
fn loading_rejects_mismatched_architecture_before_any_spawn() {
    let img = make_elf(243, 2, 0x1000, &[(0x1000, 5, vec![0x90], 1)]);
    let r = load_user_app(&"demo".to_string(), &img, Arch::X86_64);
    assert_eq!(r.err(), Some(ProcessError::Image(LoadError::ArchMismatch)));
}

#[test]
fn loading_twice_builds_identical_address_spaces() {
    let img = demo_image();
    let (e1, u1, s1) = load_user_app(&"demo".to_string(), &img, Arch::X86_64).unwrap();
    let (e2, u2, s2) = load_user_app(&"demo".to_string(), &img, Arch::X86_64).unwrap();
    assert_eq!(e1, e2);
    assert_eq!(u1, u2);
    assert_eq!(s1.regions.len(), s2.regions.len());
    for (r1, r2) in s1.regions.iter().zip(s2.regions.iter()) {
        assert_eq!(r1.start, r2.start);
        assert_eq!(r1.size, r2.size);
        assert_eq!(r1.flags, r2.flags);
        assert_eq!(r1.data, r2.data);
    }
}

#[test]
fn loaded_stack_holds_the_argument_count() {
    let (kernel, task, usp) = boot("demo");
    let a = kernel.tasks[task].ext.aspace;
    // the blob starts 16-byte aligned with argc, one argument
    assert_eq!(usp % 16, 0);
    let argc = kernel.aspaces[a].read_bytes(usp, 8).unwrap();
    assert_eq!(argc, 1u64.to_le_bytes().to_vec());
}

#[test]
fn segment_bytes_land_at_their_virtual_addresses() {
    let (kernel, task, _usp) = boot("demo");
    let a = kernel.tasks[task].ext.aspace;
    assert_eq!(kernel.aspaces[a].read_bytes(0x1010, 2).unwrap(), b"ok".to_vec());
    // the tail of the page is zero-filled
    assert_eq!(kernel.aspaces[a].read_bytes(0x1012, 4).unwrap(), vec![0, 0, 0, 0]);
}

#[test]
fn fault_on_unmapped_address_kills_only_the_faulting_task() {
    // two tasks in two separate address spaces
    let (mut kernel, t1, usp) = boot("demo");
    let img = demo_image();
    let (entry, usp2, space2) = load_user_app(&"demo".to_string(), &img, Arch::X86_64).unwrap();
    let a2 = kernel.attach_aspace(space2);
    let t2 = spawn_user_task(&mut kernel, a2, UspaceContext::new(entry, usp2, 2333)) as usize;
    let _ = usp;
    // task 1 faults on an address nothing maps
    let access = MappingFlags { read: true, write: false, execute: false, user: true };
    assert!(handle_page_fault(&mut kernel, t1, 0x3000_0000, access, true));
    assert_eq!(kernel.join(t1), Some(-1));
    // its sibling still runs to completion
    assert_eq!(kernel.join(t2), None);
    let r = handle_syscall(&mut kernel, t2, &frame(0, 0, 0), SYS_EXIT);
    assert_eq!(r, SyscallOutcome::Terminated(0));
    assert_eq!(kernel.join(t2), Some(0));
}

#[test]
fn kernel_mode_fault_is_declined() {
    let (mut kernel, task, _usp) = boot("demo");
    let access = MappingFlags { read: true, write: false, execute: false, user: true };
    assert!(!handle_page_fault(&mut kernel, task, 0x3000_0000, access, false));
    assert_eq!(kernel.join(task), None);
}

#[test]
fn cleared_child_tid_reads_zero_after_exit() {
    let (mut kernel, parent, usp) = boot("demo");
    let a = kernel.tasks[parent].ext.aspace;
    // clone a child sharing the space, on a fresh stack address
    let tf_clone = TrapFrame {
        ip: 0x1004,
        sp: usp,
        arg0: 0,
        arg1: usp - 64,
        arg2: 0,
        arg3: 0,
        arg4: 0,
        arg5: 0,
    };
    let r = handle_syscall(&mut kernel, parent, &tf_clone, SYS_CLONE);
    let child = match r {
        SyscallOutcome::Ret(id) => id as usize,
        _ => panic!("clone must complete"),
    };
    // the notification word lives in the writable stack region
    let p = usp - 8;
    kernel.aspaces[a].write(p, &vec![0xff, 0xff, 0xff, 0xff]).unwrap();
    let r = handle_syscall(&mut kernel, child, &frame(p, 0, 0), SYS_SET_TID_ADDRESS);
    assert_eq!(r, SyscallOutcome::Ret(child as isize));
    let r = handle_syscall(&mut kernel, child, &frame(0, 0, 0), SYS_EXIT);
    assert_eq!(r, SyscallOutcome::Terminated(0));
    // the parent still owns the space; the word reads zero
    assert_eq!(kernel.aspaces[a].read_bytes(p, 4).unwrap(), vec![0, 0, 0, 0]);
}

#[test]
fn last_exit_tears_the_address_space_down() {
    let (mut kernel, task, _usp) = boot("demo");
    let a = kernel.tasks[task].ext.aspace;
    assert!(kernel.aspaces[a].regions.len() > 0);
    handle_syscall(&mut kernel, task, &frame(0, 0, 0), SYS_EXIT);
    assert_eq!(kernel.aspaces[a].regions.len(), 0);
}

#[test]
fn write_then_exit_shows_its_bytes_on_the_output_channel() {
    let (mut kernel, task, _usp) = boot("demo");
    let a = kernel.tasks[task].ext.aspace;
    // the program: write(1, "ok", 2); exit(0)
    let r = handle_syscall(&mut kernel, task, &frame(1, 0x1010, 2), SYS_WRITE);
    let mut output: Vec<u8> = Vec::new();
    match r {
        SyscallOutcome::Delegated(PosixCall::Write { fd, buf, count }) => {
            // the POSIX shim's side: read the bytes and print them
            assert_eq!(fd, 1);
            output.extend_from_slice(&kernel.aspaces[a].read_bytes(buf, count).unwrap());
        },
        _ => panic!("write must be delegated"),
    }
    assert_eq!(output, b"ok".to_vec());
    let r = handle_syscall(&mut kernel, task, &frame(0, 0, 0), SYS_EXIT);
    assert_eq!(r, SyscallOutcome::Terminated(0));
    assert_eq!(kernel.join(task), Some(0));
}

#[test]
fn clone_then_both_exit_statuses_are_kept_apart() {
    let (mut kernel, parent, usp) = boot("demo");
    let tf_clone = TrapFrame {
        ip: 0x1004,
        sp: usp,
        arg0: 0,
        arg1: usp - 64,
        arg2: 0,
        arg3: 0,
        arg4: 0,
        arg5: 0,
    };
    let r = handle_syscall(&mut kernel, parent, &tf_clone, SYS_CLONE);
    assert_eq!(r, SyscallOutcome::Ret(1));
    handle_syscall(&mut kernel, 1, &frame(5, 0, 0), SYS_EXIT);
    handle_syscall(&mut kernel, parent, &frame(9, 0, 0), SYS_EXIT);
    assert_eq!(kernel.join(1), Some(5));
    assert_eq!(kernel.join(parent), Some(9));
}
