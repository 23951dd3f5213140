//! System-call surface: numbers, flag decoding, the handlers of the
//! implemented subset, and the dispatcher.

use vstd::prelude::*;

use crate::mm::{spec_align_up, align_up_4k, AddressSpace, MapError, MappingFlags};
use crate::task::{exit_task, kill_task, spawn_user_task, spec_exit_post, spec_kill_post,
    spec_spawned_task, Kernel, Task, TaskExt, TrapFrame, UspaceContext, INIT_PROC_ID};

verus! {

/// System-call number of `read`.
pub const SYS_READ: usize = 0;

/// System-call number of `write`.
pub const SYS_WRITE: usize = 1;

/// System-call number of `mmap`.
pub const SYS_MMAP: usize = 9;

/// System-call number of `ioctl`.
pub const SYS_IOCTL: usize = 16;

/// System-call number of `writev`.
pub const SYS_WRITEV: usize = 20;

/// System-call number of `sched_yield`.
pub const SYS_SCHED_YIELD: usize = 24;

/// System-call number of `nanosleep`.
pub const SYS_NANOSLEEP: usize = 35;

/// System-call number of `getpid`.
pub const SYS_GETPID: usize = 39;

/// System-call number of `clone`.
pub const SYS_CLONE: usize = 56;

/// System-call number of `fork`.
pub const SYS_FORK: usize = 57;

/// System-call number of `execve`.
pub const SYS_EXECVE: usize = 59;

/// System-call number of `exit`.
pub const SYS_EXIT: usize = 60;

/// System-call number of `arch_prctl`.
pub const SYS_ARCH_PRCTL: usize = 158;

/// System-call number of `set_tid_address`.
pub const SYS_SET_TID_ADDRESS: usize = 218;

/// System-call number of `clock_gettime`.
pub const SYS_CLOCK_GETTIME: usize = 228;

/// System-call number of `clock_nanosleep`.
pub const SYS_CLOCK_NANOSLEEP: usize = 230;

/// System-call number of `exit_group`.
pub const SYS_EXITGROUP: usize = 231;

/// Standard error number: out of memory.
pub const ENOMEM: isize = 12;

/// Standard error number: bad address.
pub const EFAULT: isize = 14;

/// Standard error number: already exists.
pub const EEXIST: isize = 17;

/// Standard error number: invalid argument.
pub const EINVAL: isize = 22;

/// Standard error number: function not implemented.
pub const ENOSYS: isize = 38;

/// `arch_prctl` sub-code: set the FS segment base.
pub const ARCH_SET_FS: i32 = 0x1002;

/// `arch_prctl` sub-code: get the FS segment base.
pub const ARCH_GET_FS: i32 = 0x1003;

/// `arch_prctl` sub-code: set the GS segment base.
pub const ARCH_SET_GS: i32 = 0x1001;

/// `arch_prctl` sub-code: get the GS segment base.
pub const ARCH_GET_GS: i32 = 0x1004;

/// ARCH_PRCTL codes
#[derive(Clone, Copy, PartialEq, Eq, Structural, Debug)]
pub enum ArchPrctlCode {
    /// Set the FS segment base
    ArchSetFs,
    /// Get the FS segment base
    ArchGetFs,
    /// Set the GS segment base
    ArchSetGs,
    /// Get the GS segment base
    ArchGetGs,
}

impl ArchPrctlCode {
    /// The code a sub-code number names, if any.
    pub open spec fn spec_from_code(code: i32) -> Option<ArchPrctlCode> {
        if code == 0x1002 {
            Some(ArchPrctlCode::ArchSetFs)
        } else if code == 0x1003 {
            Some(ArchPrctlCode::ArchGetFs)
        } else if code == 0x1001 {
            Some(ArchPrctlCode::ArchSetGs)
        } else if code == 0x1004 {
            Some(ArchPrctlCode::ArchGetGs)
        } else {
            None
        }
    }

    /// Decodes a sub-code number.
    pub fn try_from(code: i32) -> (r: Option<ArchPrctlCode>)
        ensures
            r == Self::spec_from_code(code),
    {
        if code == ARCH_SET_FS {
            Some(ArchPrctlCode::ArchSetFs)
        } else if code == ARCH_GET_FS {
            Some(ArchPrctlCode::ArchGetFs)
        } else if code == ARCH_SET_GS {
            Some(ArchPrctlCode::ArchSetGs)
        } else if code == ARCH_GET_GS {
            Some(ArchPrctlCode::ArchGetGs)
        } else {
            None
        }
    }
}

/// True when bit `b` (a power of two) is set in `v`.
pub open spec fn spec_flag_bit(v: i32, b: u32) -> bool {
    ((v as u32) / b) % 2 == 1
}

/// Permissions for `sys_mmap`, decoded from the standard `PROT_*` bits.
#[derive(Clone, Copy, PartialEq, Eq, Structural, Debug)]
pub struct MmapProt {
    /// Page can be read.
    pub read: bool,
    /// Page can be written.
    pub write: bool,
    /// Page can be executed.
    pub execute: bool,
}

impl MmapProt {
    /// The protection bits of a raw `prot` word; unknown bits are
    /// dropped, as a truncating bit decode does.
    pub open spec fn spec_from_bits(prot: i32) -> MmapProt {
        MmapProt {
            read: spec_flag_bit(prot, 1),
            write: spec_flag_bit(prot, 2),
            execute: spec_flag_bit(prot, 4),
        }
    }

    /// Decodes a raw `prot` word.
    pub fn from_bits_truncate(prot: i32) -> (r: MmapProt)
        ensures
            r == Self::spec_from_bits(prot),
    {
        let v = prot as u32;
        MmapProt { read: v % 2 == 1, write: (v / 2) % 2 == 1, execute: (v / 4) % 2 == 1 }
    }

    /// The page-table mapping flags these permissions ask for; a user
    /// mapping always carries the user-accessible bit.
    pub open spec fn spec_mapping_flags(self) -> MappingFlags {
        MappingFlags { read: self.read, write: self.write, execute: self.execute, user: true }
    }

    /// The page-table mapping flags these permissions ask for.
    pub fn mapping_flags(&self) -> (r: MappingFlags)
        ensures
            r == self.spec_mapping_flags(),
    {
        MappingFlags { read: self.read, write: self.write, execute: self.execute, user: true }
    }
}

/// Placement and kind flags for `sys_mmap`, decoded from the standard
/// `MAP_*` bits.
#[derive(Clone, Copy, PartialEq, Eq, Structural, Debug)]
pub struct MmapFlags {
    /// Share changes.
    pub shared: bool,
    /// Changes private; copy pages on write.
    pub private: bool,
    /// Map address must be exactly as requested.
    pub fixed: bool,
    /// Don't use a file.
    pub anonymous: bool,
    /// Don't check for reservations.
    pub noreserve: bool,
    /// Allocation is for a stack.
    pub stack: bool,
}

impl MmapFlags {
    /// The placement bits of a raw `flags` word; unknown bits are
    /// dropped.
    pub open spec fn spec_from_bits(flags: i32) -> MmapFlags {
        MmapFlags {
            shared: spec_flag_bit(flags, 1),
            private: spec_flag_bit(flags, 2),
            fixed: spec_flag_bit(flags, 0x10),
            anonymous: spec_flag_bit(flags, 0x20),
            noreserve: spec_flag_bit(flags, 0x4000),
            stack: spec_flag_bit(flags, 0x20000),
        }
    }

    /// Decodes a raw `flags` word.
    pub fn from_bits_truncate(flags: i32) -> (r: MmapFlags)
        ensures
            r == Self::spec_from_bits(flags),
    {
        let v = flags as u32;
        MmapFlags {
            shared: v % 2 == 1,
            private: (v / 2) % 2 == 1,
            fixed: (v / 0x10) % 2 == 1,
            anonymous: (v / 0x20) % 2 == 1,
            noreserve: (v / 0x4000) % 2 == 1,
            stack: (v / 0x20000) % 2 == 1,
        }
    }
}

/// The verdict of an `mmap` request against one address space: the
/// mapped base address, or the error number.
///
/// An empty length is invalid; a length that cannot be page-rounded does
/// not fit.  With fixed placement the rounded range is mapped exactly at
/// `addr` and a range touching an existing mapping is rejected; without
/// it, the space is searched at or after the hint and then from its
/// base, and exhaustion does not fit.
pub open spec fn spec_mmap_verdict(
    s0: AddressSpace,
    addr: usize,
    length: usize,
    prot: i32,
    flags: i32,
) -> Result<int, int> {
    if length == 0 {
        Err(22)
    } else if length > usize::MAX - 4095 {
        Err(12)
    } else {
        let alen = spec_align_up(length as int);
        if MmapFlags::spec_from_bits(flags).fixed {
            match s0.spec_map_error(addr as int, alen) {
                Some(MapError::InvalidRange) => Err(22),
                Some(MapError::OutOfAddressSpace) => Err(12),
                Some(MapError::MapConflict) => Err(17),
                Some(MapError::BadAddress) => Err(22),
                None => Ok(addr as int),
            }
        } else {
            match AddressSpace::spec_probe(
                s0.regions@,
                s0.spec_probe_start(addr as int),
                alen,
                s0.end as int,
            ) {
                Some(va) => Ok(va),
                None => match AddressSpace::spec_probe(
                    s0.regions@,
                    s0.spec_probe_start(s0.base as int),
                    alen,
                    s0.end as int,
                ) {
                    Some(va) => Ok(va),
                    None => Err(12),
                },
            }
        }
    }
}

/// How a successful `mmap` changes the space: one fresh region of the
/// rounded length at the returned address, on-demand backed, with the
/// requested permissions.
pub open spec fn spec_mmap_post(
    s0: AddressSpace,
    s1: AddressSpace,
    va: int,
    length: usize,
    prot: i32,
) -> bool {
    &&& s1.base == s0.base
    &&& s1.end == s0.end
    &&& s1.regions@.len() == s0.regions@.len() + 1
    &&& s1.regions@.subrange(0, s0.regions@.len() as int) == s0.regions@
    &&& AddressSpace::spec_fresh_region(
        s1.regions@.last(),
        va,
        spec_align_up(length as int),
        MmapProt::spec_from_bits(prot).spec_mapping_flags(),
        false,
    )
}

/// Maps anonymous memory into one address space, as `sys_mmap` asks:
/// `addr` is the exact placement with the fixed flag, a search hint
/// without it.  A found range never overlaps an existing mapping.
#[verifier::loop_isolation(false)]
pub fn mmap(uspace: &mut AddressSpace, addr: usize, length: usize, prot: i32, flags: i32) -> (r:
    Result<usize, isize>)
    requires
        old(uspace).wf(),
    ensures
        final(uspace).wf(),
        match r {
            Ok(va) => {
                &&& spec_mmap_verdict(*old(uspace), addr, length, prot, flags) == Ok::<int, int>(va as int)
                &&& spec_mmap_post(*old(uspace), *final(uspace), va as int, length, prot)
                &&& !old(uspace).spec_conflicts(va as int, spec_align_up(length as int))
            },
            Err(e) => {
                &&& spec_mmap_verdict(*old(uspace), addr, length, prot, flags) == Err::<int, int>(e as int)
                &&& *final(uspace) == *old(uspace)
            },
        },
{
    if length == 0 {
        return Err(EINVAL);
    }
    if length > usize::MAX - 4095 {
        return Err(ENOMEM);
    }
    let alen = align_up_4k(length);
    let map_flags = MmapFlags::from_bits_truncate(flags);
    let permission_flags = MmapProt::from_bits_truncate(prot);
    if map_flags.fixed {
        match uspace.map_alloc(addr, alen, permission_flags.mapping_flags(), false) {
            Ok(()) => {
                proof {
                    assert(final(uspace).regions@.subrange(0, old(uspace).regions@.len() as int)
                        =~= old(uspace).regions@);
                }
                Ok(addr)
            },
            Err(MapError::InvalidRange) => Err(EINVAL),
            Err(MapError::OutOfAddressSpace) => Err(ENOMEM),
            Err(MapError::MapConflict) => Err(EEXIST),
            Err(MapError::BadAddress) => Err(EINVAL),
        }
    } else {
        let va = match uspace.find_free_area(addr, alen) {
            Some(va) => va,
            None => {
                let base = uspace.base;
                match uspace.find_free_area(base, alen) {
                    Some(va) => va,
                    None => {
                        return Err(ENOMEM);
                    },
                }
            },
        };
        match uspace.map_alloc(va, alen, permission_flags.mapping_flags(), false) {
            Ok(()) => {
                proof {
                    assert(final(uspace).regions@.subrange(0, old(uspace).regions@.len() as int)
                        =~= old(uspace).regions@);
                }
                Ok(va)
            },
            Err(_) => {
                proof {
                    assert(false);
                }
                Err(EINVAL)
            },
        }
    }
}

/// The eight little-endian bytes of a 64-bit value.
pub open spec fn spec_le8(v: u64) -> Seq<u8> {
    seq![
        (v % 0x100) as u8,
        ((v / 0x100) % 0x100) as u8,
        ((v / 0x1_0000) % 0x100) as u8,
        ((v / 0x100_0000) % 0x100) as u8,
        ((v / 0x1_0000_0000) % 0x100) as u8,
        ((v / 0x100_0000_0000) % 0x100) as u8,
        ((v / 0x1_0000_0000_0000) % 0x100) as u8,
        ((v / 0x100_0000_0000_0000) % 0x100) as u8,
    ]
}

/// Serializes a 64-bit value into its little-endian bytes.
fn le8_bytes(v: u64) -> (r: Vec<u8>)
    ensures
        r@ == spec_le8(v),
        r@.len() == 8,
{
    let mut r: Vec<u8> = Vec::new();
    r.push((v % 0x100) as u8);
    r.push(((v / 0x100) % 0x100) as u8);
    r.push(((v / 0x1_0000) % 0x100) as u8);
    r.push(((v / 0x100_0000) % 0x100) as u8);
    r.push(((v / 0x1_0000_0000) % 0x100) as u8);
    r.push(((v / 0x100_0000_0000) % 0x100) as u8);
    r.push(((v / 0x1_0000_0000_0000) % 0x100) as u8);
    r.push(((v / 0x100_0000_0000_0000) % 0x100) as u8);
    proof {
        assert(r@ =~= spec_le8(v));
    }
    r
}

/// A request forwarded verbatim to the POSIX-compatibility collaborator:
/// the marshaled arguments of one of its calls.
#[derive(Clone, Copy, PartialEq, Eq, Structural, Debug)]
pub enum PosixCall {
    /// `read(fd, buf, count)`.
    Read {
        /// File descriptor.
        fd: i32,
        /// User address of the buffer.
        buf: usize,
        /// Bytes to read.
        count: usize,
    },
    /// `write(fd, buf, count)`.
    Write {
        /// File descriptor.
        fd: i32,
        /// User address of the buffer.
        buf: usize,
        /// Bytes to write.
        count: usize,
    },
    /// `writev(fd, iov, iocnt)`.
    Writev {
        /// File descriptor.
        fd: i32,
        /// User address of the iovec array.
        iov: usize,
        /// Number of iovecs.
        iocnt: i32,
    },
    /// `sched_yield()`.
    SchedYield,
    /// `nanosleep(req, rem)`.
    Nanosleep {
        /// User address of the requested duration.
        req: usize,
        /// User address for the remaining duration.
        rem: usize,
    },
    /// `clock_gettime(clock, ts)`.
    ClockGettime {
        /// Clock id.
        clock: i32,
        /// User address for the time value.
        ts: usize,
    },
}

/// What one dispatched system call came to: a completed call with its
/// return value, a terminated task, or a call delegated verbatim to the
/// POSIX collaborator, whose answer becomes the return value.
#[derive(Clone, Copy, PartialEq, Eq, Structural, Debug)]
pub enum SyscallOutcome {
    /// The handler completed with this return value (negative: a negated
    /// standard error number).
    Ret(isize),
    /// The calling task was terminated with this status and never
    /// observes a return value.
    Terminated(i32),
    /// The call is the collaborator's; its result is returned verbatim.
    Delegated(PosixCall),
}

/// Argument marshaling of `read` for the POSIX collaborator.
pub fn sys_read(fd: i32, buf: usize, count: usize) -> (r: PosixCall)
    ensures
        r == (PosixCall::Read { fd, buf, count }),
{
    PosixCall::Read { fd, buf, count }
}

/// Argument marshaling of `write` for the POSIX collaborator.
pub fn sys_write(fd: i32, buf: usize, count: usize) -> (r: PosixCall)
    ensures
        r == (PosixCall::Write { fd, buf, count }),
{
    PosixCall::Write { fd, buf, count }
}

/// Argument marshaling of `writev` for the POSIX collaborator.
pub fn sys_writev(fd: i32, iov: usize, iocnt: i32) -> (r: PosixCall)
    ensures
        r == (PosixCall::Writev { fd, iov, iocnt }),
{
    PosixCall::Writev { fd, iov, iocnt }
}

/// Delegation of `sched_yield` to the scheduler collaborator.
pub fn sys_sched_yield() -> (r: PosixCall)
    ensures
        r == (PosixCall::SchedYield),
{
    PosixCall::SchedYield
}

/// Argument marshaling of `nanosleep` for the POSIX collaborator.
pub fn sys_nanosleep(req: usize, rem: usize) -> (r: PosixCall)
    ensures
        r == (PosixCall::Nanosleep { req, rem }),
{
    PosixCall::Nanosleep { req, rem }
}

/// Argument marshaling of `clock_gettime` for the POSIX collaborator.
pub fn sys_clock_gettime(clock: i32, ts: usize) -> (r: PosixCall)
    ensures
        r == (PosixCall::ClockGettime { clock, ts }),
{
    PosixCall::ClockGettime { clock, ts }
}

/// An unimplemented `ioctl`: acknowledged with zero, touching nothing.
pub fn sys_ioctl() -> (r: usize)
    ensures
        r == 0,
{
    0
}

/// Returns the caller's stored process id.
pub fn sys_getpid(kernel: &Kernel, caller: usize) -> (r: i32)
    requires
        kernel.wf(),
        caller < kernel.tasks@.len(),
    ensures
        r == INIT_PROC_ID as i32,
{
    kernel.tasks[caller].ext.proc_id as i32
}

/// How `sys_mmap` changes the kernel: the verdict against the caller's
/// address space decides the return value; on success the space gains
/// the fresh region, on failure nothing changes.
pub open spec fn spec_sys_mmap_post(
    k0: Kernel,
    k1: Kernel,
    caller: int,
    addr: usize,
    length: usize,
    prot: i32,
    flags: i32,
    r: isize,
) -> bool {
    let a = k0.tasks@[caller].ext.aspace as int;
    let s0 = k0.aspaces@[a];
    match spec_mmap_verdict(s0, addr, length, prot, flags) {
        Ok(va) => {
            &&& r == va as isize
            &&& k1.tasks@ == k0.tasks@
            &&& k1.aspaces@.len() == k0.aspaces@.len()
            &&& forall|q: int|
                0 <= q < k0.aspaces@.len() && q != a ==> #[trigger] k1.aspaces@[q]
                    == k0.aspaces@[q]
            &&& spec_mmap_post(s0, k1.aspaces@[a], va, length, prot)
            &&& !s0.spec_conflicts(va, spec_align_up(length as int))
        },
        Err(e) => {
            &&& r == -e
            &&& k1.tasks@ == k0.tasks@
            &&& k1.aspaces@ == k0.aspaces@
        },
    }
}

/// Performs `mmap` on the `a`-th address space.
fn aspace_mmap(
    aspaces: &mut Vec<AddressSpace>,
    a: usize,
    addr: usize,
    length: usize,
    prot: i32,
    flags: i32,
) -> (r: Result<usize, isize>)
    requires
        a < old(aspaces)@.len(),
        old(aspaces)@[a as int].wf(),
    ensures
        final(aspaces)@.len() == old(aspaces)@.len(),
        forall|q: int|
            0 <= q < old(aspaces)@.len() && q != a ==> #[trigger] final(aspaces)@[q] == old(
                aspaces,
            )@[q],
        final(aspaces)@[a as int].wf(),
        match r {
            Ok(va) => {
                &&& spec_mmap_verdict(old(aspaces)@[a as int], addr, length, prot, flags)
                    == Ok::<int, int>(va as int)
                &&& spec_mmap_post(
                    old(aspaces)@[a as int],
                    final(aspaces)@[a as int],
                    va as int,
                    length,
                    prot,
                )
                &&& !old(aspaces)@[a as int].spec_conflicts(
                    va as int,
                    spec_align_up(length as int),
                )
            },
            Err(e) => {
                &&& spec_mmap_verdict(old(aspaces)@[a as int], addr, length, prot, flags)
                    == Err::<int, int>(e as int)
                &&& final(aspaces)@[a as int] == old(aspaces)@[a as int]
            },
        },
{
    let space = &mut aspaces[a];
    mmap(space, addr, length, prot, flags)
}

/// Maps anonymous memory for the calling task; returns the mapped base
/// address, or a negated error number.
pub fn sys_mmap(
    kernel: &mut Kernel,
    caller: usize,
    addr: usize,
    length: usize,
    prot: i32,
    flags: i32,
    _fd: i32,
    _offset: isize,
) -> (r: isize)
    requires
        old(kernel).wf(),
        caller < old(kernel).tasks@.len(),
    ensures
        final(kernel).wf(),
        final(kernel).tasks@ == old(kernel).tasks@,
        spec_sys_mmap_post(
            *old(kernel),
            *final(kernel),
            caller as int,
            addr,
            length,
            prot,
            flags,
            r,
        ),
{
    let a: usize = kernel.tasks[caller].ext.aspace;
    match aspace_mmap(&mut kernel.aspaces, a, addr, length, prot, flags) {
        Ok(va) => {
            proof {
                assert(va < old(kernel).aspaces@[a as int].end);
            }
            #[verifier::truncate] (va as isize)
        },
        Err(e) => {
            proof {
                assert(kernel.aspaces@ =~= old(kernel).aspaces@);
            }
            -e
        },
    }
}

/// How `sys_set_tid_address` changes the kernel: the caller's
/// clear_child_tid word takes the given address, nothing else moves,
/// and the caller's id is returned.
pub open spec fn spec_set_tid_post(
    k0: Kernel,
    k1: Kernel,
    caller: int,
    tid_ptd: u64,
    r: isize,
) -> bool {
    &&& k1.aspaces@ == k0.aspaces@
    &&& k1.tasks@.len() == k0.tasks@.len()
    &&& forall|t: int|
        0 <= t < k0.tasks@.len() && t != caller ==> #[trigger] k1.tasks@[t] == k0.tasks@[t]
    &&& k1.tasks@[caller].id == k0.tasks@[caller].id
    &&& k1.tasks@[caller].state == k0.tasks@[caller].state
    &&& k1.tasks@[caller].ext.proc_id == k0.tasks@[caller].ext.proc_id
    &&& k1.tasks@[caller].ext.uctx == k0.tasks@[caller].ext.uctx
    &&& k1.tasks@[caller].ext.aspace == k0.tasks@[caller].ext.aspace
    &&& k1.tasks@[caller].ext.spec_clear_child_tid() == tid_ptd
    &&& r == k0.tasks@[caller].id as isize
}

/// Stores the address of the word the kernel zeroes when the caller
/// exits.
///
/// Always succeeds, returning the caller's id.
pub fn sys_set_tid_address(kernel: &mut Kernel, caller: usize, tid_ptd: u64) -> (r: isize)
    requires
        old(kernel).wf(),
        caller < old(kernel).tasks@.len(),
    ensures
        final(kernel).wf(),
        spec_set_tid_post(*old(kernel), *final(kernel), caller as int, tid_ptd, r),
{
    let id = kernel.tasks[caller].id;
    let mut ext = kernel.tasks[caller].ext;
    ext.set_clear_child_tid(tid_ptd);
    let state = kernel.tasks[caller].state;
    kernel.tasks[caller] = Task { id, state, ext };
    #[verifier::truncate] (id as isize)
}

/// How `sys_arch_prctl` changes the kernel, by sub-code: the set codes
/// store the address in the caller's saved segment-base registers; the
/// get codes write the register's eight bytes at the given user address
/// through the checked accessor, failing with `EFAULT` where the address
/// is not writable user memory; an unrecognized sub-code is `EINVAL`.
pub open spec fn spec_arch_prctl_post(
    k0: Kernel,
    k1: Kernel,
    caller: int,
    code: i32,
    addr: u64,
    r: isize,
) -> bool {
    let t0 = k0.tasks@[caller];
    let a = t0.ext.aspace as int;
    let s0 = k0.aspaces@[a];
    match ArchPrctlCode::spec_from_code(code) {
        None => r == -22 && k1.tasks@ == k0.tasks@ && k1.aspaces@ == k0.aspaces@,
        Some(ArchPrctlCode::ArchSetFs) => if addr <= usize::MAX {
            &&& r == 0
            &&& k1.aspaces@ == k0.aspaces@
            &&& k1.tasks@ == k0.tasks@.update(
                caller,
                Task {
                    ext: TaskExt {
                        uctx: UspaceContext { tls: addr as usize, ..t0.ext.uctx },
                        ..t0.ext
                    },
                    ..t0
                },
            )
        } else {
            r == -14 && k1.tasks@ == k0.tasks@ && k1.aspaces@ == k0.aspaces@
        },
        Some(ArchPrctlCode::ArchSetGs) => if addr <= usize::MAX {
            &&& r == 0
            &&& k1.aspaces@ == k0.aspaces@
            &&& k1.tasks@ == k0.tasks@.update(
                caller,
                Task {
                    ext: TaskExt {
                        uctx: UspaceContext { gs_base: addr as usize, ..t0.ext.uctx },
                        ..t0.ext
                    },
                    ..t0
                },
            )
        } else {
            r == -14 && k1.tasks@ == k0.tasks@ && k1.aspaces@ == k0.aspaces@
        },
        Some(ArchPrctlCode::ArchGetFs) => if addr <= usize::MAX && s0.spec_user_writable(
            addr as int,
            8,
        ) {
            &&& r == 0
            &&& k1.tasks@ == k0.tasks@
            &&& k1.aspaces@.len() == k0.aspaces@.len()
            &&& forall|q: int|
                0 <= q < k0.aspaces@.len() && q != a ==> #[trigger] k1.aspaces@[q]
                    == k0.aspaces@[q]
            &&& crate::mm::spec_user_write_post(
                s0,
                k1.aspaces@[a],
                addr as int,
                spec_le8(t0.ext.uctx.tls as u64),
            )
        } else {
            r == -14 && k1.tasks@ == k0.tasks@ && k1.aspaces@ == k0.aspaces@
        },
        Some(ArchPrctlCode::ArchGetGs) => if addr <= usize::MAX && s0.spec_user_writable(
            addr as int,
            8,
        ) {
            &&& r == 0
            &&& k1.tasks@ == k0.tasks@
            &&& k1.aspaces@.len() == k0.aspaces@.len()
            &&& forall|q: int|
                0 <= q < k0.aspaces@.len() && q != a ==> #[trigger] k1.aspaces@[q]
                    == k0.aspaces@[q]
            &&& crate::mm::spec_user_write_post(
                s0,
                k1.aspaces@[a],
                addr as int,
                spec_le8(t0.ext.uctx.gs_base as u64),
            )
        } else {
            r == -14 && k1.tasks@ == k0.tasks@ && k1.aspaces@ == k0.aspaces@
        },
    }
}

/// Sets or gets the caller's thread-pointer or segment-base register,
/// used for thread-local storage.
///
/// Fails with `EINVAL` on an unrecognized sub-code; a get writes the
/// value through the checked accessor and fails with `EFAULT` where the
/// destination is not writable user memory.
pub fn sys_arch_prctl(kernel: &mut Kernel, caller: usize, code: i32, addr: u64) -> (r: isize)
    requires
        old(kernel).wf(),
        caller < old(kernel).tasks@.len(),
    ensures
        final(kernel).wf(),
        spec_arch_prctl_post(*old(kernel), *final(kernel), caller as int, code, addr, r),
{
    match ArchPrctlCode::try_from(code) {
        None => -EINVAL,
        Some(ArchPrctlCode::ArchSetFs) => {
            if addr > usize::MAX as u64 {
                return -EFAULT;
            }
            let t0 = kernel.tasks[caller];
            kernel.tasks[caller] = Task {
                ext: TaskExt { uctx: UspaceContext { tls: addr as usize, ..t0.ext.uctx }, ..t0.ext },
                ..t0
            };
            proof {
                assert(kernel.tasks@ =~= old(kernel).tasks@.update(
                    caller as int,
                    kernel.tasks@[caller as int],
                ));
            }
            0
        },
        Some(ArchPrctlCode::ArchSetGs) => {
            if addr > usize::MAX as u64 {
                return -EFAULT;
            }
            let t0 = kernel.tasks[caller];
            kernel.tasks[caller] = Task {
                ext: TaskExt {
                    uctx: UspaceContext { gs_base: addr as usize, ..t0.ext.uctx },
                    ..t0.ext
                },
                ..t0
            };
            proof {
                assert(kernel.tasks@ =~= old(kernel).tasks@.update(
                    caller as int,
                    kernel.tasks@[caller as int],
                ));
            }
            0
        },
        Some(ArchPrctlCode::ArchGetFs) => {
            if addr > usize::MAX as u64 {
                return -EFAULT;
            }
            let a: usize = kernel.tasks[caller].ext.aspace;
            let value: u64 = kernel.tasks[caller].ext.uctx.tls as u64;
            let bytes = le8_bytes(value);
            let ok = crate::task::aspace_write_user(
                &mut kernel.aspaces,
                a,
                addr as usize,
                &bytes,
            );
            if ok {
                0
            } else {
                proof {
                    assert(kernel.aspaces@ =~= old(kernel).aspaces@);
                }
                -EFAULT
            }
        },
        Some(ArchPrctlCode::ArchGetGs) => {
            if addr > usize::MAX as u64 {
                return -EFAULT;
            }
            let a: usize = kernel.tasks[caller].ext.aspace;
            let value: u64 = kernel.tasks[caller].ext.uctx.gs_base as u64;
            let bytes = le8_bytes(value);
            let ok = crate::task::aspace_write_user(
                &mut kernel.aspaces,
                a,
                addr as usize,
                &bytes,
            );
            if ok {
                0
            } else {
                proof {
                    assert(kernel.aspaces@ =~= old(kernel).aspaces@);
                }
                -EFAULT
            }
        },
    }
}

/// How `sys_clone` changes the kernel: a sibling task appears, sharing
/// the caller's address-space handle, its context derived from the
/// trapped frame with the new stack pointer and a zero return value.
pub open spec fn spec_clone_post(
    k0: Kernel,
    k1: Kernel,
    caller: int,
    tf: TrapFrame,
    newsp: usize,
    id: int,
) -> bool {
    let uctx = UspaceContext { ip: tf.ip, sp: newsp, arg0: tf.arg0, retval: 0, tls: 0, gs_base: 0 };
    &&& id == k0.tasks@.len()
    &&& k1.aspaces@ == k0.aspaces@
    &&& k1.tasks@.len() == k0.tasks@.len() + 1
    &&& forall|t: int| 0 <= t < k0.tasks@.len() ==> #[trigger] k1.tasks@[t] == k0.tasks@[t]
    &&& spec_spawned_task(k1.tasks@.last(), id, k0.tasks@[caller].ext.aspace as int, uctx)
}

/// Builds a sibling task on the caller's own address space, its user
/// context derived from the trapped frame: the stack pointer replaced by
/// `newsp` and the return-value register forced to zero.  The parent
/// receives the child's numeric id; the child's first observed syscall
/// return value is zero.
pub fn sys_clone(kernel: &mut Kernel, caller: usize, tf: &TrapFrame, newsp: usize) -> (id: u64)
    requires
        old(kernel).wf(),
        caller < old(kernel).tasks@.len(),
    ensures
        final(kernel).wf(),
        spec_clone_post(*old(kernel), *final(kernel), caller as int, *tf, newsp, id as int),
{
    let aspace: usize = kernel.tasks[caller].ext.aspace;
    let mut uctx = UspaceContext::from(tf);
    uctx.set_sp(newsp);
    uctx.set_retval(0);
    spawn_user_task(kernel, aspace, uctx)
}

/// Runs the task-extension exit sequence for the caller; the call never
/// returns to user code.
pub fn sys_exit(kernel: &mut Kernel, caller: usize, status: i32) -> (r: SyscallOutcome)
    requires
        old(kernel).wf(),
        caller < old(kernel).tasks@.len(),
    ensures
        final(kernel).wf(),
        spec_exit_post(*old(kernel), *final(kernel), caller as int, status),
        r == SyscallOutcome::Terminated(status),
{
    exit_task(kernel, caller, status);
    SyscallOutcome::Terminated(status)
}

/// Exits the whole thread group; with a single process this is the exit
/// sequence of the caller.
pub fn sys_exit_group(kernel: &mut Kernel, caller: usize, status: i32) -> (r: SyscallOutcome)
    requires
        old(kernel).wf(),
        caller < old(kernel).tasks@.len(),
    ensures
        final(kernel).wf(),
        spec_exit_post(*old(kernel), *final(kernel), caller as int, status),
        r == SyscallOutcome::Terminated(status),
{
    exit_task(kernel, caller, status);
    SyscallOutcome::Terminated(status)
}

/// The numbers the dispatcher implements.
pub open spec fn spec_known_syscall(n: usize) -> bool {
    ||| n == 0
    ||| n == 1
    ||| n == 9
    ||| n == 16
    ||| n == 20
    ||| n == 24
    ||| n == 35
    ||| n == 39
    ||| n == 56
    ||| n == 60
    ||| n == 158
    ||| n == 218
    ||| n == 228
    ||| n == 230
    ||| n == 231
}

/// Decodes a trapped system call and routes it to its handler.
///
/// Every known number produces exactly one outcome: a return value, a
/// termination, or a delegation to the POSIX collaborator.  An unknown
/// number terminates the calling task with the `ENOSYS` status, so that
/// a gap in the ABI surfaces at once instead of returning a value the
/// program might not check.
pub fn handle_syscall(
    kernel: &mut Kernel,
    caller: usize,
    tf: &TrapFrame,
    syscall_num: usize,
) -> (r: SyscallOutcome)
    requires
        old(kernel).wf(),
        caller < old(kernel).tasks@.len(),
    ensures
        final(kernel).wf(),
        syscall_num == SYS_READ ==> *final(kernel) == *old(kernel) && r
            == SyscallOutcome::Delegated(
            PosixCall::Read { fd: tf.arg0 as i32, buf: tf.arg1, count: tf.arg2 },
        ),
        syscall_num == SYS_WRITE ==> *final(kernel) == *old(kernel) && r
            == SyscallOutcome::Delegated(
            PosixCall::Write { fd: tf.arg0 as i32, buf: tf.arg1, count: tf.arg2 },
        ),
        syscall_num == SYS_WRITEV ==> *final(kernel) == *old(kernel) && r
            == SyscallOutcome::Delegated(
            PosixCall::Writev { fd: tf.arg0 as i32, iov: tf.arg1, iocnt: tf.arg2 as i32 },
        ),
        syscall_num == SYS_SCHED_YIELD ==> *final(kernel) == *old(kernel) && r
            == SyscallOutcome::Delegated(PosixCall::SchedYield),
        syscall_num == SYS_NANOSLEEP ==> *final(kernel) == *old(kernel) && r
            == SyscallOutcome::Delegated(PosixCall::Nanosleep { req: tf.arg0, rem: tf.arg1 }),
        syscall_num == SYS_CLOCK_NANOSLEEP ==> *final(kernel) == *old(kernel) && r
            == SyscallOutcome::Delegated(PosixCall::Nanosleep { req: tf.arg2, rem: tf.arg3 }),
        syscall_num == SYS_CLOCK_GETTIME ==> *final(kernel) == *old(kernel) && r
            == SyscallOutcome::Delegated(
            PosixCall::ClockGettime { clock: tf.arg0 as i32, ts: tf.arg1 },
        ),
        syscall_num == SYS_IOCTL ==> *final(kernel) == *old(kernel) && r == SyscallOutcome::Ret(0),
        syscall_num == SYS_GETPID ==> *final(kernel) == *old(kernel) && r == SyscallOutcome::Ret(
            INIT_PROC_ID as isize,
        ),
        syscall_num == SYS_MMAP ==> (r matches SyscallOutcome::Ret(x) && spec_sys_mmap_post(
            *old(kernel),
            *final(kernel),
            caller as int,
            tf.arg0,
            tf.arg1,
            tf.arg2 as i32,
            tf.arg3 as i32,
            x,
        )),
        syscall_num == SYS_ARCH_PRCTL ==> (r matches SyscallOutcome::Ret(x)
            && spec_arch_prctl_post(
            *old(kernel),
            *final(kernel),
            caller as int,
            tf.arg0 as i32,
            tf.arg1 as u64,
            x,
        )),
        syscall_num == SYS_SET_TID_ADDRESS ==> (r matches SyscallOutcome::Ret(x)
            && spec_set_tid_post(*old(kernel), *final(kernel), caller as int, tf.arg0 as u64, x)),
        syscall_num == SYS_CLONE ==> (r matches SyscallOutcome::Ret(x) && spec_clone_post(
            *old(kernel),
            *final(kernel),
            caller as int,
            *tf,
            tf.arg1,
            old(kernel).tasks@.len() as int,
        ) && x == old(kernel).tasks@.len() as isize),
        syscall_num == SYS_EXIT ==> spec_exit_post(
            *old(kernel),
            *final(kernel),
            caller as int,
            tf.arg0 as i32,
        ) && r == SyscallOutcome::Terminated(tf.arg0 as i32),
        syscall_num == SYS_EXITGROUP ==> spec_exit_post(
            *old(kernel),
            *final(kernel),
            caller as int,
            tf.arg0 as i32,
        ) && r == SyscallOutcome::Terminated(tf.arg0 as i32),
        !spec_known_syscall(syscall_num) ==> spec_kill_post(
            *old(kernel),
            *final(kernel),
            caller as int,
            ENOSYS as i32,
        ) && r == SyscallOutcome::Terminated(ENOSYS as i32),
{
    if syscall_num == SYS_READ {
        SyscallOutcome::Delegated(
            sys_read(#[verifier::truncate] (tf.arg0 as i32), tf.arg1, tf.arg2),
        )
    } else if syscall_num == SYS_WRITE {
        SyscallOutcome::Delegated(
            sys_write(#[verifier::truncate] (tf.arg0 as i32), tf.arg1, tf.arg2),
        )
    } else if syscall_num == SYS_MMAP {
        SyscallOutcome::Ret(
            sys_mmap(
                kernel,
                caller,
                tf.arg0,
                tf.arg1,
                #[verifier::truncate] (tf.arg2 as i32),
                #[verifier::truncate] (tf.arg3 as i32),
                #[verifier::truncate] (tf.arg4 as i32),
                #[verifier::truncate] (tf.arg5 as isize),
            ),
        )
    } else if syscall_num == SYS_IOCTL {
        SyscallOutcome::Ret(sys_ioctl() as isize)
    } else if syscall_num == SYS_WRITEV {
        SyscallOutcome::Delegated(
            sys_writev(
                #[verifier::truncate] (tf.arg0 as i32),
                tf.arg1,
                #[verifier::truncate] (tf.arg2 as i32),
            ),
        )
    } else if syscall_num == SYS_SCHED_YIELD {
        SyscallOutcome::Delegated(sys_sched_yield())
    } else if syscall_num == SYS_NANOSLEEP {
        SyscallOutcome::Delegated(sys_nanosleep(tf.arg0, tf.arg1))
    } else if syscall_num == SYS_GETPID {
        SyscallOutcome::Ret(sys_getpid(kernel, caller) as isize)
    } else if syscall_num == SYS_EXIT {
        sys_exit(kernel, caller, #[verifier::truncate] (tf.arg0 as i32))
    } else if syscall_num == SYS_ARCH_PRCTL {
        SyscallOutcome::Ret(
            sys_arch_prctl(
                kernel,
                caller,
                #[verifier::truncate] (tf.arg0 as i32),
                tf.arg1 as u64,
            ),
        )
    } else if syscall_num == SYS_SET_TID_ADDRESS {
        SyscallOutcome::Ret(sys_set_tid_address(kernel, caller, tf.arg0 as u64))
    } else if syscall_num == SYS_CLOCK_GETTIME {
        SyscallOutcome::Delegated(
            sys_clock_gettime(#[verifier::truncate] (tf.arg0 as i32), tf.arg1),
        )
    } else if syscall_num == SYS_CLOCK_NANOSLEEP {
        SyscallOutcome::Delegated(sys_nanosleep(tf.arg2, tf.arg3))
    } else if syscall_num == SYS_CLONE {
        let id = sys_clone(kernel, caller, tf, tf.arg1);
        SyscallOutcome::Ret(#[verifier::truncate] (id as isize))
    } else if syscall_num == SYS_EXITGROUP {
        sys_exit_group(kernel, caller, #[verifier::truncate] (tf.arg0 as i32))
    } else {
        kill_task(kernel, caller, ENOSYS as i32);
        SyscallOutcome::Terminated(ENOSYS as i32)
    }
}

/// `set_tid_address(p)` followed by the exit sequence: where `p` is not
/// null, representable, and mapped writable for user mode, and a sibling
/// keeps the shared address space alive, the four bytes of the word at
/// `p` read zero after the exit.
pub proof fn lemma_tid_cleared_on_exit(
    k0: Kernel,
    k1: Kernel,
    k2: Kernel,
    caller: int,
    p: u64,
    r: isize,
    status: i32,
)
    requires
        k0.wf(),
        0 <= caller < k0.tasks@.len(),
        spec_set_tid_post(k0, k1, caller, p, r),
        spec_exit_post(k1, k2, caller, status),
        p != 0,
        p <= usize::MAX,
        k0.aspaces@[k0.tasks@[caller].ext.aspace as int].spec_user_writable(p as int, 4),
        k1.spec_other_live_sharer(caller, k0.tasks@[caller].ext.aspace as int),
    ensures
        ({
            let a = k0.tasks@[caller].ext.aspace as int;
            let s0 = k0.aspaces@[a];
            let i = s0.spec_region_idx(p as int);
            forall|j: int|
                0 <= j < 4 ==> #[trigger] k2.aspaces@[a].regions@[i].data@[p + j
                    - s0.regions@[i].start] == 0u8
        }),
{
    let a = k0.tasks@[caller].ext.aspace as int;
    let s0 = k0.aspaces@[a];
    let i = s0.spec_region_idx(p as int);
    assert(k1.aspaces@[a] == s0);
    assert(k1.tasks@[caller].ext.spec_clear_child_tid() == p);
    assert(k1.tasks@[caller].ext.aspace as int == a);
    assert(crate::mm::spec_user_write_post(s0, k2.aspaces@[a], p as int, seq![0u8, 0u8, 0u8, 0u8]));
    let r0 = s0.regions@[i];
    let i2 = choose|i2: int|
        0 <= i2 < s0.regions@.len() && #[trigger] s0.spec_range_in_region(i2, p as int, 4)
            && s0.regions@[i2].flags.write && s0.regions@[i2].flags.user;
    assert(s0.spec_range_in_region(i2, p as int, 4));
    assert(s0.spec_is_mapped(p as int));
    assert(s0.regions@[i].start <= p < s0.regions@[i].start + s0.regions@[i].size);
    s0.lemma_region_idx_unique(p as int, i, i2);
    assert forall|j: int|
        0 <= j < 4 implies #[trigger] k2.aspaces@[a].regions@[i].data@[p + j - r0.start]
        == 0u8 by {
        assert(s0.spec_is_mapped(p as int));
        assert(0 <= p + j - r0.start < r0.size);
        assert(k2.aspaces@[a].regions@[i].data@[p + j - r0.start] == seq![0u8, 0u8, 0u8, 0u8][(
        r0.start + (p + j - r0.start)) - p]);
    }
}

} // verus!
