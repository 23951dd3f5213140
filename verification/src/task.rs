//! Tasks of a user process: the per-task process state, the kernel's
//! table of tasks and address spaces, spawning, exit, and the page-fault
//! bridge.

use vstd::prelude::*;

use crate::mm::{spec_fault_resolve_post, spec_user_write_post, AddressSpace, MappingFlags};

verus! {

/// Process id every task of the single modelled process carries; a
/// placeholder for an allocation scheme.
pub const INIT_PROC_ID: usize = 233;

/// Exit status a task is killed with on an unresolvable user fault.
pub const FAULT_EXIT_CODE: i32 = -1;

/// Trapped user register state handed to the kernel on a syscall or
/// fault: the instruction and stack pointers and the argument registers.
#[derive(Clone, Copy, PartialEq, Eq, Structural, Debug)]
pub struct TrapFrame {
    /// Trapped instruction pointer.
    pub ip: usize,
    /// Trapped stack pointer.
    pub sp: usize,
    /// First argument register.
    pub arg0: usize,
    /// Second argument register.
    pub arg1: usize,
    /// Third argument register.
    pub arg2: usize,
    /// Fourth argument register.
    pub arg3: usize,
    /// Fifth argument register.
    pub arg4: usize,
    /// Sixth argument register.
    pub arg5: usize,
}

/// Saved user-mode execution context: what the privileged transition
/// loads to enter user mode, and what traps refill.
#[derive(Clone, Copy, PartialEq, Eq, Structural, Debug)]
pub struct UspaceContext {
    /// User instruction pointer.
    pub ip: usize,
    /// User stack pointer.
    pub sp: usize,
    /// First argument register.
    pub arg0: usize,
    /// Return-value register.
    pub retval: usize,
    /// Thread-pointer (thread-local storage base) register.
    pub tls: usize,
    /// Kernel-swapped segment base.
    pub gs_base: usize,
}

impl UspaceContext {
    /// A fresh context entering user mode at `entry` with the given
    /// stack top and first argument.
    pub fn new(entry: usize, ustack_top: usize, arg0: usize) -> (r: Self)
        ensures
            r == (UspaceContext {
                ip: entry,
                sp: ustack_top,
                arg0,
                retval: 0,
                tls: 0,
                gs_base: 0,
            }),
    {
        UspaceContext { ip: entry, sp: ustack_top, arg0, retval: 0, tls: 0, gs_base: 0 }
    }

    /// The context a trapped frame describes.
    pub fn from(tf: &TrapFrame) -> (r: Self)
        ensures
            r == (UspaceContext {
                ip: tf.ip,
                sp: tf.sp,
                arg0: tf.arg0,
                retval: 0,
                tls: 0,
                gs_base: 0,
            }),
    {
        UspaceContext { ip: tf.ip, sp: tf.sp, arg0: tf.arg0, retval: 0, tls: 0, gs_base: 0 }
    }

    /// The instruction pointer.
    pub fn get_ip(&self) -> (r: usize)
        ensures
            r == self.ip,
    {
        self.ip
    }

    /// The stack pointer.
    pub fn get_sp(&self) -> (r: usize)
        ensures
            r == self.sp,
    {
        self.sp
    }

    /// Replaces the stack pointer.
    pub fn set_sp(&mut self, sp: usize)
        ensures
            *final(self) == (UspaceContext { sp, ..*old(self) }),
    {
        self.sp = sp;
    }

    /// Replaces the return-value register.
    pub fn set_retval(&mut self, retval: usize)
        ensures
            *final(self) == (UspaceContext { retval, ..*old(self) }),
    {
        self.retval = retval;
    }
}

/// Task extended data for the monolithic kernel: process id, saved user
/// context, the shared address-space handle, and the thread-exit
/// notification address.
#[derive(Clone, Copy, PartialEq, Eq, Structural, Debug)]
pub struct TaskExt {
    /// The process ID.
    pub proc_id: usize,
    /// Address of the word the kernel zeroes when the task exits; null
    /// when unset.
    pub clear_child_tid: u64,
    /// The user space context.
    pub uctx: UspaceContext,
    /// Handle (table index) of the shared virtual memory address space.
    pub aspace: usize,
}

impl TaskExt {
    /// Builds the process state attached to a fresh task.
    pub fn new(uctx: UspaceContext, aspace: usize) -> (r: Self)
        ensures
            r.proc_id == INIT_PROC_ID,
            r.uctx == uctx,
            r.aspace == aspace,
            r.spec_clear_child_tid() == 0,
    {
        TaskExt { proc_id: INIT_PROC_ID, clear_child_tid: 0, uctx, aspace }
    }

    /// The thread-exit notification address.
    pub open spec fn spec_clear_child_tid(self) -> u64 {
        self.clear_child_tid
    }

    /// The thread-exit notification address.
    pub fn clear_child_tid(&self) -> (r: u64)
        ensures
            r == self.spec_clear_child_tid(),
    {
        self.clear_child_tid
    }

    /// Stores the thread-exit notification address.
    pub fn set_clear_child_tid(&mut self, clear_child_tid: u64)
        ensures
            final(self).spec_clear_child_tid() == clear_child_tid,
            final(self).proc_id == old(self).proc_id,
            final(self).uctx == old(self).uctx,
            final(self).aspace == old(self).aspace,
    {
        self.clear_child_tid = clear_child_tid;
    }
}

/// Scheduling state of a task.
#[derive(Clone, Copy, PartialEq, Eq, Structural, Debug)]
pub enum TaskState {
    /// The task can run user code.
    Runnable,
    /// The task exited with the given status and never runs again.
    Exited(i32),
}

/// One kernel task running user code.
#[derive(Clone, Copy, PartialEq, Eq, Structural, Debug)]
pub struct Task {
    /// Stable task id; doubles as the task's table index.
    pub id: u64,
    /// Scheduling state.
    pub state: TaskState,
    /// The process state attached at creation.
    pub ext: TaskExt,
}

/// The kernel's view of the processes it runs: the address spaces and
/// the tasks sharing them.  An address-space handle is an index into the
/// table; sharing a handle is sharing the space.
pub struct Kernel {
    /// The address spaces, exclusively owned by the table.
    pub aspaces: Vec<AddressSpace>,
    /// The tasks, their ids equal to their positions.
    pub tasks: Vec<Task>,
}

impl Kernel {
    /// The kernel invariant: every task's handle names a table entry,
    /// every space is well-formed, and ids equal positions.
    pub open spec fn wf(self) -> bool {
        &&& forall|t: int|
            0 <= t < self.tasks@.len() ==> (#[trigger] self.tasks@[t]).ext.aspace
                < self.aspaces@.len()
        &&& forall|t: int| 0 <= t < self.tasks@.len() ==> (#[trigger] self.tasks@[t]).id == t
        &&& forall|t: int|
            0 <= t < self.tasks@.len() ==> (#[trigger] self.tasks@[t]).ext.proc_id
                == INIT_PROC_ID
        &&& forall|a: int| 0 <= a < self.aspaces@.len() ==> (#[trigger] self.aspaces@[a]).wf()
    }

    /// A kernel with no tasks and no address spaces.
    pub fn new() -> (r: Kernel)
        ensures
            r.wf(),
            r.tasks@.len() == 0,
            r.aspaces@.len() == 0,
    {
        Kernel { aspaces: Vec::new(), tasks: Vec::new() }
    }

    /// Takes ownership of a freshly built address space and hands back
    /// its shared handle.
    pub fn attach_aspace(&mut self, space: AddressSpace) -> (idx: usize)
        requires
            old(self).wf(),
            space.wf(),
        ensures
            final(self).wf(),
            idx == old(self).aspaces@.len(),
            final(self).aspaces@ == old(self).aspaces@.push(space),
            final(self).tasks@ == old(self).tasks@,
    {
        let idx = self.aspaces.len();
        self.aspaces.push(space);
        idx
    }

    /// Reports a task's exit status: `Some` exactly when it has exited.
    /// The blocking join of the scheduler reduces to reading this after
    /// the task's exit.
    pub fn join(&self, task: usize) -> (r: Option<i32>)
        requires
            task < self.tasks@.len(),
        ensures
            match r {
                Some(code) => self.tasks@[task as int].state == TaskState::Exited(code),
                None => self.tasks@[task as int].state == TaskState::Runnable,
            },
    {
        match self.tasks[task].state {
            TaskState::Exited(code) => Some(code),
            TaskState::Runnable => None,
        }
    }

    /// True when some task other than `task` still runs on address
    /// space `a`.
    pub open spec fn spec_other_live_sharer(self, task: int, a: int) -> bool {
        exists|t2: int|
            0 <= t2 < self.tasks@.len() && t2 != task && (#[trigger] self.tasks@[t2]).state
                == TaskState::Runnable && self.tasks@[t2].ext.aspace == a
    }
}

/// What spawning promises of the new task record.
pub open spec fn spec_spawned_task(t: Task, id: int, aspace: int, uctx: UspaceContext) -> bool {
    &&& t.id == id
    &&& t.state == TaskState::Runnable
    &&& t.ext.proc_id == INIT_PROC_ID
    &&& t.ext.uctx == uctx
    &&& t.ext.aspace == aspace
    &&& t.ext.spec_clear_child_tid() == 0
}

/// Creates a task that will enter user mode with context `uctx` on the
/// shared address space `aspace`, and hands it to the scheduler.
///
/// The privileged transition itself — installing the space's page-table
/// root and dropping to user mode at the saved entry and stack — is the
/// mode-transition collaborator's; the kernel regains control only
/// through a trap.
pub fn spawn_user_task(kernel: &mut Kernel, aspace: usize, uctx: UspaceContext) -> (id: u64)
    requires
        old(kernel).wf(),
        aspace < old(kernel).aspaces@.len(),
    ensures
        final(kernel).wf(),
        id == old(kernel).tasks@.len(),
        final(kernel).aspaces@ == old(kernel).aspaces@,
        final(kernel).tasks@.len() == old(kernel).tasks@.len() + 1,
        forall|t: int|
            0 <= t < old(kernel).tasks@.len() ==> #[trigger] final(kernel).tasks@[t] == old(kernel).tasks@[t],
        spec_spawned_task(final(kernel).tasks@.last(), id as int, aspace as int, uctx),
{
    let id = task_table_len(&kernel.tasks);
    let ext = TaskExt::new(uctx, aspace);
    kernel.tasks.push(Task { id, state: TaskState::Runnable, ext });
    id
}

/// The length of the task table as a 64-bit id.
fn task_table_len(tasks: &Vec<Task>) -> (r: u64)
    ensures
        r == tasks@.len(),
{
    tasks.len() as u64
}

/// What the scheduler's removal of a task promises: the task is marked
/// exited with the status, no other task changes, and — when no other
/// runnable task shares its address space — the space's mappings are
/// torn down by the last release of the shared handle.
pub open spec fn spec_kill_post(k0: Kernel, k1: Kernel, task: int, status: i32) -> bool {
    let a = k0.tasks@[task].ext.aspace as int;
    let torn = !k0.spec_other_live_sharer(task, a);
    &&& k1.tasks@.len() == k0.tasks@.len()
    &&& k1.aspaces@.len() == k0.aspaces@.len()
    &&& forall|t: int|
        0 <= t < k0.tasks@.len() && t != task ==> #[trigger] k1.tasks@[t] == k0.tasks@[t]
    &&& k1.tasks@[task] == (Task { state: TaskState::Exited(status), ..k0.tasks@[task] })
    &&& forall|q: int|
        0 <= q < k0.aspaces@.len() && q != a ==> #[trigger] k1.aspaces@[q] == k0.aspaces@[q]
    &&& torn ==> k1.aspaces@[a].regions@.len() == 0
    &&& !torn ==> k1.aspaces@[a] == k0.aspaces@[a]
}

/// Removes `task` from scheduling with `status` and releases its
/// address-space reference; the last release tears down all mappings.
#[verifier::loop_isolation(false)]
pub fn kill_task(kernel: &mut Kernel, task: usize, status: i32)
    requires
        old(kernel).wf(),
        task < old(kernel).tasks@.len(),
    ensures
        final(kernel).wf(),
        spec_kill_post(*old(kernel), *final(kernel), task as int, status),
{
    let a: usize = kernel.tasks[task].ext.aspace;
    let ext = kernel.tasks[task].ext;
    let id = kernel.tasks[task].id;
    kernel.tasks[task] = Task { id, state: TaskState::Exited(status), ext };
    let mut other_live = false;
    let n = kernel.tasks.len();
    let mut t: usize = 0;
    while t < n
        invariant
            t <= n,
            n == kernel.tasks@.len(),
            other_live == exists|t2: int|
                0 <= t2 < t && t2 != task && (#[trigger] kernel.tasks@[t2]).state
                    == TaskState::Runnable && kernel.tasks@[t2].ext.aspace == a,
        decreases n - t,
    {
        if t != task {
            let is_runnable = match kernel.tasks[t].state {
                TaskState::Runnable => true,
                TaskState::Exited(_) => false,
            };
            if is_runnable && kernel.tasks[t].ext.aspace == a {
                other_live = true;
            }
        }
        t = t + 1;
    }
    proof {
        if other_live {
            let t2 = choose|t2: int|
                0 <= t2 < kernel.tasks@.len() && t2 != task && (#[trigger] kernel.tasks@[t2]).state
                    == TaskState::Runnable && kernel.tasks@[t2].ext.aspace == a;
            assert(old(kernel).tasks@[t2] == kernel.tasks@[t2]);
            assert(old(kernel).spec_other_live_sharer(task as int, a as int));
        } else {
            assert forall|t2: int|
                !(0 <= t2 < old(kernel).tasks@.len() && t2 != task
                    && (#[trigger] old(kernel).tasks@[t2]).state == TaskState::Runnable && old(kernel).tasks@[t2].ext.aspace == a) by {
                if 0 <= t2 < old(kernel).tasks@.len() && t2 != task {
                    assert(old(kernel).tasks@[t2] == kernel.tasks@[t2]);
                }
            }
            assert(!old(kernel).spec_other_live_sharer(task as int, a as int));
        }
    }
    if !other_live {
        aspace_clear(&mut kernel.aspaces, a);
    }
}

/// Runs the task-extension exit sequence for `task` with `status`:
/// best-effort clears the word at its clear_child_tid address through
/// the checked accessor, then removes the task from scheduling; when it
/// was the last task of its address space the mappings are torn down.
/// What the exit sequence promises: the task exits with the status, the
/// clear_child_tid word is best-effort zeroed in its address space, and
/// the last task's exit tears the space's mappings down.
pub open spec fn spec_exit_post(k0: Kernel, k1: Kernel, task: int, status: i32) -> bool {
    let a = k0.tasks@[task].ext.aspace as int;
    let tid = k0.tasks@[task].ext.spec_clear_child_tid() as int;
    let s0 = k0.aspaces@[a];
    let torn = !k0.spec_other_live_sharer(task, a);
    &&& k1.tasks@.len() == k0.tasks@.len()
    &&& k1.aspaces@.len() == k0.aspaces@.len()
    &&& forall|t: int|
        0 <= t < k0.tasks@.len() && t != task ==> #[trigger] k1.tasks@[t] == k0.tasks@[t]
    &&& k1.tasks@[task] == (Task { state: TaskState::Exited(status), ..k0.tasks@[task] })
    &&& forall|q: int|
        0 <= q < k0.aspaces@.len() && q != a ==> #[trigger] k1.aspaces@[q] == k0.aspaces@[q]
    &&& torn ==> k1.aspaces@[a].regions@.len() == 0
    &&& !torn ==> (if tid != 0 && s0.spec_user_writable(tid, 4) {
        spec_user_write_post(s0, k1.aspaces@[a], tid, seq![0u8, 0u8, 0u8, 0u8])
    } else {
        k1.aspaces@[a] == s0
    })
}

pub fn exit_task(kernel: &mut Kernel, task: usize, status: i32)
    requires
        old(kernel).wf(),
        task < old(kernel).tasks@.len(),
    ensures
        final(kernel).wf(),
        spec_exit_post(*old(kernel), *final(kernel), task as int, status),
{
    let tid: u64 = kernel.tasks[task].ext.clear_child_tid();
    let a: usize = kernel.tasks[task].ext.aspace;
    if tid != 0 {
        let zeros: Vec<u8> = vec![0u8, 0u8, 0u8, 0u8];
        proof {
            assert(zeros@ =~= seq![0u8, 0u8, 0u8, 0u8]);
        }
        if tid > usize::MAX as u64 {
            proof {
                assert(!kernel.aspaces@[a as int].spec_user_writable(tid as int, 4)) by {
                    assert(forall|i: int|
                        0 <= i < kernel.aspaces@[a as int].regions@.len()
                            ==> !(#[trigger] kernel.aspaces@[a as int].spec_range_in_region(
                            i,
                            tid as int,
                            4,
                        )));
                }
            }
        } else {
            let dst: usize = tid as usize;
            let _ok = aspace_write_user(&mut kernel.aspaces, a, dst, &zeros);
        }
    }
    proof {
        assert(kernel.tasks@ == old(kernel).tasks@);
        assert forall|t2: int|
            0 <= t2 < kernel.tasks@.len() implies #[trigger] kernel.tasks@[t2] == old(kernel).tasks@[t2] by {}
    }
    let ghost k_mid = *kernel;
    kill_task(kernel, task, status);
    proof {
        let a_i = a as int;
        assert(k_mid.spec_other_live_sharer(task as int, a_i) == old(kernel).spec_other_live_sharer(task as int, a_i)) by {
            if k_mid.spec_other_live_sharer(task as int, a_i) {
                let t2 = choose|t2: int|
                    0 <= t2 < k_mid.tasks@.len() && t2 != task as int && (#[trigger] k_mid
                        .tasks@[t2]).state == TaskState::Runnable && k_mid.tasks@[t2].ext.aspace
                        == a_i;
                assert(old(kernel).tasks@[t2] == k_mid.tasks@[t2]);
            }
            if old(kernel).spec_other_live_sharer(task as int, a_i) {
                let t2 = choose|t2: int|
                    0 <= t2 < old(kernel).tasks@.len() && t2 != task as int && (#[trigger] old(kernel).tasks@[t2]).state == TaskState::Runnable && old(kernel).tasks@[t2].ext.aspace
                        == a_i;
                assert(k_mid.tasks@[t2] == old(kernel).tasks@[t2]);
            }
        }
    }
}

/// Performs the checked user write on the `a`-th address space./// Performs the checked user write on the `a`-th address space./// Performs the checked user write on the `a`-th address space.
pub(crate) fn aspace_write_user(aspaces: &mut Vec<AddressSpace>, a: usize, addr: usize, data: &Vec<u8>) -> (ok:
    bool)
    requires
        a < old(aspaces)@.len(),
        old(aspaces)@[a as int].wf(),
        data@.len() >= 1,
    ensures
        final(aspaces)@.len() == old(aspaces)@.len(),
        forall|q: int|
            0 <= q < old(aspaces)@.len() && q != a ==> #[trigger] final(aspaces)@[q] == old(aspaces)@[q],
        final(aspaces)@[a as int].wf(),
        ok == old(aspaces)@[a as int].spec_user_writable(addr as int, data@.len() as int),
        ok ==> spec_user_write_post(
            old(aspaces)@[a as int],
            final(aspaces)@[a as int],
            addr as int,
            data@,
        ),
        !ok ==> final(aspaces)@[a as int] == old(aspaces)@[a as int],
{
    let space = &mut aspaces[a];
    space.write_user_checked(addr, data)
}

/// Tears down all mappings of the `a`-th address space.
fn aspace_clear(aspaces: &mut Vec<AddressSpace>, a: usize)
    requires
        a < old(aspaces)@.len(),
        old(aspaces)@[a as int].wf(),
    ensures
        final(aspaces)@.len() == old(aspaces)@.len(),
        forall|q: int|
            0 <= q < old(aspaces)@.len() && q != a ==> #[trigger] final(aspaces)@[q] == old(aspaces)@[q],
        final(aspaces)@[a as int].wf(),
        final(aspaces)@[a as int].base == old(aspaces)@[a as int].base,
        final(aspaces)@[a as int].end == old(aspaces)@[a as int].end,
        final(aspaces)@[a as int].regions@.len() == 0,
{
    let space = &mut aspaces[a];
    space.regions.clear();
}

/// The kernel's user-mode page-fault handler.
///
/// A fault from kernel mode is declined.  A user-mode fault is forwarded
/// to the faulting task's address space: a demand-paging fault is
/// resolved by backing the page, and any other user fault kills the
/// faulting task — and only it — with `FAULT_EXIT_CODE`.
pub fn handle_page_fault(
    kernel: &mut Kernel,
    task: usize,
    vaddr: usize,
    access_flags: MappingFlags,
    is_user: bool,
) -> (handled: bool)
    requires
        old(kernel).wf(),
        task < old(kernel).tasks@.len(),
    ensures
        final(kernel).wf(),
        handled == is_user,
        !is_user ==> *final(kernel) == *old(kernel),
        is_user ==> {
            let a = old(kernel).tasks@[task as int].ext.aspace as int;
            let s0 = old(kernel).aspaces@[a];
            &&& final(kernel).aspaces@.len() == old(kernel).aspaces@.len()
            &&& final(kernel).tasks@.len() == old(kernel).tasks@.len()
            &&& forall|q: int|
                0 <= q < old(kernel).aspaces@.len() && q != a ==> #[trigger] final(kernel).aspaces@[q] == old(kernel).aspaces@[q]
            &&& if s0.spec_fault_resolvable(vaddr as int, access_flags) {
                &&& final(kernel).tasks@ == old(kernel).tasks@
                &&& spec_fault_resolve_post(s0, final(kernel).aspaces@[a], vaddr as int)
            } else {
                spec_kill_post(*old(kernel), *final(kernel), task as int, FAULT_EXIT_CODE)
            }
        },
{
    if !is_user {
        return false;
    }
    let a: usize = kernel.tasks[task].ext.aspace;
    let resolved = aspace_resolve_fault(&mut kernel.aspaces, a, vaddr, access_flags);
    if !resolved {
        kill_task(kernel, task, FAULT_EXIT_CODE);
    }
    true
}

/// Forwards a fault to the `a`-th address space's resolver.
fn aspace_resolve_fault(
    aspaces: &mut Vec<AddressSpace>,
    a: usize,
    vaddr: usize,
    access: MappingFlags,
) -> (ok: bool)
    requires
        a < old(aspaces)@.len(),
        old(aspaces)@[a as int].wf(),
    ensures
        final(aspaces)@.len() == old(aspaces)@.len(),
        forall|q: int|
            0 <= q < old(aspaces)@.len() && q != a ==> #[trigger] final(aspaces)@[q] == old(aspaces)@[q],
        final(aspaces)@[a as int].wf(),
        ok == old(aspaces)@[a as int].spec_fault_resolvable(vaddr as int, access),
        ok ==> spec_fault_resolve_post(
            old(aspaces)@[a as int],
            final(aspaces)@[a as int],
            vaddr as int,
        ),
        !ok ==> final(aspaces)@[a as int] == old(aspaces)@[a as int],
{
    let space = &mut aspaces[a];
    space.handle_page_fault(vaddr, access)
}

/// The status a task hands to the exit sequence is the status its exit
/// records, for every kernel state and task: with `Kernel::join`'s
/// promise, a loaded, spawned program that exits with some value joins
/// with exactly that value.
pub proof fn lemma_exit_status_joins(k0: Kernel, k1: Kernel, task: int, status: i32)
    requires
        0 <= task < k0.tasks@.len(),
        spec_exit_post(k0, k1, task, status),
    ensures
        k1.tasks@[task].state == TaskState::Exited(status),
{
}

/// A page fault killing one task touches no sibling: after the kill,
/// every other task's record — its scheduling state included — is what
/// it was, so a runnable sibling is still runnable.
pub proof fn lemma_fault_kill_spares_siblings(k0: Kernel, k1: Kernel, task: int, t2: int)
    requires
        0 <= task < k0.tasks@.len(),
        0 <= t2 < k0.tasks@.len(),
        t2 != task,
        spec_kill_post(k0, k1, task, FAULT_EXIT_CODE),
    ensures
        k1.tasks@[t2] == k0.tasks@[t2],
        k1.tasks@[task].state == TaskState::Exited(FAULT_EXIT_CODE),
{
}

} // verus!
