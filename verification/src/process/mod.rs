//! Processes: their ids, their states, and waiting for children.

use crate::align::{align_up, align_up_usize, is_power_of_two};
use crate::error::{Errno, Error};
use crate::mm::frame::{Vaddr, PAGE_SIZE};
use crate::mm::is_page_fault;
use riscv::interrupt::supervisor::Exception;
use vstd::prelude::*;

verus! {

/// The id of a process.
pub type Pid = usize;

/// The id of the process that adopts the children of a process that exits.
pub const INIT_PROCESS_ID: Pid = 1;

/// The size of the stack of a user program, in bytes.
pub const USER_STACK_SIZE: usize = 8192 * 1024;

/// The address at which the image of a user program is mapped.
pub const MAP_ADDR: Vaddr = 0x0001_0000;

/// The address at which a user program starts to run.
pub const ENTRY_POINT: Vaddr = 0x10078;

/// The number of pages that the image of a program of `len` bytes takes.
pub fn image_pages(len: usize) -> (pages: usize)
    requires
        len + PAGE_SIZE - 1 <= usize::MAX,
    ensures
        pages == align_up(len as int, PAGE_SIZE as int) / (PAGE_SIZE as int),
        pages * PAGE_SIZE >= len,
        pages * PAGE_SIZE < len + PAGE_SIZE,
{
    assert(is_power_of_two(4096u64)) by (bit_vector);
    let nbytes = align_up_usize(len, PAGE_SIZE);
    nbytes / PAGE_SIZE
}

/// Hands out the ids of processes, counting up from 1.
#[derive(Debug)]
pub struct PidAllocator {
    next_pid: usize,
}

impl PidAllocator {
    /// The id that is handed out next.
    pub closed spec fn next(&self) -> usize {
        self.next_pid
    }

    /// An allocator that has handed out no id.
    pub fn new() -> (pids: PidAllocator)
        ensures
            pids.next() == 1,
    {
        PidAllocator { next_pid: 1 }
    }

    /// Hands out the next id. Behind the greatest number comes 0.
    pub fn alloc_pid(&mut self) -> (pid: Pid)
        ensures
            pid == old(self).next(),
            final(self).next() == if old(self).next() == usize::MAX {
                0
            } else {
                (old(self).next() + 1) as usize
            },
    {
        let pid = self.next_pid;
        self.next_pid = if pid == usize::MAX {
            0
        } else {
            pid + 1
        };
        pid
    }
}

/// The state of a process.
#[derive(Clone, Copy, Debug, PartialEq, Eq, Structural)]
pub enum Status {
    /// The process is being set up.
    Uninit,
    /// The process can run.
    Runnable,
    /// The process has ended and waits for its parent to take note.
    Zombie,
}

impl Status {
    /// The number that stands for the state.
    pub open spec fn spec_number(self) -> u64 {
        match self {
            Status::Uninit => 0,
            Status::Runnable => 1,
            Status::Zombie => 2,
        }
    }

    /// The number that stands for the state.
    #[verifier::when_used_as_spec(spec_number)]
    pub fn number(self) -> (n: u64)
        ensures
            n == self.number(),
    {
        match self {
            Status::Uninit => 0,
            Status::Runnable => 1,
            Status::Zombie => 2,
        }
    }

    /// The state that `n` stands for, if it stands for one.
    pub fn from_number(n: u64) -> (status: Option<Status>)
        ensures
            match status {
                Some(status) => status.number() == n,
                None => n > 2,
            },
    {
        if n == 0 {
            Some(Status::Uninit)
        } else if n == 1 {
            Some(Status::Runnable)
        } else if n == 2 {
            Some(Status::Zombie)
        } else {
            None
        }
    }
}

/// What is done about an exception that a user program raised.
#[derive(Clone, Copy, Debug, PartialEq, Eq, Structural)]
pub enum ExceptionAction {
    /// Go on behind the instruction, which is taken to be two bytes long.
    SkipInstruction,
    /// Let the address space resolve the fault, and end the process if it
    /// cannot.
    ResolvePageFault,
    /// End the process.
    Kill,
}

/// What is done about the exception `code` of a user program: an illegal
/// instruction is skipped, a page fault is resolved, and anything else ends
/// the process.
pub open spec fn spec_on_user_exception(code: Exception) -> ExceptionAction {
    if code is IllegalInstruction {
        ExceptionAction::SkipInstruction
    } else if is_page_fault(code) {
        ExceptionAction::ResolvePageFault
    } else {
        ExceptionAction::Kill
    }
}

/// What is done about the exception `code` of a user program: an illegal
/// instruction is skipped, a page fault is resolved, and anything else ends
/// the process.
#[verifier::when_used_as_spec(spec_on_user_exception)]
pub fn on_user_exception(code: Exception) -> (action: ExceptionAction)
    ensures
        action == on_user_exception(code),
{
    match code {
        Exception::IllegalInstruction => ExceptionAction::SkipInstruction,
        Exception::StorePageFault | Exception::LoadPageFault | Exception::InstructionPageFault => {
            ExceptionAction::ResolvePageFault
        },
        _ => ExceptionAction::Kill,
    }
}

/// A child of a process, as its parent sees it.
#[derive(Clone, Copy, Debug, PartialEq, Eq, Structural)]
pub struct Child {
    pub pid: Pid,
    /// The code with which the child ended, once it has.
    pub exit_code: Option<u32>,
}

impl Child {
    /// Whether the child has ended and waits to be taken note of.
    pub open spec fn spec_is_zombie(&self) -> bool {
        self.exit_code is Some
    }

    /// Whether the child has ended and waits to be taken note of.
    #[verifier::when_used_as_spec(spec_is_zombie)]
    pub fn is_zombie(&self) -> (r: bool)
        ensures
            r == self.is_zombie(),
    {
        self.exit_code.is_some()
    }
}

/// The children of a process, in the order of their ids.
#[derive(Debug)]
pub struct Children {
    list: Vec<Child>,
}

/// Whether the ids of `children` rise from each to the next.
pub open spec fn ascending(children: Seq<Child>) -> bool {
    forall|i: int, j: int| 0 <= i < j < children.len() ==> (#[trigger] children[i]).pid < (
    #[trigger] children[j]).pid
}

/// The index of the child with the id `pid`, where there is one.
pub open spec fn index_of(children: Seq<Child>, pid: Pid) -> Option<int> {
    if exists|i: int| 0 <= i < children.len() && (#[trigger] children[i]).pid == pid {
        Some(choose|i: int| 0 <= i < children.len() && (#[trigger] children[i]).pid == pid)
    } else {
        None
    }
}

/// The index of the first child that is a zombie, where there is one.
pub open spec fn first_zombie(children: Seq<Child>) -> Option<int> {
    if exists|i: int| 0 <= i < children.len() && (#[trigger] children[i]).is_zombie() {
        Some(
            choose|i: int|
                0 <= i < children.len() && (#[trigger] children[i]).is_zombie() && forall|j: int|
                    0 <= j < i ==> !(#[trigger] children[j]).is_zombie(),
        )
    } else {
        None
    }
}

/// The child that a wait for `pid` falls on: the child with that id or,
/// where any child will do, the first that is a zombie.
pub open spec fn waited_for(children: Seq<Child>, pid: Option<Pid>) -> Option<int> {
    match pid {
        Some(pid) => index_of(children, pid),
        None => first_zombie(children),
    }
}

/// What a wait for `pid` comes to among `children`: `ECHILD` where there is
/// no child at all, or none with the id `pid`; the id and exit code of the
/// child that the wait falls on, if that child is a zombie; `EAGAIN` else.
pub open spec fn wait_result(children: Seq<Child>, pid: Option<Pid>) -> Result<(Pid, u32), Error> {
    if children.len() == 0 {
        Err(Error { code: Errno::ECHILD })
    } else {
        match waited_for(children, pid) {
            Some(i) => match children[i].exit_code {
                Some(code) => Ok((children[i].pid, code)),
                None => Err(Error { code: Errno::EAGAIN }),
            },
            None => if pid is Some {
                Err(Error { code: Errno::ECHILD })
            } else {
                Err(Error { code: Errno::EAGAIN })
            },
        }
    }
}

/// The child that a process names when it waits with the argument
/// `wait_pid`: any child for -1, else the child whose id is `wait_pid`
/// without its sign.
pub fn wait_target(wait_pid: i32) -> (pid: Option<Pid>)
    requires
        wait_pid != i32::MIN,
    ensures
        wait_pid == -1 ==> pid is None,
        wait_pid != -1 ==> pid == Some(
            (if wait_pid < 0 {
                -wait_pid
            } else {
                wait_pid as int
            }) as usize,
        ),
{
    if wait_pid == -1 {
        None
    } else if wait_pid < 0 {
        Some((-wait_pid) as usize)
    } else {
        Some(wait_pid as usize)
    }
}

impl View for Children {
    type V = Seq<Child>;

    closed spec fn view(&self) -> Seq<Child> {
        self.list@
    }
}

impl Children {
    /// The invariant of the children: their ids rise, so that no two have
    /// the same.
    pub open spec fn wf(&self) -> bool {
        ascending(self@)
    }

    /// No children.
    pub fn new() -> (children: Children)
        ensures
            children.wf(),
            children@ == Seq::<Child>::empty(),
    {
        Children { list: Vec::new() }
    }

    /// Whether there is no child.
    pub fn is_empty(&self) -> (r: bool)
        ensures
            r == (self@.len() == 0),
    {
        self.list.len() == 0
    }

    /// The children, in the order of their ids.
    pub fn as_vec(&self) -> (r: &Vec<Child>)
        ensures
            r@ == self@,
    {
        &self.list
    }

    /// The number of children with an id below `pid`: the index at which a
    /// child with that id stands or would stand.
    pub fn rank(&self, pid: Pid) -> (r: usize)
        requires
            self.wf(),
        ensures
            r <= self@.len(),
            forall|i: int| 0 <= i < r ==> (#[trigger] self@[i]).pid < pid,
            forall|i: int| r <= i < self@.len() ==> (#[trigger] self@[i]).pid >= pid,
    {
        let n: usize = self.list.len();
        let mut i: usize = 0;
        while i < n && self.list[i].pid < pid
            invariant
                i <= n,
                n == self@.len(),
                self.wf(),
                forall|k: int| 0 <= k < i ==> (#[trigger] self@[k]).pid < pid,
            decreases n - i,
        {
            i += 1;
        }
        proof {
            if i < n {
                assert forall|k: int| i <= k < self@.len() implies (#[trigger] self@[k]).pid >= pid by {
                    if k > i {
                        assert(self@[i as int].pid < self@[k].pid);
                    }
                }
            }
        }
        i
    }

    /// Puts `child` among the children, in place of the child with its id if
    /// there is one.
    pub fn insert(&mut self, child: Child)
        requires
            old(self).wf(),
        ensures
            final(self).wf(),
            match index_of(old(self)@, child.pid) {
                Some(i) => final(self)@ == old(self)@.update(i, child),
                None => exists|at: int|
                    0 <= at <= old(self)@.len() && final(self)@ == #[trigger] old(self)@.insert(at, child),
            },
            index_of(final(self)@, child.pid) is Some,
            final(self)@[index_of(final(self)@, child.pid).unwrap()] == child,
            forall|pid: Pid|
                pid != child.pid ==> (index_of(old(self)@, pid) is Some <==> #[trigger] index_of(
                    final(self)@,
                    pid,
                ) is Some),
    {
        let at = self.rank(child.pid);
        let ghost before = self@;
        if at < self.list.len() && self.list[at].pid == child.pid {
            self.list[at] = child;
            proof {
                lemma_index_of(before, at as int);
                assert(self@ =~= before.update(at as int, child));
                assert forall|i: int, j: int| 0 <= i < j < self@.len() implies (#[trigger] self@[i]).pid < (
                #[trigger] self@[j]).pid by {
                    assert(self@[i].pid == before[i].pid);
                    assert(self@[j].pid == before[j].pid);
                }
            }
        } else {
            self.list.insert(at, child);
            proof {
                assert(index_of(before, child.pid) is None) by {
                    if index_of(before, child.pid) is Some {
                        let k = index_of(before, child.pid).unwrap();
                        if k < at {
                            assert(before[k].pid < child.pid);
                        } else {
                            assert(before[k].pid >= child.pid);
                            if at < before.len() && k > at {
                                assert(before[at as int].pid < before[k].pid);
                            }
                        }
                    }
                }
                assert forall|i: int, j: int| 0 <= i < j < self@.len() implies (#[trigger] self@[i]).pid < (
                #[trigger] self@[j]).pid by {
                    let bi = if i < at { i } else { i - 1 };
                    let bj = if j < at { j } else { j - 1 };
                    if i != at && j != at {
                        assert(before[bi].pid < before[bj].pid);
                    } else if i == at {
                        assert(self@[j] == before[bj]);
                        assert(before[bj].pid >= child.pid);
                        if at < before.len() && bj > at {
                            assert(before[at as int].pid < before[bj].pid);
                        }
                    } else {
                        assert(self@[i] == before[bi]);
                    }
                }
            }
        }
        proof {
            let now = self@;
            assert(now[at as int] == child);
            lemma_index_of(now, at as int);
            assert forall|pid: Pid| pid != child.pid implies (index_of(before, pid) is Some <==> #[trigger] index_of(
                now,
                pid,
            ) is Some) by {
                if index_of(before, pid) is Some {
                    let k = index_of(before, pid).unwrap();
                    if now.len() == before.len() {
                        assert(now[k].pid == pid);
                    } else {
                        let nk = if k < at { k } else { k + 1 };
                        assert(now[nk] == before[k]);
                    }
                }
                if index_of(now, pid) is Some {
                    let k = index_of(now, pid).unwrap();
                    if now.len() == before.len() {
                        assert(before[k].pid == pid);
                    } else {
                        let bk = if k < at { k } else { k - 1 };
                        assert(now[k] == before[bk]);
                    }
                }
            }
        }
    }

    /// Takes note of a child that has ended, for a process that waits for
    /// `pid`, or for any child if `pid` is none, and takes that child from
    /// the children. On any failure the children stay as they are.
    pub fn try_wait(&mut self, pid: Option<Pid>) -> (r: Result<(Pid, u32), Error>)
        requires
            old(self).wf(),
        ensures
            final(self).wf(),
            r == wait_result(old(self)@, pid),
            r is Err ==> final(self)@ == old(self)@,
            r is Ok ==> final(self)@ == old(self)@.remove(waited_for(old(self)@, pid).unwrap()),
    {
        if self.list.len() == 0 {
            return Err(Error::new(Errno::ECHILD));
        }
        let n: usize = self.list.len();
        let mut wait_idx: Option<usize> = None;
        match pid {
            Some(pid) => {
                let at = self.rank(pid);
                if at < n && self.list[at].pid == pid {
                    proof {
                        lemma_index_of(self@, at as int);
                    }
                    if self.list[at].is_zombie() {
                        wait_idx = Some(at);
                    }
                } else {
                    proof {
                        if index_of(self@, pid) is Some {
                            let k = index_of(self@, pid).unwrap();
                            if k < at {
                                assert(self@[k].pid < pid);
                            } else if k > at {
                                assert(self@[at as int].pid < self@[k].pid);
                            }
                        }
                    }
                    return Err(Error::new(Errno::ECHILD));
                }
            },
            None => {
                let mut i: usize = 0;
                while i < n
                    invariant_except_break
                        wait_idx is None,
                        forall|k: int| 0 <= k < i ==> !(#[trigger] self@[k]).is_zombie(),
                    invariant
                        i <= n,
                        n == self@.len(),
                    ensures
                        match wait_idx {
                            Some(w) => first_zombie(self@) == Some(w as int) && w < n && self@[w as int].is_zombie(),
                            None => first_zombie(self@) is None,
                        },
                    decreases n - i,
                {
                    if self.list[i].is_zombie() {
                        wait_idx = Some(i);
                        proof {
                            lemma_first_zombie(self@, i as int);
                        }
                        break ;
                    }
                    i += 1;
                }
            },
        }
        match wait_idx {
            Some(at) => {
                let ghost before = self@;
                let child = self.list.remove(at);
                proof {
                    assert forall|i: int, j: int| 0 <= i < j < self@.len() implies (#[trigger] self@[i]).pid
                        < (#[trigger] self@[j]).pid by {
                        let bi = if i < at { i } else { i + 1 };
                        let bj = if j < at { j } else { j + 1 };
                        assert(before[bi].pid < before[bj].pid);
                    }
                }
                match child.exit_code {
                    Some(code) => Ok((child.pid, code)),
                    None => Err(Error::new(Errno::EAGAIN)),
                }
            },
            None => Err(Error::new(Errno::EAGAIN)),
        }
    }

    /// Hands all children over to `init`, the children of the first process,
    /// as is done when a process ends. Nothing happens for the first process
    /// itself, whose id `pid` is then 1.
    pub fn reparent_children_to_init(&mut self, pid: Pid, init: &mut Children)
        requires
            old(self).wf(),
            old(init).wf(),
        ensures
            final(self).wf(),
            final(init).wf(),
            pid == INIT_PROCESS_ID ==> final(self)@ == old(self)@ && final(init)@ == old(init)@,
            pid != INIT_PROCESS_ID ==> {
                &&& final(self)@.len() == 0
                &&& forall|child: Pid| #[trigger]
                    index_of(final(init)@, child) is Some <==> index_of(old(init)@, child) is Some
                        || index_of(old(self)@, child) is Some
                &&& forall|i: int|
                    0 <= i < old(self)@.len() ==> final(init)@[index_of(
                        final(init)@,
                        (#[trigger] old(self)@[i]).pid,
                    ).unwrap()] == old(self)@[i]
                &&& forall|i: int|
                    0 <= i < old(init)@.len() && index_of(old(self)@, (#[trigger] old(init)@[i]).pid)
                        is None ==> final(init)@[index_of(final(init)@, old(init)@[i].pid).unwrap()]
                        == old(init)@[i]
            },
    {
        if pid == INIT_PROCESS_ID || self.list.len() == 0 {
            proof {
                assert forall|i: int| 0 <= i < init@.len() implies init@[index_of(
                    init@,
                    (#[trigger] init@[i]).pid,
                ).unwrap()] == init@[i] by {
                    lemma_index_of(init@, i);
                }
            }
            return ;
        }
        let n: usize = self.list.len();
        let mut i: usize = 0;
        proof {
            assert forall|k: int| 0 <= k < init@.len() implies index_of(init@, (#[trigger] init@[k]).pid)
                is Some && init@[index_of(init@, init@[k].pid).unwrap()] == init@[k] by {
                lemma_index_of(init@, k);
            }
        }
        while i < n
            invariant
                i <= n,
                n == self@.len(),
                self@ == old(self)@,
                self.wf(),
                init.wf(),
                forall|child: Pid| #[trigger]
                    index_of(init@, child) is Some <==> index_of(old(init)@, child) is Some || exists|k: int|
                        0 <= k < i && (#[trigger] self@[k]).pid == child,
                forall|k: int|
                    0 <= k < i ==> init@[index_of(init@, (#[trigger] self@[k]).pid).unwrap()] == self@[k],
                forall|k: int|
                    0 <= k < old(init)@.len() && index_of(old(self)@, (#[trigger] old(init)@[k]).pid)
                        is None ==> index_of(init@, old(init)@[k].pid) is Some && init@[index_of(
                        init@,
                        old(init)@[k].pid,
                    ).unwrap()] == old(init)@[k],
            decreases n - i,
        {
            let child = self.list[i];
            let ghost before = init@;
            init.insert(child);
            proof {
                lemma_index_of(self@, i as int);
                assert forall|k: int|
                    0 <= k < old(init)@.len() && index_of(old(self)@, (#[trigger] old(init)@[k]).pid)
                        is None implies index_of(init@, old(init)@[k].pid) is Some && init@[index_of(
                    init@,
                    old(init)@[k].pid,
                ).unwrap()] == old(init)@[k] by {
                    lemma_insert_keeps(before, init@, child, old(init)@[k].pid);
                }
                assert forall|pid: Pid| #[trigger]
                    index_of(init@, pid) is Some <==> index_of(old(init)@, pid) is Some || exists|k: int|
                        0 <= k < i + 1 && (#[trigger] self@[k]).pid == pid by {
                    if pid == child.pid {
                        assert(self@[i as int].pid == pid);
                    } else {
                        assert(index_of(before, pid) is Some <==> index_of(init@, pid) is Some);
                        if exists|k: int| 0 <= k < i + 1 && (#[trigger] self@[k]).pid == pid {
                            let k = choose|k: int| 0 <= k < i + 1 && (#[trigger] self@[k]).pid == pid;
                            assert(k < i);
                        }
                    }
                }
                assert forall|k: int| 0 <= k < i + 1 implies init@[index_of(
                    init@,
                    (#[trigger] self@[k]).pid,
                ).unwrap()] == self@[k] by {
                    if k < i {
                        assert(self@[k].pid < self@[i as int].pid);
                        lemma_insert_keeps(before, init@, child, self@[k].pid);
                    }
                }
            }
            i += 1;
        }
        proof {
            assert forall|child: Pid| #[trigger]
                index_of(init@, child) is Some <==> index_of(old(init)@, child) is Some || index_of(
                    old(self)@,
                    child,
                ) is Some by {
                if index_of(old(self)@, child) is Some {
                    let k = index_of(old(self)@, child).unwrap();
                    assert(self@[k].pid == child);
                }
            }
        }
        self.list.clear();
    }
}

/// In a list of children with rising ids, the child at index `i` is the one
/// that `index_of` finds for its id.
pub proof fn lemma_index_of(children: Seq<Child>, i: int)
    requires
        ascending(children),
        0 <= i < children.len(),
    ensures
        index_of(children, children[i].pid) == Some(i),
{
    let k = index_of(children, children[i].pid).unwrap();
    if k < i {
        assert(children[k].pid < children[i].pid);
    }
    if i < k {
        assert(children[i].pid < children[k].pid);
    }
}

/// The zombie before which no child is a zombie is the first zombie.
pub proof fn lemma_first_zombie(children: Seq<Child>, i: int)
    requires
        0 <= i < children.len(),
        children[i].is_zombie(),
        forall|j: int| 0 <= j < i ==> !(#[trigger] children[j]).is_zombie(),
    ensures
        first_zombie(children) == Some(i),
{
    let k = first_zombie(children).unwrap();
    assert(0 <= k < children.len() && children[k].is_zombie() && forall|j: int|
        0 <= j < k ==> !(#[trigger] children[j]).is_zombie());
    if k < i {
        assert(!children[k].is_zombie());
    }
    if i < k {
        assert(!children[i].is_zombie());
    }
}

/// A child that was among the children before another was put among them is
/// still among them, unchanged.
pub proof fn lemma_insert_keeps(before: Seq<Child>, after: Seq<Child>, child: Child, pid: Pid)
    requires
        ascending(before),
        ascending(after),
        pid != child.pid,
        index_of(before, pid) is Some,
        match index_of(before, child.pid) {
            Some(i) => after == before.update(i, child),
            None => exists|at: int| 0 <= at <= before.len() && after == #[trigger] before.insert(at, child),
        },
    ensures
        index_of(after, pid) is Some,
        after[index_of(after, pid).unwrap()] == before[index_of(before, pid).unwrap()],
{
    let k = index_of(before, pid).unwrap();
    match index_of(before, child.pid) {
        Some(i) => {
            assert(after[k] == before[k]);
            lemma_index_of(after, k);
        },
        None => {
            let at = choose|at: int| 0 <= at <= before.len() && after == #[trigger] before.insert(at, child);
            let nk = if k < at { k } else { k + 1 };
            assert(after[nk] == before[k]);
            lemma_index_of(after, nk);
        },
    }
}

} // verus!
