//! Round-robin scheduling with time slices.

use std::collections::VecDeque;
use vstd::prelude::*;

verus! {

/// The time for which a task may run before it gives way, counted in timer
/// ticks.
#[derive(Clone, Copy, Debug, PartialEq, Eq, Structural)]
pub struct TimeSlice {
    /// The ticks that the task has used of its slice.
    pub tick: usize,
    /// The length of the slice, in ticks. A slice of no ticks never ends.
    pub max_tick: usize,
}

impl TimeSlice {
    /// The invariant of a slice: not all of it is used.
    pub open spec fn wf(&self) -> bool {
        self.tick < self.max_tick || self.tick == 0
    }

    /// The slice after one more tick.
    pub open spec fn ticked(&self) -> TimeSlice {
        if self.max_tick == 0 {
            *self
        } else {
            TimeSlice { tick: ((self.tick + 1) % (self.max_tick as int)) as usize, max_tick: self.max_tick }
        }
    }

    /// The slice after `n` ticks.
    pub open spec fn ticked_n(&self, n: nat) -> TimeSlice
        decreases n,
    {
        if n == 0 {
            *self
        } else {
            self.ticked_n((n - 1) as nat).ticked()
        }
    }

    /// Whether the slice has just ended: it has a length, and the count has
    /// started anew.
    pub open spec fn ended(&self) -> bool {
        self.max_tick != 0 && self.tick == 0
    }

    /// A slice of `max_tick` ticks, none of them used.
    pub fn new(max_tick: usize) -> (slice: TimeSlice)
        ensures
            slice == (TimeSlice { tick: 0, max_tick }),
            slice.wf(),
    {
        Self { tick: 0, max_tick }
    }

    /// Counts one tick, and says whether the slice is used up with it. The
    /// count then starts anew.
    pub fn elapse(&mut self) -> (ended: bool)
        requires
            old(self).wf(),
        ensures
            final(self).wf(),
            *final(self) == old(self).ticked(),
            ended == final(self).ended(),
    {
        if self.max_tick == 0 {
            return false;
        }
        self.tick = (self.tick + 1) % self.max_tick;

        self.tick == 0
    }

    /// A fresh slice of `max_tick` ticks has used `n % max_tick` ticks after
    /// `n` ticks: it ends with every `max_tick`-th tick and with no other.
    pub proof fn lemma_slice_ends_every_max_tick(max_tick: usize, n: nat)
        requires
            max_tick > 0,
        ensures
            (TimeSlice { tick: 0, max_tick }).ticked_n(n) == (TimeSlice {
                tick: (n % (max_tick as nat)) as usize,
                max_tick,
            }),
            n > 0 ==> ((TimeSlice { tick: 0, max_tick }).ticked_n(n).ended() <==> n % (max_tick as nat) == 0),
        decreases n,
    {
        let m = max_tick as int;
        vstd::arithmetic::div_mod::lemma_mod_bound(n as int, m);
        if n == 0 {
            vstd::arithmetic::div_mod::lemma_small_mod(0, m as nat);
        }
        if n > 0 {
            Self::lemma_slice_ends_every_max_tick(max_tick, (n - 1) as nat);
            let before = (n - 1) % m;
            vstd::arithmetic::div_mod::lemma_mod_bound(n - 1, m);
            vstd::arithmetic::div_mod::lemma_add_mod_noop(n - 1, 1, m);
            assert((before + 1int % m) % m == (n as int) % m);
            assert((n % (max_tick as nat)) as int == (n as int) % m);
            assert((TimeSlice { tick: 0, max_tick }).ticked_n((n - 1) as nat).tick == before);
            if m == 1 {
                assert(before == 0);
                assert((n as int) % 1 == 0);
                assert((before + 1) % 1 == 0);
            } else {
                vstd::arithmetic::div_mod::lemma_small_mod(1, m as nat);
            }
            assert((before + 1) % m == (n as int) % m);
        }
    }
}

/// Why the scheduler looks at the running task.
#[derive(Clone, Copy, Debug, PartialEq, Eq, Structural)]
pub enum UpdateFlags {
    /// The timer ticked.
    Tick,
    /// The task is about to sleep.
    Wait,
    /// The task gives way of its own accord.
    Yield,
    /// The task is about to end.
    Exit,
}

/// A task in the hands of the scheduler.
#[derive(Debug)]
pub struct Entity<T> {
    pub task: T,
    pub time_slice: TimeSlice,
}

/// The tasks of one processor: the one that runs, and those that wait for
/// their turn, the next one first.
#[derive(Debug)]
pub struct RrRunQueue<T> {
    current: Option<Entity<T>>,
    entities: VecDeque<Entity<T>>,
}

impl<T> RrRunQueue<T> {
    /// The task that runs, with its slice.
    pub closed spec fn running(&self) -> Option<Entity<T>> {
        self.current
    }

    /// The tasks that wait, the next one first.
    pub closed spec fn waiting(&self) -> Seq<Entity<T>> {
        self.entities@
    }

    /// The invariant of a run queue: no slice is used up.
    pub open spec fn wf(&self) -> bool {
        &&& self.running() matches Some(entity) ==> entity.time_slice.wf()
        &&& forall|i: int| 0 <= i < self.waiting().len() ==> (#[trigger] self.waiting()[i]).time_slice.wf()
    }

    /// A run queue without tasks.
    pub fn new() -> (queue: Self)
        ensures
            queue.wf(),
            queue.running() is None,
            queue.waiting() == Seq::<Entity<T>>::empty(),
    {
        RrRunQueue { current: None, entities: VecDeque::new() }
    }

    /// Puts `task` behind the tasks that wait, with a fresh slice of
    /// `max_tick` ticks.
    pub fn push(&mut self, task: T, max_tick: usize)
        requires
            old(self).wf(),
        ensures
            final(self).wf(),
            final(self).running() == old(self).running(),
            final(self).waiting() == old(self).waiting().push(
                Entity { task, time_slice: TimeSlice { tick: 0, max_tick } },
            ),
    {
        self.entities.push_back(Entity { task, time_slice: TimeSlice::new(max_tick) });
        proof {
            assert forall|i: int| 0 <= i < self.waiting().len() implies (
            #[trigger] self.waiting()[i]).time_slice.wf() by {
                if i < old(self).waiting().len() {
                    assert(self.waiting()[i] == old(self).waiting()[i]);
                }
            }
        }
    }

    /// The task that runs.
    pub fn current(&self) -> (task: Option<&T>)
        ensures
            match self.running() {
                Some(entity) => task == Some(&entity.task),
                None => task is None,
            },
    {
        match &self.current {
            Some(entity) => Some(&entity.task),
            None => None,
        }
    }

    /// Looks at the running task for the reason `flags`, and says whether it
    /// is to give way. On a tick it gives way when its slice is used up with
    /// that tick, and never if no task runs; for any other reason it gives
    /// way at once.
    pub fn update_current(&mut self, flags: UpdateFlags) -> (reschedule: bool)
        requires
            old(self).wf(),
        ensures
            final(self).wf(),
            final(self).waiting() == old(self).waiting(),
            flags != UpdateFlags::Tick ==> reschedule && final(self).running() == old(self).running(),
            flags == UpdateFlags::Tick ==> match old(self).running() {
                None => !reschedule && final(self).running() is None,
                Some(entity) => {
                    &&& final(self).running() == Some(
                        Entity { task: entity.task, time_slice: entity.time_slice.ticked() },
                    )
                    &&& reschedule == entity.time_slice.ticked().ended()
                },
            },
    {
        let reschedule = match flags {
            UpdateFlags::Tick => {
                match self.current.as_mut() {
                    None => false,
                    Some(entity) => entity.time_slice.elapse(),
                }
            },
            _ => true,
        };
        proof {
            assert forall|i: int| 0 <= i < self.waiting().len() implies (
            #[trigger] self.waiting()[i]).time_slice.wf() by {
                assert(self.waiting()[i] == old(self).waiting()[i]);
            }
        }
        reschedule
    }

    /// Takes the running task off the processor.
    pub fn dequeue_current(&mut self) -> (task: Option<T>)
        requires
            old(self).wf(),
        ensures
            final(self).wf(),
            final(self).running() is None,
            final(self).waiting() == old(self).waiting(),
            match old(self).running() {
                Some(entity) => task == Some(entity.task),
                None => task is None,
            },
    {
        let task = match self.current.take() {
            Some(entity) => Some(entity.task),
            None => None,
        };
        proof {
            assert forall|i: int| 0 <= i < self.waiting().len() implies (
            #[trigger] self.waiting()[i]).time_slice.wf() by {
                assert(self.waiting()[i] == old(self).waiting()[i]);
            }
        }
        task
    }

    /// Gives the processor to the task that has waited longest, and puts the
    /// task that ran behind the others. Where no task waits, nothing
    /// changes.
    pub fn try_pick_next(&mut self) -> (task: Option<&T>)
        requires
            old(self).wf(),
        ensures
            final(self).wf(),
            old(self).waiting().len() == 0 ==> {
                &&& task is None
                &&& final(self).running() == old(self).running()
                &&& final(self).waiting() == old(self).waiting()
            },
            old(self).waiting().len() > 0 ==> {
                &&& final(self).running() == Some(old(self).waiting()[0])
                &&& task == Some(&old(self).waiting()[0].task)
                &&& final(self).waiting() == match old(self).running() {
                    Some(entity) => old(self).waiting().drop_first().push(entity),
                    None => old(self).waiting().drop_first(),
                }
            },
    {
        let next = match self.entities.pop_front() {
            Some(next) => next,
            None => {
                return None;
            },
        };
        let previous = self.current.take();
        self.current = Some(next);
        if let Some(current_task) = previous {
            self.entities.push_back(current_task);
        }
        match &self.current {
            Some(entity) => Some(&entity.task),
            None => None,
        }
    }
}

/// The round-robin scheduler: each task runs for its slice, then the next.
#[derive(Debug)]
pub struct RrScheduler<T> {
    run_queue: RrRunQueue<T>,
}

impl<T> RrScheduler<T> {
    /// The run queue.
    pub closed spec fn queue(&self) -> RrRunQueue<T> {
        self.run_queue
    }

    /// The length of the slice of a task, in ticks: ten for each unit of
    /// the process id, and ten for a task that belongs to no process.
    pub open spec fn slice_of(pid: Option<usize>) -> int {
        match pid {
            Some(pid) => pid * 10,
            None => 10,
        }
    }

    /// A scheduler without tasks.
    pub fn new() -> (scheduler: Self)
        ensures
            scheduler.queue().wf(),
            scheduler.queue().running() is None,
            scheduler.queue().waiting() == Seq::<Entity<T>>::empty(),
    {
        RrScheduler { run_queue: RrRunQueue::new() }
    }

    /// Takes in a task that can run; `pid` is the id of its process, if it
    /// belongs to one. The task is put behind those that wait, and no
    /// processor is asked to look at it.
    pub fn enqueue(&mut self, runnable: T, pid: Option<usize>) -> (cpu: Option<u32>)
        requires
            old(self).queue().wf(),
            Self::slice_of(pid) <= usize::MAX,
        ensures
            cpu is None,
            final(self).queue().wf(),
            final(self).queue().running() == old(self).queue().running(),
            final(self).queue().waiting() == old(self).queue().waiting().push(
                Entity { task: runnable, time_slice: TimeSlice { tick: 0, max_tick: Self::slice_of(pid) as usize } },
            ),
    {
        let pid: usize = match pid {
            Some(pid) => pid,
            None => 1,
        };
        self.run_queue.push(runnable, pid * 10);
        None
    }

    /// The run queue of this processor.
    pub fn local_rq(&self) -> (queue: &RrRunQueue<T>)
        ensures
            *queue == self.queue(),
    {
        &self.run_queue
    }

    /// The run queue of this processor, to be changed in place.
    pub fn mut_local_rq(&mut self) -> (queue: &mut RrRunQueue<T>)
        ensures
            *queue == old(self).queue(),
            final(self).queue() == *final(queue),
    {
        &mut self.run_queue
    }
}

} // verus!
