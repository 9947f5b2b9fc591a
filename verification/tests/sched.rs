use pagefault::sched::rr::{RrRunQueue, RrScheduler, TimeSlice, UpdateFlags};
use pagefault::sem::Semaphore;

#[test]
fn time_slice_ends_every_max_tick() {
    let mut slice = TimeSlice::new(3);
    assert_eq!(slice, TimeSlice { tick: 0, max_tick: 3 });
    let ended: Vec<bool> = (0..7).map(|_| slice.elapse()).collect();
    assert_eq!(ended, [false, false, true, false, false, true, false]);
    assert_eq!(slice.tick, 1);
    assert_eq!(slice.max_tick, 3);
}

#[test]
fn time_slice_of_one_tick_ends_with_each_tick() {
    let mut slice = TimeSlice::new(1);
    assert!(slice.elapse());
    assert!(slice.elapse());
    assert_eq!(slice.tick, 0);
}

#[test]
fn time_slice_without_length_never_ends() {
    let mut slice = TimeSlice::new(0);
    for _ in 0..5 {
        assert!(!slice.elapse());
    }
    assert_eq!(slice, TimeSlice { tick: 0, max_tick: 0 });
}

#[test]
fn run_queue_rotates_its_tasks() {
    let mut queue: RrRunQueue<&str> = RrRunQueue::new();
    assert_eq!(queue.current(), None);
    assert_eq!(queue.try_pick_next(), None);
    queue.push("a", 2);
    queue.push("b", 2);
    queue.push("c", 2);
    assert_eq!(queue.current(), None);
    assert_eq!(queue.try_pick_next(), Some(&"a"));
    assert_eq!(queue.current(), Some(&"a"));
    assert_eq!(queue.try_pick_next(), Some(&"b"));
    assert_eq!(queue.try_pick_next(), Some(&"c"));
    // "a" went behind "c" when "b" took over.
    assert_eq!(queue.try_pick_next(), Some(&"a"));
    assert_eq!(queue.dequeue_current(), Some("a"));
    assert_eq!(queue.current(), None);
    assert_eq!(queue.dequeue_current(), None);
    assert_eq!(queue.try_pick_next(), Some(&"b"));
    assert_eq!(queue.try_pick_next(), Some(&"c"));
    assert_eq!(queue.try_pick_next(), Some(&"b"));
}

#[test]
fn lone_task_keeps_the_processor() {
    let mut queue: RrRunQueue<u32> = RrRunQueue::new();
    queue.push(7, 1);
    assert_eq!(queue.try_pick_next(), Some(&7));
    assert_eq!(queue.try_pick_next(), None);
    assert_eq!(queue.current(), Some(&7));
}

#[test]
fn update_current_counts_ticks_of_the_running_task() {
    let mut queue: RrRunQueue<u32> = RrRunQueue::new();
    // No task runs: a tick asks for nothing, anything else for a new choice.
    assert!(!queue.update_current(UpdateFlags::Tick));
    assert!(queue.update_current(UpdateFlags::Yield));
    queue.push(1, 2);
    queue.push(2, 3);
    queue.try_pick_next();
    assert!(!queue.update_current(UpdateFlags::Tick));
    assert!(queue.update_current(UpdateFlags::Tick));
    assert!(!queue.update_current(UpdateFlags::Tick));
    assert!(queue.update_current(UpdateFlags::Wait));
    assert!(queue.update_current(UpdateFlags::Exit));
    // The slice of the task that waits is its own.
    queue.try_pick_next();
    assert!(!queue.update_current(UpdateFlags::Tick));
    assert!(!queue.update_current(UpdateFlags::Tick));
    assert!(queue.update_current(UpdateFlags::Tick));
    // Back to the first task, whose count went on while it ran.
    queue.try_pick_next();
    assert!(queue.update_current(UpdateFlags::Tick));
}

#[test]
fn scheduler_gives_ten_ticks_for_each_unit_of_the_pid() {
    let mut scheduler: RrScheduler<&str> = RrScheduler::new();
    assert_eq!(scheduler.enqueue("init", Some(1)), None);
    assert_eq!(scheduler.enqueue("shell", Some(2)), None);
    assert_eq!(scheduler.enqueue("idle", None), None);
    assert_eq!(scheduler.local_rq().current(), None);
    let queue = scheduler.mut_local_rq();
    for (name, ticks) in [("init", 10), ("shell", 20), ("idle", 10)] {
        assert_eq!(queue.try_pick_next(), Some(&name));
        for _ in 1..ticks {
            assert!(!queue.update_current(UpdateFlags::Tick));
        }
        assert!(queue.update_current(UpdateFlags::Tick));
    }
}

#[test]
fn test_semaphore_basic() {
    let mut sem = Semaphore::new(2);

    let g1 = sem.try_acquire();
    assert!(g1.is_some());
    let g2 = sem.try_acquire();
    assert!(g2.is_some());

    let g3 = sem.try_acquire();
    assert!(g3.is_none());

    let mut g1 = g1.unwrap();
    assert!(!g1.released());
    assert!(sem.drop_guard(&mut g1));
    assert!(g1.released());

    let g4 = sem.try_acquire();
    assert!(g4.is_some());
    assert_eq!(sem.count(), 0);
}

#[test]
fn semaphore_guard_gives_back_once() {
    let mut sem = Semaphore::new(1);
    let mut guard = sem.try_acquire().unwrap();
    assert_eq!(sem.count(), 0);
    assert!(sem.drop_guard(&mut guard));
    assert!(!sem.drop_guard(&mut guard));
    assert_eq!(sem.count(), 1);
}

#[test]
fn semaphore_counts_units() {
    let mut sem = Semaphore::new(0);
    assert!(sem.try_acquire().is_none());
    assert_eq!(sem.count(), 0);
    sem.release();
    sem.release();
    assert_eq!(sem.count(), 2);
    assert!(sem.try_acquire().is_some());
    assert!(sem.try_acquire().is_some());
    assert!(sem.try_acquire().is_none());
    assert_eq!(sem.count(), 0);
}
