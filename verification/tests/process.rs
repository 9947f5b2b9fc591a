use pagefault::error::{Errno, Error};
use pagefault::process::{
    image_pages, on_user_exception, wait_target, Child, Children, ExceptionAction, PidAllocator, Status,
};
use pagefault::syscall::prlimit::{sys_prlimit64, RLimit64, RLIMIT_AS, RLIMIT_STACK};
use pagefault::syscall::{return_value, sys_reboot, Reboot, Syscall, SyscallReturn, RB_POWER_OFF};
use riscv::interrupt::supervisor::Exception;

fn zombie(pid: usize, code: u32) -> Child {
    Child { pid, exit_code: Some(code) }
}

fn running(pid: usize) -> Child {
    Child { pid, exit_code: None }
}

fn children(list: &[Child]) -> Children {
    let mut children = Children::new();
    for child in list {
        children.insert(*child);
    }
    children
}

#[test]
fn pids_count_up_from_one() {
    let mut pids = PidAllocator::new();
    assert_eq!(pids.alloc_pid(), 1);
    assert_eq!(pids.alloc_pid(), 2);
    assert_eq!(pids.alloc_pid(), 3);
}

#[test]
fn program_image_takes_whole_pages() {
    assert_eq!(image_pages(0), 0);
    assert_eq!(image_pages(1), 1);
    assert_eq!(image_pages(4096), 1);
    assert_eq!(image_pages(4097), 2);
    assert_eq!(image_pages(3 * 4096 - 1), 3);
}

#[test]
fn status_numbers() {
    for (status, number) in [(Status::Uninit, 0), (Status::Runnable, 1), (Status::Zombie, 2)] {
        assert_eq!(status.number(), number);
        assert_eq!(Status::from_number(number), Some(status));
    }
    assert_eq!(Status::from_number(3), None);
    assert_eq!(Status::from_number(u64::MAX), None);
}

#[test]
fn user_exceptions() {
    assert_eq!(on_user_exception(Exception::IllegalInstruction), ExceptionAction::SkipInstruction);
    assert_eq!(on_user_exception(Exception::StorePageFault), ExceptionAction::ResolvePageFault);
    assert_eq!(on_user_exception(Exception::LoadPageFault), ExceptionAction::ResolvePageFault);
    assert_eq!(on_user_exception(Exception::InstructionPageFault), ExceptionAction::ResolvePageFault);
    assert_eq!(on_user_exception(Exception::LoadFault), ExceptionAction::Kill);
    assert_eq!(on_user_exception(Exception::Breakpoint), ExceptionAction::Kill);
    assert_eq!(on_user_exception(Exception::UserEnvCall), ExceptionAction::Kill);
}

#[test]
fn wait_target_of_the_argument() {
    assert_eq!(wait_target(-1), None);
    assert_eq!(wait_target(0), Some(0));
    assert_eq!(wait_target(5), Some(5));
    assert_eq!(wait_target(-5), Some(5));
    assert_eq!(wait_target(i32::MAX), Some(i32::MAX as usize));
    assert_eq!(wait_target(i32::MIN + 1), Some(i32::MAX as usize));
}

#[test]
fn children_are_kept_in_the_order_of_their_ids() {
    let list = children(&[running(5), zombie(2, 0), running(9), running(3)]);
    let pids: Vec<usize> = list.as_vec().iter().map(|c| c.pid).collect();
    assert_eq!(pids, [2, 3, 5, 9]);
    assert_eq!(list.rank(1), 0);
    assert_eq!(list.rank(3), 1);
    assert_eq!(list.rank(4), 2);
    assert_eq!(list.rank(10), 4);
    assert!(!list.is_empty());
    assert!(Children::new().is_empty());
}

#[test]
fn insert_replaces_the_child_with_the_same_id() {
    let mut list = children(&[running(2), running(3)]);
    list.insert(zombie(3, 7));
    assert_eq!(list.as_vec().as_slice(), &[running(2), zombie(3, 7)]);
}

#[test]
fn wait_without_children_fails() {
    let mut list = Children::new();
    assert_eq!(list.try_wait(None), Err(Error::new(Errno::ECHILD)));
    assert_eq!(list.try_wait(Some(1)), Err(Error::new(Errno::ECHILD)));
}

#[test]
fn wait_for_a_child_by_id() {
    let mut list = children(&[running(2), zombie(3, 42), zombie(4, 1)]);
    assert_eq!(list.try_wait(Some(7)), Err(Error::new(Errno::ECHILD)));
    assert_eq!(list.try_wait(Some(2)), Err(Error::new(Errno::EAGAIN)));
    assert_eq!(list.as_vec().len(), 3);
    assert_eq!(list.try_wait(Some(4)), Ok((4, 1)));
    assert_eq!(list.as_vec().as_slice(), &[running(2), zombie(3, 42)]);
    assert_eq!(list.try_wait(Some(4)), Err(Error::new(Errno::ECHILD)));
}

#[test]
fn wait_for_any_child_takes_the_first_zombie() {
    let mut list = children(&[running(2), zombie(8, 3), zombie(5, 9), running(6)]);
    assert_eq!(list.try_wait(None), Ok((5, 9)));
    assert_eq!(list.try_wait(None), Ok((8, 3)));
    assert_eq!(list.try_wait(None), Err(Error::new(Errno::EAGAIN)));
    assert_eq!(list.as_vec().as_slice(), &[running(2), running(6)]);
}

#[test]
fn children_of_a_process_that_exits_go_to_init() {
    let mut init = children(&[running(2), running(7)]);
    let mut mine = children(&[running(9), zombie(4, 1), running(7)]);
    mine.reparent_children_to_init(3, &mut init);
    assert!(mine.is_empty());
    assert_eq!(init.as_vec().as_slice(), &[running(2), zombie(4, 1), running(7), running(9)]);

    // The first process keeps its children.
    let mut other = Children::new();
    init.reparent_children_to_init(1, &mut other);
    assert_eq!(init.as_vec().len(), 4);
    assert!(other.is_empty());

    // A process without children changes nothing.
    mine.reparent_children_to_init(3, &mut init);
    assert_eq!(init.as_vec().len(), 4);
}

#[test]
fn syscall_numbers() {
    let table = [
        (56, Syscall::Openat),
        (59, Syscall::Pipe2),
        (63, Syscall::Read),
        (64, Syscall::Write),
        (66, Syscall::Writev),
        (93, Syscall::Exit),
        (94, Syscall::Exit),
        (113, Syscall::ClockGettime),
        (124, Syscall::SchedYield),
        (142, Syscall::Reboot),
        (160, Syscall::Newuname),
        (172, Syscall::Getpid),
        (173, Syscall::Getppid),
        (214, Syscall::Brk),
        (220, Syscall::Clone),
        (221, Syscall::Execve),
        (222, Syscall::Mmap),
        (226, Syscall::Mprotect),
        (260, Syscall::Wait4),
        (261, Syscall::Prlimit64),
    ];
    for (number, call) in table {
        assert_eq!(Syscall::from_number(number), Ok(call));
    }
    for number in [0, 1000, 57, usize::MAX] {
        assert_eq!(Syscall::from_number(number), Err(Error::new(Errno::ENOSYS)));
    }
}

#[test]
fn syscall_results_in_the_register() {
    assert_eq!(return_value(Ok(SyscallReturn(0))), 0);
    assert_eq!(return_value(Ok(SyscallReturn(4096))), 4096);
    assert_eq!(return_value(Ok(SyscallReturn(-1))), usize::MAX);
    assert_eq!(return_value(Ok(SyscallReturn(isize::MIN))), isize::MIN as usize);
    assert_eq!(return_value(Ok(SyscallReturn(isize::MAX))), isize::MAX as usize);
    assert_eq!(return_value(Err(Error::new(Errno::EINVAL))), (-22isize) as usize);
    assert_eq!(return_value(Err(Error::new(Errno::ENOSYS))), (-38isize) as usize);
    assert_eq!(return_value(Err(Error::new(Errno::ENOENT))), usize::MAX - 1);
}

#[test]
fn reboot_wants_the_power_off_command() {
    assert_eq!(sys_reboot(RB_POWER_OFF), Ok(Reboot::PowerOff));
    assert_eq!(sys_reboot(0x4321FEDC), Ok(Reboot::PowerOff));
    assert_eq!(sys_reboot(0), Err(Error::new(Errno::EINVAL)));
    assert_eq!(sys_reboot(0x01234567), Err(Error::new(Errno::EINVAL)));
}

#[test]
fn prlimit_reports_limits() {
    let unlimited = RLimit64 { cur: u64::MAX, max: u64::MAX };
    let stack = RLimit64 { cur: 8 * 1024 * 1024, max: 8 * 1024 * 1024 };
    assert_eq!(sys_prlimit64(0, RLIMIT_STACK, 0, 0x1000), Ok((SyscallReturn(0), Some(stack))));
    assert_eq!(sys_prlimit64(0, RLIMIT_AS, 0, 0x1000), Ok((SyscallReturn(0), Some(unlimited))));
    assert_eq!(sys_prlimit64(0, 77, 0x2000, 0x1000), Ok((SyscallReturn(0), Some(unlimited))));
    assert_eq!(sys_prlimit64(0, RLIMIT_STACK, 0x2000, 0), Ok((SyscallReturn(0), None)));
    assert_eq!(sys_prlimit64(1, RLIMIT_STACK, 0, 0x1000), Err(Error::new(Errno::EINVAL)));
    assert_eq!(sys_prlimit64(-1, RLIMIT_STACK, 0, 0), Err(Error::new(Errno::EINVAL)));
}
