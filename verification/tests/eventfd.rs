use shadow_host::errno::{Errno, SyscallError};
use shadow_host::eventfd::EventFd;
use shadow_host::events::{Event, EventQueue, NewStatusListenerFilter, Target};
use shadow_host::flags::{FileMode, FileState, FileStatus};

fn failed<T>(errno: Errno) -> Result<T, SyscallError> {
    Err(SyscallError::Failed(errno))
}

fn drain(queue: &mut EventQueue) -> Vec<Event> {
    let mut events = Vec::new();
    while let Some(event) = queue.pop() {
        events.push(event);
    }
    events
}

#[test]
fn new_eventfd_is_active_and_writable() {
    let fd = EventFd::new(5, false, FileStatus::nonblock());
    assert_eq!(fd.state(), FileState::active() | FileState::writable());
    assert_eq!(fd.get_status(), FileStatus::nonblock());
    assert!(!fd.has_open_file());
    assert!(!fd.supports_sa_restart());
    assert_eq!(fd.mode(), FileMode::read().union(FileMode::write()));
    assert_eq!(fd.mode().bits(), 3);
}

#[test]
fn status_and_open_file_are_kept() {
    let mut fd = EventFd::new(0, false, FileStatus::empty());
    fd.set_status(FileStatus::nonblock());
    fd.set_has_open_file(true);
    assert_eq!(fd.get_status(), FileStatus::nonblock());
    assert!(fd.has_open_file());
    assert_eq!(FileStatus::nonblock().bits, libc::O_NONBLOCK);
}

#[test]
fn read_takes_everything() {
    let mut queue = EventQueue::new();
    let mut fd = EventFd::new(0, false, FileStatus::empty());
    assert_eq!(fd.write(&3u64.to_ne_bytes(), 0, &mut queue), Ok(8));
    assert_eq!(fd.write(&0x0102_0304u64.to_ne_bytes(), 0, &mut queue), Ok(8));
    assert_eq!(fd.peek(0, 8), Ok(0x0102_0307u64.to_ne_bytes()));
    assert_eq!(fd.read(0, 8, &mut queue), Ok(0x0102_0307u64.to_ne_bytes()));
    assert_eq!(fd.read(0, 8, &mut queue), failed(Errno::EAGAIN));
}

#[test]
fn semaphore_read_takes_one() {
    let mut queue = EventQueue::new();
    let mut fd = EventFd::new(2, true, FileStatus::empty());
    assert_eq!(fd.read(0, 8, &mut queue), Ok(1u64.to_ne_bytes()));
    assert_eq!(fd.read(0, 100, &mut queue), Ok(1u64.to_ne_bytes()));
    assert_eq!(fd.read(0, 8, &mut queue), failed(Errno::EAGAIN));
}

#[test]
fn transfers_are_checked() {
    let mut queue = EventQueue::new();
    let mut fd = EventFd::new(1, false, FileStatus::empty());
    assert_eq!(fd.read(1, 8, &mut queue), failed(Errno::ESPIPE));
    assert_eq!(fd.read(-1, 0, &mut queue), failed(Errno::ESPIPE));
    assert_eq!(fd.read(0, 7, &mut queue), failed(Errno::EINVAL));
    assert_eq!(fd.write(&[0; 8], 1, &mut queue), failed(Errno::ESPIPE));
    assert_eq!(fd.write(&[0; 7], 0, &mut queue), failed(Errno::EINVAL));
    assert_eq!(EventFd::check_transfer(0, 8), Ok(()));
    assert_eq!(fd.read(0, 8, &mut queue), Ok(1u64.to_ne_bytes()));
    assert_eq!(queue.pop(), None);
}

#[test]
fn only_the_first_eight_bytes_are_written() {
    let mut queue = EventQueue::new();
    let mut fd = EventFd::new(0, false, FileStatus::empty());
    let mut bytes = 9u64.to_ne_bytes().to_vec();
    bytes.extend([0xff; 8]);
    assert_eq!(fd.write(&bytes, 0, &mut queue), Ok(8));
    assert_eq!(fd.read(0, 16, &mut queue), Ok(9u64.to_ne_bytes()));
}

#[test]
fn counter_never_reaches_the_maximum() {
    let mut queue = EventQueue::new();
    let mut fd = EventFd::new(0, false, FileStatus::empty());
    let max = u64::MAX;
    assert_eq!(fd.write(&max.to_ne_bytes(), 0, &mut queue), failed(Errno::EINVAL));
    assert_eq!(fd.write(&(max - 1).to_ne_bytes(), 0, &mut queue), Ok(8));
    assert!(!fd.state().writable);
    assert!(fd.state().readable);
    assert_eq!(fd.write(&1u64.to_ne_bytes(), 0, &mut queue), failed(Errno::EAGAIN));
    assert_eq!(fd.write(&0u64.to_ne_bytes(), 0, &mut queue), Ok(8));
    assert_eq!(fd.read(0, 8, &mut queue), Ok((max - 1).to_ne_bytes()));
    assert_eq!(fd.write(&1u64.to_ne_bytes(), 0, &mut queue), Ok(8));
}

#[test]
fn state_follows_the_counter() {
    let mut queue = EventQueue::new();
    let mut fd = EventFd::new(0, false, FileStatus::empty());
    assert_eq!(fd.write(&1u64.to_ne_bytes(), 0, &mut queue), Ok(8));
    assert_eq!(
        fd.state(),
        FileState::active()
            | FileState::readable()
            | FileState::writable()
            | FileState::input_buffer_parity()
    );
    assert_eq!(fd.write(&1u64.to_ne_bytes(), 0, &mut queue), Ok(8));
    assert_eq!(
        fd.state(),
        FileState::active() | FileState::readable() | FileState::writable()
    );
    assert_eq!(fd.read(0, 8, &mut queue), Ok(2u64.to_ne_bytes()));
    assert_eq!(
        fd.state(),
        FileState::active() | FileState::writable() | FileState::input_buffer_parity()
    );
}

#[test]
fn writing_zero_changes_nothing() {
    let mut queue = EventQueue::new();
    let mut fd = EventFd::new(0, false, FileStatus::empty());
    assert!(fd.add_legacy_listener(0x1000));
    let _handle = fd.add_listener(FileState::all(), NewStatusListenerFilter::Always, 1);
    assert_eq!(fd.write(&0u64.to_ne_bytes(), 0, &mut queue), Ok(8));
    assert_eq!(fd.state(), FileState::active() | FileState::writable());
    assert_eq!(queue.pop(), None);
    assert_eq!(fd.read(0, 8, &mut queue), failed(Errno::EAGAIN));
    assert_eq!(fd.write(&3u64.to_ne_bytes(), 0, &mut queue), Ok(8));
    assert_eq!(drain(&mut queue).len(), 2);
    let state = fd.state();
    assert_eq!(fd.write(&0u64.to_ne_bytes(), 0, &mut queue), Ok(8));
    assert_eq!(fd.state(), state);
    assert_eq!(queue.pop(), None);
    assert_eq!(fd.read(0, 8, &mut queue), Ok(3u64.to_ne_bytes()));
}

#[test]
fn listeners_are_told_in_order() {
    let mut queue = EventQueue::new();
    let mut fd = EventFd::new(0, false, FileStatus::empty());
    let first = fd.add_listener(FileState::readable(), NewStatusListenerFilter::OffToOn, 11);
    assert!(fd.add_legacy_listener(0x1000));
    assert!(!fd.add_legacy_listener(0x1000));
    let _third = fd.add_listener(FileState::readable(), NewStatusListenerFilter::OnToOff, 33);
    assert_eq!(fd.write(&1u64.to_ne_bytes(), 0, &mut queue), Ok(8));
    let status = fd.state().bits();
    let changed = (FileState::readable() | FileState::input_buffer_parity()).bits();
    assert_eq!(
        drain(&mut queue),
        vec![
            Event { target: Target::Callback(11), status, changed },
            Event { target: Target::Legacy(0x1000), status, changed },
        ]
    );
    assert!(fd.remove_legacy_listener(0x1000));
    assert!(!fd.remove_legacy_listener(0x1000));
    assert_eq!(fd.read(0, 8, &mut queue), Ok(1u64.to_ne_bytes()));
    let status = fd.state().bits();
    assert_eq!(
        drain(&mut queue),
        vec![Event { target: Target::Callback(33), status, changed }]
    );
    fd.remove_listener(first);
    assert_eq!(fd.write(&1u64.to_ne_bytes(), 0, &mut queue), Ok(8));
    assert_eq!(queue.pop(), None);
}

#[test]
fn closing_is_final() {
    let mut queue = EventQueue::new();
    let mut fd = EventFd::new(1, false, FileStatus::empty());
    assert!(fd.add_legacy_listener(8));
    assert_eq!(fd.close(&mut queue), Ok(()));
    assert_eq!(fd.state(), FileState::closed());
    assert_eq!(drain(&mut queue).len(), 1);
    assert_eq!(fd.close(&mut queue), Ok(()));
    assert_eq!(fd.read(0, 8, &mut queue), Ok(1u64.to_ne_bytes()));
    assert_eq!(fd.write(&1u64.to_ne_bytes(), 0, &mut queue), Ok(8));
    assert_eq!(fd.state(), FileState::closed());
    assert_eq!(queue.pop(), None);
}

#[test]
fn eventfd_has_no_ioctl() {
    let mut fd = EventFd::new(0, false, FileStatus::empty());
    assert_eq!(fd.ioctl(libc::FIONREAD as u64), failed(Errno::EINVAL));
}

#[test]
fn error_numbers_are_those_of_linux() {
    let numbers = [
        (Errno::EAGAIN, libc::EWOULDBLOCK),
        (Errno::EFAULT, libc::EFAULT),
        (Errno::EINVAL, libc::EINVAL),
        (Errno::ESPIPE, libc::ESPIPE),
        (Errno::ENOSYS, libc::ENOSYS),
        (Errno::EMSGSIZE, libc::EMSGSIZE),
        (Errno::EOPNOTSUPP, libc::EOPNOTSUPP),
        (Errno::Other(5), 5),
    ];
    for (errno, number) in numbers {
        assert_eq!(errno.code(), number);
    }
}
