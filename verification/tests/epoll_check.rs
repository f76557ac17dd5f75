use shadow_host::epoll_check::{
    ensure_got, ensure_timed_out, is_selected, test_multi_write, test_threads_multi_write,
    test_writable, test_writable_when_write, test_write_then_read, CheckFailure, EpollEvent,
    PassingEnvironments, WaiterResult,
};
use shadow_host::epoll_entry::EpollEvents;
use shadow_host::errno::Errno;

const TIMEOUT: u128 = 100_000_000;

fn event(events: EpollEvents) -> EpollEvent {
    EpollEvent { events, data: 0 }
}

fn got(events: EpollEvents) -> WaiterResult {
    WaiterResult::new(TIMEOUT - 1, Ok(1), vec![event(events), EpollEvent::empty()])
}

fn readable() -> WaiterResult {
    got(EpollEvents::epollin())
}

fn writable() -> WaiterResult {
    got(EpollEvents::epollout())
}

fn timed_out() -> WaiterResult {
    WaiterResult::new(TIMEOUT, Ok(0), vec![EpollEvent::empty(); 10])
}

#[test]
fn result_keeps_the_events_that_were_stored() {
    let buffer = vec![event(EpollEvents::epollin()), event(EpollEvents::epollout())];
    assert_eq!(WaiterResult::new(0, Ok(1), buffer.clone()).events, buffer[..1]);
    assert!(WaiterResult::new(0, Err(Errno::EINVAL), buffer.clone()).events.is_empty());
    let longer = WaiterResult::new(0, Ok(3), buffer.clone()).events;
    assert_eq!(longer[..2], buffer);
    assert_eq!(longer[2], EpollEvent::empty());
}

#[test]
fn files_are_the_data_of_the_events() {
    let events = vec![
        EpollEvent { events: EpollEvents::epollin(), data: 7 },
        EpollEvent { events: EpollEvents::epollin(), data: 0xffff_ffff_ffff_ffff },
        EpollEvent { events: EpollEvents::epollin(), data: 0x1_0000_0003 },
    ];
    assert_eq!(WaiterResult::new(0, Ok(3), events).files_to_read(), vec![7, -1, 3]);
}

#[test]
fn failures_are_told_apart() {
    let expected = event(EpollEvents::epollin());
    assert_eq!(ensure_got(&readable(), expected, TIMEOUT), Ok(()));
    assert_eq!(ensure_got(&timed_out(), expected, TIMEOUT), Err(CheckFailure::EpollRes));
    assert_eq!(
        ensure_got(&WaiterResult::new(0, Err(Errno::EINVAL), Vec::new()), expected, TIMEOUT),
        Err(CheckFailure::EpollRes)
    );
    assert_eq!(ensure_got(&readable(), expected, TIMEOUT - 1), Err(CheckFailure::Duration));
    assert_eq!(ensure_got(&writable(), expected, TIMEOUT), Err(CheckFailure::Event));
    assert_eq!(ensure_timed_out(&timed_out(), TIMEOUT), Ok(()));
    assert_eq!(ensure_timed_out(&readable(), TIMEOUT), Err(CheckFailure::EpollRes));
    assert_eq!(ensure_timed_out(&timed_out(), TIMEOUT + 1), Err(CheckFailure::Duration));
}

#[test]
fn multi_write_is_judged() {
    assert_eq!(test_multi_write(&vec![readable(), readable(), timed_out()], TIMEOUT), Ok(()));
    assert_eq!(
        test_multi_write(&vec![readable(), timed_out(), timed_out()], TIMEOUT),
        Err(CheckFailure::EpollRes)
    );
    assert_eq!(
        test_multi_write(&vec![writable(), readable(), timed_out()], TIMEOUT),
        Err(CheckFailure::Event)
    );
    assert_eq!(
        test_multi_write(&vec![readable(), readable(), readable()], TIMEOUT),
        Err(CheckFailure::EpollRes)
    );
}

#[test]
fn write_then_read_is_judged() {
    assert_eq!(test_write_then_read(&vec![readable(), timed_out()], TIMEOUT), Ok(()));
    assert_eq!(
        test_write_then_read(&vec![readable(), readable()], TIMEOUT),
        Err(CheckFailure::EpollRes)
    );
    assert_eq!(
        test_write_then_read(&vec![writable(), timed_out()], TIMEOUT),
        Err(CheckFailure::Event)
    );
}

#[test]
fn threads_multi_write_is_judged_in_any_order() {
    for results in [
        vec![timed_out(), readable(), readable()],
        vec![readable(), timed_out(), readable()],
        vec![readable(), readable(), timed_out()],
    ] {
        assert_eq!(test_threads_multi_write(results, TIMEOUT), Ok(()));
    }
    assert_eq!(
        test_threads_multi_write(vec![readable(), readable(), readable()], TIMEOUT),
        Err(CheckFailure::EpollRes)
    );
    assert_eq!(
        test_threads_multi_write(vec![readable(), timed_out(), timed_out()], TIMEOUT),
        Err(CheckFailure::EpollRes)
    );
    assert_eq!(
        test_threads_multi_write(vec![readable(), timed_out(), writable()], TIMEOUT),
        Err(CheckFailure::Event)
    );
}

#[test]
fn writable_is_judged() {
    assert_eq!(test_writable(&writable(), TIMEOUT), Ok(()));
    assert_eq!(test_writable(&readable(), TIMEOUT), Err(CheckFailure::Event));
}

#[test]
fn writable_when_write_is_judged() {
    assert_eq!(test_writable_when_write(&vec![writable(), timed_out()], TIMEOUT), Ok(()));
    assert_eq!(
        test_writable_when_write(&vec![writable(), writable()], TIMEOUT),
        Err(CheckFailure::EpollRes)
    );
}

#[test]
fn tests_are_selected_by_environment() {
    let everywhere = PassingEnvironments { libc: true, shadow: true };
    let libc_only = PassingEnvironments { libc: true, shadow: false };
    assert!(is_selected(everywhere, true, true));
    assert!(is_selected(libc_only, false, true));
    assert!(is_selected(libc_only, false, false));
    assert!(!is_selected(libc_only, true, false));
}
