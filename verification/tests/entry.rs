use shadow_host::epoll_entry::{Entry, EpollEvents};
use shadow_host::flags::{FileSignals, FileState};

const DATA: u64 = 1234;

fn poll_init(init: FileState, interest: EpollEvents) {
    let mut entry = Entry::new(interest, DATA, init);
    assert!(entry.has_ready_events());

    let (ev, data) = entry.collect_ready_events().unwrap();
    assert!(interest.contains(ev));
    assert_eq!(data, DATA);
}

#[test]
fn poll_init_r() {
    let init = FileState::readable();
    poll_init(init, EpollEvents::epollin());
}

#[test]
fn poll_init_w() {
    let init = FileState::writable();
    poll_init(init, EpollEvents::epollout());
}

#[test]
fn poll_init_rw() {
    let init = FileState::readable() | FileState::writable();
    poll_init(init, EpollEvents::epollin());
    poll_init(init, EpollEvents::epollout());
    poll_init(init, EpollEvents::epollin() | EpollEvents::epollout());
}

/// Checks that an entry starting in state `init` is only ready after `change` turns on when
/// waiting for `interest`.
fn poll_on_state(
    init: FileState,
    interest: EpollEvents,
    change_on: FileState,
    signals: FileSignals,
) {
    let mut entry = Entry::new(interest, DATA, init);
    assert!(!entry.has_ready_events());

    entry.notify(init.union(change_on), change_on, signals);
    assert!(entry.has_ready_events());

    let (ev, data) = entry.collect_ready_events().unwrap();
    assert!(interest.contains(ev));
    assert_eq!(data, DATA);
}

#[test]
fn poll_on_r() {
    let on = FileState::readable();
    poll_on_state(
        FileState::empty(),
        EpollEvents::epollin(),
        on,
        FileSignals::empty(),
    );
    poll_on_state(
        FileState::empty(),
        EpollEvents::epollin() | EpollEvents::epollout(),
        on,
        FileSignals::empty(),
    );
    poll_on_state(
        FileState::writable(),
        EpollEvents::epollin(),
        on,
        FileSignals::empty(),
    );
}

#[test]
fn poll_on_w() {
    let on = FileState::writable();
    poll_on_state(
        FileState::empty(),
        EpollEvents::epollout(),
        on,
        FileSignals::empty(),
    );
    poll_on_state(
        FileState::empty(),
        EpollEvents::epollin() | EpollEvents::epollout(),
        on,
        FileSignals::empty(),
    );
    poll_on_state(
        FileState::readable(),
        EpollEvents::epollout(),
        on,
        FileSignals::empty(),
    );
}

#[test]
fn poll_on_rw() {
    let on = FileState::readable() | FileState::writable();
    poll_on_state(
        FileState::empty(),
        EpollEvents::epollin(),
        on,
        FileSignals::empty(),
    );
    poll_on_state(
        FileState::empty(),
        EpollEvents::epollout(),
        on,
        FileSignals::empty(),
    );
    poll_on_state(
        FileState::empty(),
        EpollEvents::epollin() | EpollEvents::epollout(),
        on,
        FileSignals::empty(),
    );
}

/// Checks that an entry starting in state `init` is only not ready after `change` turns off
/// when waiting for `interest`.
fn poll_off_state(
    init: FileState,
    interest: EpollEvents,
    change_off: FileState,
    signals: FileSignals,
) {
    let mut entry = Entry::new(interest, DATA, init);
    assert!(entry.has_ready_events());

    entry.notify(init.difference(change_off), change_off, signals);
    assert!(!entry.has_ready_events());
    assert!(entry.collect_ready_events().is_none());
}

#[test]
fn poll_off_r() {
    let interest = EpollEvents::epollin();
    let off = FileState::readable();
    poll_off_state(off, interest, off, FileSignals::empty());
    poll_off_state(
        FileState::writable() | off,
        interest,
        off,
        FileSignals::empty(),
    );
}

#[test]
fn poll_off_w() {
    let interest = EpollEvents::epollout();
    let off = FileState::writable();
    poll_off_state(off, interest, off, FileSignals::empty());
    poll_off_state(
        FileState::readable() | off,
        interest,
        off,
        FileSignals::empty(),
    );
}

#[test]
fn poll_off_rw() {
    let off = FileState::readable() | FileState::writable();
    poll_off_state(off, EpollEvents::epollin(), off, FileSignals::empty());
    poll_off_state(off, EpollEvents::epollout(), off, FileSignals::empty());
    poll_off_state(
        off,
        EpollEvents::epollin() | EpollEvents::epollout(),
        off,
        FileSignals::empty(),
    );
}

#[test]
fn level_trigger() {
    let in_lt = EpollEvents::epollin();
    let mut entry = Entry::new(in_lt, DATA, FileState::empty());
    assert!(!entry.has_ready_events());

    entry.notify(
        FileState::readable(),
        FileState::readable(),
        FileSignals::empty(),
    );
    assert!(entry.has_ready_events());

    for _ in 0..3 {
        assert_eq!(
            entry.collect_ready_events(),
            Some((EpollEvents::epollin(), DATA))
        );
        assert!(entry.has_ready_events());
    }

    entry.notify(
        FileState::empty(),
        FileState::readable(),
        FileSignals::empty(),
    );
    assert!(!entry.has_ready_events());
    entry.notify(
        FileState::readable(),
        FileState::readable(),
        FileSignals::empty(),
    );
    assert!(entry.has_ready_events());

    for _ in 0..3 {
        assert_eq!(
            entry.collect_ready_events(),
            Some((EpollEvents::epollin(), DATA))
        );
        assert!(entry.has_ready_events());
    }
}

#[test]
fn edge_trigger() {
    let in_et = EpollEvents::epollin() | EpollEvents::epollet();
    let mut entry = Entry::new(in_et, DATA, FileState::empty());
    assert!(!entry.has_ready_events());

    entry.notify(
        FileState::readable(),
        FileState::readable(),
        FileSignals::empty(),
    );

    assert!(entry.has_ready_events());
    assert_eq!(
        entry.collect_ready_events(),
        Some((EpollEvents::epollin(), DATA))
    );

    // Event was collected and should only be reported once.
    assert!(!entry.has_ready_events());
    assert_eq!(entry.collect_ready_events(), None);

    // Nothing changed, so still no events.
    entry.notify(
        FileState::readable(),
        FileState::empty(),
        FileSignals::empty(),
    );
    assert!(!entry.has_ready_events());

    // Nothing changes, but this time we signal that the buffer is written more.
    entry.notify(
        FileState::readable(),
        FileState::empty(),
        FileSignals::read_buffer_grew(),
    );
    assert!(entry.has_ready_events());
    assert_eq!(
        entry.collect_ready_events(),
        Some((EpollEvents::epollin(), DATA))
    );

    // When the file is not readable but we receives `READ_BUFFER_GREW`, there should be no
    // ready events.
    entry.notify(
        FileState::empty(),
        FileState::empty(),
        FileSignals::read_buffer_grew(),
    );
    assert!(!entry.has_ready_events());

    // State turns off.
    entry.notify(
        FileState::empty(),
        FileState::readable(),
        FileSignals::empty(),
    );
    assert!(!entry.has_ready_events());

    // State turns on again.
    entry.notify(
        FileState::readable(),
        FileState::readable(),
        FileSignals::empty(),
    );
    assert!(entry.has_ready_events());
    assert_eq!(
        entry.collect_ready_events(),
        Some((EpollEvents::epollin(), DATA))
    );

    assert!(!entry.has_ready_events());
}

#[test]
fn one_shot() {
    let in_os = EpollEvents::epollin() | EpollEvents::epolloneshot();
    let mut entry = Entry::new(in_os, DATA, FileState::empty());
    assert!(!entry.has_ready_events());

    entry.notify(
        FileState::readable(),
        FileState::readable(),
        FileSignals::empty(),
    );

    assert!(entry.has_ready_events());
    assert_eq!(
        entry.collect_ready_events(),
        Some((EpollEvents::epollin(), DATA))
    );

    // Should never report that event again until we reset.
    assert!(!entry.has_ready_events());
    assert_eq!(entry.collect_ready_events(), None);
    entry.notify(
        FileState::readable(),
        FileState::empty(),
        FileSignals::empty(),
    );
    assert!(!entry.has_ready_events());
    entry.notify(
        FileState::empty(),
        FileState::readable(),
        FileSignals::empty(),
    );
    assert!(!entry.has_ready_events());
    entry.notify(
        FileState::readable(),
        FileState::readable(),
        FileSignals::empty(),
    );
    assert!(!entry.has_ready_events());

    entry.modify(in_os, DATA, FileState::readable());

    assert!(entry.has_ready_events());
    assert_eq!(
        entry.collect_ready_events(),
        Some((EpollEvents::epollin(), DATA))
    );

    entry.notify(
        FileState::empty(),
        FileState::readable(),
        FileSignals::empty(),
    );
    entry.notify(
        FileState::readable(),
        FileState::readable(),
        FileSignals::empty(),
    );

    assert!(!entry.has_ready_events());
    assert_eq!(entry.collect_ready_events(), None);
}

#[test]
fn listener_state_covers_the_interest_and_closing() {
    let entry = Entry::new(EpollEvents::epollin(), DATA, FileState::empty());
    assert_eq!(
        entry.get_listener_state(),
        FileState::readable() | FileState::closed()
    );
    let entry = Entry::new(EpollEvents::epollout(), DATA, FileState::empty());
    assert_eq!(
        entry.get_listener_state(),
        FileState::writable() | FileState::closed()
    );
    let mut entry = Entry::new(EpollEvents::empty(), DATA, FileState::empty());
    assert_eq!(entry.get_listener_state(), FileState::closed());
    entry.set_legacy();
    assert_eq!(entry.get_listener_state(), FileState::all());
}

#[test]
fn only_edge_triggered_entries_listen_for_growth() {
    let entry = Entry::new(EpollEvents::epollin(), DATA, FileState::empty());
    assert_eq!(entry.get_listener_signals(), FileSignals::empty());
    let entry = Entry::new(
        EpollEvents::epollin() | EpollEvents::epollet(),
        DATA,
        FileState::empty(),
    );
    assert_eq!(entry.get_listener_signals(), FileSignals::read_buffer_grew());
}

#[test]
fn closed_file_is_never_ready() {
    let entry = Entry::new(
        EpollEvents::epollin(),
        DATA,
        FileState::readable() | FileState::closed(),
    );
    assert!(!entry.has_ready_events());
}

#[test]
fn legacy_file_is_ready_only_while_active() {
    let mut entry = Entry::new(EpollEvents::epollin(), DATA, FileState::readable());
    entry.set_legacy();
    assert!(!entry.has_ready_events());
    entry.notify(
        FileState::readable() | FileState::active(),
        FileState::active(),
        FileSignals::empty(),
    );
    assert!(entry.has_ready_events());
    entry.notify(
        FileState::readable() | FileState::active() | FileState::closed(),
        FileState::closed(),
        FileSignals::empty(),
    );
    assert!(!entry.has_ready_events());
}

#[test]
fn one_shot_keeps_the_events_that_were_not_collected() {
    let interest =
        EpollEvents::epollin() | EpollEvents::epollout() | EpollEvents::epolloneshot();
    let mut entry = Entry::new(interest, DATA, FileState::readable());
    assert_eq!(
        entry.collect_ready_events(),
        Some((EpollEvents::epollin(), DATA))
    );
    entry.notify(
        FileState::readable() | FileState::writable(),
        FileState::writable(),
        FileSignals::empty(),
    );
    assert_eq!(
        entry.collect_ready_events(),
        Some((EpollEvents::epollout(), DATA))
    );
    assert_eq!(entry.collect_ready_events(), None);
}

#[test]
fn edge_trigger_stays_quiet_while_nothing_changes() {
    let interest = EpollEvents::epollin() | EpollEvents::epollout() | EpollEvents::epollet();
    let state = FileState::readable() | FileState::writable();
    let mut entry = Entry::new(interest, DATA, state);
    assert_eq!(
        entry.collect_ready_events(),
        Some((EpollEvents::epollin() | EpollEvents::epollout(), DATA))
    );
    entry.notify(
        state | FileState::active(),
        FileState::active(),
        FileSignals::empty(),
    );
    assert_eq!(entry.collect_ready_events(), None);
    entry.notify(state, FileState::writable(), FileSignals::empty());
    assert_eq!(
        entry.collect_ready_events(),
        Some((EpollEvents::epollout(), DATA))
    );
}

#[test]
fn priority_and_handle_are_kept() {
    let mut entry = Entry::new(EpollEvents::epollin(), DATA, FileState::empty());
    assert_eq!(entry.priority(), None);
    entry.set_priority(Some(3));
    assert_eq!(entry.priority(), Some(3));
    assert!(entry.set_listener_handle(None).is_none());
}

#[test]
fn epoll_numbers_are_those_of_linux() {
    assert_eq!(EpollEvents::epollin().bits as i32, libc::EPOLLIN);
    assert_eq!(EpollEvents::epollout().bits as i32, libc::EPOLLOUT);
    assert_eq!(EpollEvents::epollet().bits as i32, libc::EPOLLET);
    assert_eq!(EpollEvents::epolloneshot().bits as i32, libc::EPOLLONESHOT);
}
