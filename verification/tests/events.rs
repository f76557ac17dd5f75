use shadow_host::events::{
    Event, EventQueue, EventSource, LegacyListenerHelper, LegacyStatusListener,
    NewStatusListenerFilter, StatusEventSource, Subscription, Target,
};
use shadow_host::flags::FileState;
use shadow_host::pointer::SyncSendPointer;

fn targets(queue: &mut EventQueue) -> Vec<Target> {
    let mut targets = Vec::new();
    while let Some(event) = queue.pop() {
        targets.push(event.target);
    }
    targets
}

#[test]
fn filters_admit_what_they_should() {
    let r = FileState::readable().bits();
    let w = FileState::writable().bits();
    let none = FileState::empty().bits();
    let table = [
        (NewStatusListenerFilter::Never, [false, false, false, false]),
        (NewStatusListenerFilter::OffToOn, [true, false, false, false]),
        (NewStatusListenerFilter::OnToOff, [false, true, false, false]),
        (NewStatusListenerFilter::Always, [true, true, false, false]),
    ];
    for (filter, expected) in table {
        // readable turns on, readable turns off, only writable changes, nothing changes
        assert_eq!(filter.admits(r, r, r), expected[0]);
        assert_eq!(filter.admits(r, none, r), expected[1]);
        assert_eq!(filter.admits(r, r | w, w), expected[2]);
        assert_eq!(filter.admits(r, r, none), expected[3]);
    }
    // one of two monitored flags turns off while the other stays on
    assert!(NewStatusListenerFilter::OffToOn.admits(r | w, w, r));
    assert!(!NewStatusListenerFilter::OnToOff.admits(r | w, w, r));
}

#[test]
fn queue_is_first_in_first_out() {
    let mut queue = EventQueue::new();
    assert_eq!(queue.pop(), None);
    let event = |n: u64| Event {
        target: Target::Callback(n),
        status: 1,
        changed: 1,
    };
    queue.push(event(1));
    queue.push(event(2));
    assert_eq!(queue.pop(), Some(event(1)));
    assert_eq!(queue.pop(), Some(event(2)));
    assert_eq!(queue.pop(), None);
}

#[test]
fn handle_ends_the_subscription() {
    let mut queue = EventQueue::new();
    let mut source = StatusEventSource::new();
    let monitoring = FileState::readable().bits();
    let a = source.add_listener(monitoring, NewStatusListenerFilter::Always, 1);
    let _b = source.add_listener(monitoring, NewStatusListenerFilter::Always, 2);
    source.notify_listeners(monitoring, monitoring, &mut queue);
    assert_eq!(
        targets(&mut queue),
        vec![Target::Callback(1), Target::Callback(2)]
    );
    source.remove_listener(a);
    source.notify_listeners(monitoring, monitoring, &mut queue);
    assert_eq!(targets(&mut queue), vec![Target::Callback(2)]);
    let _c = source.add_listener(monitoring, NewStatusListenerFilter::Always, 3);
    source.notify_listeners(monitoring, monitoring, &mut queue);
    assert_eq!(
        targets(&mut queue),
        vec![Target::Callback(2), Target::Callback(3)]
    );
}

#[test]
fn legacy_listener_is_told_once() {
    let mut queue = EventQueue::new();
    let mut source = StatusEventSource::new();
    assert!(source.add_legacy_listener(7));
    assert!(!source.add_legacy_listener(7));
    assert!(source.add_legacy_listener(8));
    source.notify_listeners(0, 0, &mut queue);
    assert_eq!(
        targets(&mut queue),
        vec![Target::Legacy(7), Target::Legacy(8)]
    );
    assert!(source.remove_legacy_listener(7));
    assert!(!source.remove_legacy_listener(7));
    source.notify_listeners(0, 0, &mut queue);
    assert_eq!(targets(&mut queue), vec![Target::Legacy(8)]);
}

#[test]
fn helper_keeps_one_handle_per_listener() {
    let mut queue = EventQueue::new();
    let mut source = EventSource::new();
    let mut helper = LegacyListenerHelper::new();
    assert!(helper.add_listener(5, &mut source));
    assert!(!helper.add_listener(5, &mut source));
    let handle = source.add_listener(Subscription::Filtered {
        monitoring: u32::MAX,
        filter: NewStatusListenerFilter::Always,
        callback: 6,
    });
    source.notify_listeners(u32::MAX, u32::MAX, &mut queue);
    assert_eq!(
        targets(&mut queue),
        vec![Target::Legacy(5), Target::Callback(6)]
    );
    assert!(helper.remove_listener(5, &mut source));
    source.remove_listener(handle);
    source.notify_listeners(u32::MAX, u32::MAX, &mut queue);
    assert_eq!(queue.pop(), None);
}

#[test]
fn any_bit_can_be_monitored() {
    let mut queue = EventQueue::new();
    let mut source = StatusEventSource::new();
    let high = 0x8000_0000;
    let _a = source.add_listener(high, NewStatusListenerFilter::OffToOn, 1);
    let _b = source.add_listener(high | 0x40, NewStatusListenerFilter::OnToOff, 2);
    let _c = source.add_listener(0x40, NewStatusListenerFilter::Always, 3);
    let _d = source.add_listener(u32::MAX, NewStatusListenerFilter::Never, 4);
    source.notify_listeners(high | 0x1, high, &mut queue);
    assert_eq!(
        queue.pop(),
        Some(Event { target: Target::Callback(1), status: high | 0x1, changed: high })
    );
    assert_eq!(queue.pop(), None);
    source.notify_listeners(0x100, high | 0x40, &mut queue);
    assert_eq!(
        targets(&mut queue),
        vec![Target::Callback(2), Target::Callback(3)]
    );
    source.notify_listeners(u32::MAX, 0x100, &mut queue);
    assert_eq!(queue.pop(), None);
}

#[test]
fn states_are_numbered() {
    assert_eq!(FileState::empty().bits(), 0);
    assert_eq!(FileState::active().bits(), 0x1);
    assert_eq!(FileState::readable().bits(), 0x2);
    assert_eq!(FileState::writable().bits(), 0x4);
    assert_eq!(FileState::closed().bits(), 0x8);
    assert_eq!(FileState::input_buffer_parity().bits(), 0x10);
    assert_eq!(FileState::all().bits(), 0x1f);
    for bits in 0..0x20 {
        assert_eq!(FileState::from_bits_truncate(bits).bits(), bits);
        assert_eq!(FileState::from_bits_truncate(bits | 0xffff_ffe0).bits(), bits);
    }
}

#[test]
fn pointers_are_kept() {
    let mut pointer: SyncSendPointer<u8> = SyncSendPointer::new(0x40);
    assert_eq!(pointer.ptr(), 0x40);
    let copied = pointer;
    *pointer.ptr_mut() = 0x80;
    assert_eq!(pointer.ptr(), 0x80);
    assert_eq!(pointer.clone().ptr(), 0x80);
    assert_eq!(copied.ptr(), 0x40);
    assert_eq!(LegacyStatusListener::new(9).ptr(), 9);
}

#[test]
fn flags_are_sets() {
    let mut state = FileState::empty();
    assert!(state.is_empty());
    state.insert(FileState::readable() | FileState::active());
    assert!(state.contains(FileState::active()));
    assert!(!state.contains(FileState::active() | FileState::writable()));
    assert!(state.intersects(FileState::active() | FileState::writable()));
    state.set(FileState::writable(), true);
    state.set(FileState::active(), false);
    assert_eq!(state, FileState::readable() | FileState::writable());
    state.remove(FileState::all());
    assert_eq!(state, FileState::empty());
    let all = FileState::all();
    assert_eq!(
        all.symmetric_difference(FileState::closed()),
        all.difference(FileState::closed())
    );
    assert_eq!(all.intersection(FileState::closed()), FileState::closed());
    assert_eq!(FileState::empty().union(all), all);
}
