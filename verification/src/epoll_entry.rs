//! One file that an epoll instance monitors: epoll(7).
use crate::events::Handle;
use crate::flags::{FileSignals, FileState};
use core::ops::BitOr;
use vstd::prelude::*;
use vstd::std_specs::ops::BitOrSpecImpl;

verus! {

/// The number of `EPOLLIN`.
pub const EPOLLIN: u32 = 0x1;

/// The number of `EPOLLOUT`.
pub const EPOLLOUT: u32 = 0x4;

/// The number of `EPOLLONESHOT`.
pub const EPOLLONESHOT: u32 = 0x4000_0000;

/// The number of `EPOLLET`.
pub const EPOLLET: u32 = 0x8000_0000;

/// A set of epoll events and modes, numbered as epoll_ctl(2) numbers them.
#[derive(Clone, Copy, PartialEq, Eq, Structural, Debug)]
pub struct EpollEvents {
    pub bits: u32,
}

impl EpollEvents {
    /// The set without any event.
    #[verifier::allow_in_spec]
    pub fn empty() -> EpollEvents
        returns
            (EpollEvents { bits: 0 }),
    {
        EpollEvents { bits: 0 }
    }

    /// The file can be read.
    #[verifier::allow_in_spec]
    pub fn epollin() -> EpollEvents
        returns
            (EpollEvents { bits: EPOLLIN }),
    {
        EpollEvents { bits: EPOLLIN }
    }

    /// The file can be written.
    #[verifier::allow_in_spec]
    pub fn epollout() -> EpollEvents
        returns
            (EpollEvents { bits: EPOLLOUT }),
    {
        EpollEvents { bits: EPOLLOUT }
    }

    /// Events are reported once, until the entry is modified.
    #[verifier::allow_in_spec]
    pub fn epolloneshot() -> EpollEvents
        returns
            (EpollEvents { bits: EPOLLONESHOT }),
    {
        EpollEvents { bits: EPOLLONESHOT }
    }

    /// Events are reported when they occur, and not for as long as they last.
    #[verifier::allow_in_spec]
    pub fn epollet() -> EpollEvents
        returns
            (EpollEvents { bits: EPOLLET }),
    {
        EpollEvents { bits: EPOLLET }
    }

    /// Whether there is no event.
    #[verifier::allow_in_spec]
    pub fn is_empty(self) -> bool
        returns
            self.bits == 0,
    {
        self.bits == 0
    }

    /// Whether all the events of `other` are there.
    #[verifier::allow_in_spec]
    pub fn contains(self, other: EpollEvents) -> bool
        returns
            self.bits & other.bits == other.bits,
    {
        self.bits & other.bits == other.bits
    }

    /// Whether at least one of the events of `other` is there.
    #[verifier::allow_in_spec]
    pub fn intersects(self, other: EpollEvents) -> bool
        returns
            self.bits & other.bits != 0,
    {
        self.bits & other.bits != 0
    }

    /// The events that are in `self` and in `other`.
    #[verifier::allow_in_spec]
    pub fn intersection(self, other: EpollEvents) -> EpollEvents
        returns
            (EpollEvents { bits: self.bits & other.bits }),
    {
        EpollEvents { bits: self.bits & other.bits }
    }

    /// The events that are in `self` or in `other`.
    #[verifier::allow_in_spec]
    pub fn union(self, other: EpollEvents) -> EpollEvents
        returns
            (EpollEvents { bits: self.bits | other.bits }),
    {
        EpollEvents { bits: self.bits | other.bits }
    }

    /// The events of `self` that are not in `other`.
    #[verifier::allow_in_spec]
    pub fn difference(self, other: EpollEvents) -> EpollEvents
        returns
            (EpollEvents { bits: self.bits & !other.bits }),
    {
        EpollEvents { bits: self.bits & !other.bits }
    }

    /// Adds the events of `other`.
    pub fn insert(&mut self, other: EpollEvents)
        ensures
            *final(self) == old(self).union(other),
    {
        *self = self.union(other);
    }

    /// Takes the events of `other` away.
    pub fn remove(&mut self, other: EpollEvents)
        ensures
            *final(self) == old(self).difference(other),
    {
        *self = self.difference(other);
    }
}

impl BitOr for EpollEvents {
    type Output = EpollEvents;

    fn bitor(self, rhs: EpollEvents) -> (r: EpollEvents) {
        self.union(rhs)
    }
}

impl BitOrSpecImpl for EpollEvents {
    open spec fn obeys_bitor_spec() -> bool {
        true
    }

    open spec fn bitor_req(self, rhs: EpollEvents) -> bool {
        true
    }

    open spec fn bitor_spec(self, rhs: EpollEvents) -> EpollEvents {
        self.union(rhs)
    }
}

/// The events that a file in this state has: `EPOLLIN` if it is readable, `EPOLLOUT` if it is
/// writable.
pub open spec fn events_of(state: FileState) -> EpollEvents {
    EpollEvents {
        bits: (if state.readable {
            EPOLLIN
        } else {
            0
        }) | (if state.writable {
            EPOLLOUT
        } else {
            0
        }),
    }
}

/// The flags that these events are about: readable for `EPOLLIN`, writable for `EPOLLOUT`.
pub open spec fn state_of(events: EpollEvents) -> FileState {
    FileState {
        readable: events.intersects(EpollEvents::epollin()),
        writable: events.intersects(EpollEvents::epollout()),
        ..FileState::empty()
    }
}

/// What an entry is, apart from how it is stored.
#[verifier::ext_equal]
pub struct EntryView {
    /// Priority value among other ready entries.
    pub priority: Option<u64>,
    /// The events of interest registered by the managed process.
    pub interest: EpollEvents,
    /// The data registered by the managed process, to be returned upon event notification.
    pub data: u64,
    /// The handle to the currently registered file status listener.
    pub listener_handle: Option<Handle>,
    /// The current state of the file.
    pub state: FileState,
    /// The file state changes that were already reported since the state last changed.
    pub collected: FileState,
    /// Whether the file is of a kind that has its state managed in the old way.
    pub is_legacy: bool,
}

impl EntryView {
    /// The flags of the file that may be reported. Edge-triggered: report event, then don't report
    /// again until that state changes. Level-triggered: report event, keep reporting until state
    /// turns off.
    pub open spec fn ready_state(self) -> FileState {
        if self.interest.contains(EpollEvents::epollet()) {
            self.state.difference(self.collected)
        } else {
            self.state
        }
    }

    /// The events of interest that may be reported.
    pub open spec fn ready_events(self) -> EpollEvents {
        self.interest.intersection(events_of(self.ready_state()))
    }

    /// Whether the entry is ready to report events. That of a closed file never is, and that of a
    /// legacy file only if the file is active.
    pub open spec fn has_ready_events(self) -> bool {
        &&& !self.state.closed
        &&& self.is_legacy ==> self.state.active
        &&& !self.ready_events().is_empty()
    }

    /// Whether `EPOLLIN` is to be reported: the file is readable, that is of interest, and in
    /// edge-triggered mode it was not collected yet.
    pub open spec fn reports_in(self) -> bool {
        &&& self.interest.bits & 0x1 != 0
        &&& self.state.readable
        &&& self.interest.bits & 0x8000_0000 != 0 ==> !self.collected.readable
    }

    /// Whether `EPOLLOUT` is to be reported: the file is writable, that is of interest, and in
    /// edge-triggered mode it was not collected yet.
    pub open spec fn reports_out(self) -> bool {
        &&& self.interest.bits & 0x4 != 0
        &&& self.state.writable
        &&& self.interest.bits & 0x8000_0000 != 0 ==> !self.collected.writable
    }

    /// The entry after its events were modified.
    pub open spec fn modified(
        self,
        interest: EpollEvents,
        data: u64,
        state: FileState,
    ) -> EntryView {
        EntryView { interest, data, state, collected: FileState::empty(), ..self }
    }

    /// The entry after the flags `changed` of the file have changed, which led to `new_state`. What
    /// has changed can be collected again, and so can a readable file whose read buffer grew.
    pub open spec fn notified(
        self,
        new_state: FileState,
        changed: FileState,
        signals: FileSignals,
    ) -> EntryView {
        let collected = self.collected.difference(changed);
        EntryView {
            state: new_state,
            collected: if signals.read_buffer_grew && new_state.readable {
                collected.difference(FileState::readable())
            } else {
                collected
            },
            ..self
        }
    }

    /// The entry after its ready events were collected. In one-shot mode it is no longer
    /// interested in them.
    pub open spec fn after_collect(self) -> EntryView {
        let events = self.ready_events();
        if events.is_empty() {
            self
        } else {
            EntryView {
                collected: self.collected.union(state_of(events)),
                interest: if self.interest.contains(EpollEvents::epolloneshot()) {
                    self.interest.difference(events)
                } else {
                    self.interest
                },
                ..self
            }
        }
    }
}

/// Used to track the status of a file we are monitoring for events. Any complicated logic for
/// deciding when a file has events that epoll should report should be specified in this object's
/// implementation.
pub struct Entry {
    priority: Option<u64>,
    interest: EpollEvents,
    data: u64,
    listener_handle: Option<Handle>,
    state: FileState,
    collected: FileState,
    is_legacy: bool,
}

impl View for Entry {
    type V = EntryView;

    closed spec fn view(&self) -> EntryView {
        EntryView {
            priority: self.priority,
            interest: self.interest,
            data: self.data,
            listener_handle: self.listener_handle,
            state: self.state,
            collected: self.collected,
            is_legacy: self.is_legacy,
        }
    }
}

impl Entry {
    /// An entry for a file in this state.
    pub fn new(interest: EpollEvents, data: u64, state: FileState) -> (r: Entry)
        ensures
            r@ == (EntryView {
                priority: None,
                interest,
                data,
                listener_handle: None,
                state,
                collected: FileState::empty(),
                is_legacy: false,
            }),
    {
        Entry {
            priority: None,
            interest,
            data,
            listener_handle: None,
            state,
            collected: FileState::empty(),
            is_legacy: false,
        }
    }

    /// Marks the file as one that has its state managed in the old way.
    pub fn set_legacy(&mut self)
        ensures
            final(self)@ == (EntryView { is_legacy: true, ..old(self)@ }),
    {
        self.is_legacy = true;
    }

    /// Updates the events that should be tracked in this entry, and the data that should be
    /// returned to the managed process when those events occur.
    ///
    /// Note that this operation causes us to store the given current file state so that future
    /// changes are tracked from the state at the time `modify()` was called, and internal state for
    /// tracking which events have been collected by the managed process are updated accordingly.
    pub fn modify(&mut self, interest: EpollEvents, data: u64, state: FileState)
        ensures
            final(self)@ == old(self)@.modified(interest, data, state),
    {
        self.interest = interest;
        self.data = data;
        self.state = state;
        self.collected = FileState::empty();
    }

    /// Replaces the priority among other ready entries.
    pub fn set_priority(&mut self, priority: Option<u64>)
        ensures
            final(self)@ == (EntryView { priority, ..old(self)@ }),
    {
        self.priority = priority;
    }

    /// The priority among other ready entries.
    pub fn priority(&self) -> (r: Option<u64>)
        ensures
            r == self@.priority,
    {
        self.priority
    }

    /// Takes note that the flags `changed` of the file have changed, which led to `new_state`, and
    /// of the signals that came along. Only an edge-triggered entry gets the signal that the read
    /// buffer grew, because only such an entry subscribes to it.
    pub fn notify(&mut self, new_state: FileState, changed: FileState, signals: FileSignals)
        requires
            signals.read_buffer_grew ==> old(self)@.interest.intersects(EpollEvents::epollet()),
        ensures
            final(self)@ == old(self)@.notified(new_state, changed, signals),
    {
        self.state = new_state;
        self.collected.remove(changed);
        // if the file is written again, let the epoll waiter collect the events again
        if signals.contains(FileSignals::read_buffer_grew()) {
            // ignore the signal if the file isn't readable
            if new_state.contains(FileState::readable()) {
                self.collected.remove(FileState::readable());
            }
        }
    }

    /// The file state changes that we want to be notified about.
    pub fn get_listener_state(&self) -> (r: FileState)
        ensures
            r == (if self@.is_legacy {
                FileState::all()
            } else {
                state_of(self@.interest).union(FileState::closed())
            }),
            r.readable <==> self@.is_legacy || self@.interest.bits & 0x1 != 0,
            r.writable <==> self@.is_legacy || self@.interest.bits & 0x4 != 0,
            r.closed,
            r.active <==> self@.is_legacy,
            r.input_buffer_parity <==> self@.is_legacy,
    {
        if self.is_legacy {
            return FileState::all();
        }
        Self::state_from_events(self.interest).union(FileState::closed())
    }

    /// The signals that we want to be notified about.
    pub fn get_listener_signals(&self) -> (r: FileSignals)
        ensures
            r == (FileSignals {
                read_buffer_grew: self@.interest.intersects(EpollEvents::epollet()),
            }),
            r.read_buffer_grew <==> self@.interest.bits & 0x8000_0000 != 0,
    {
        let mut signals = FileSignals::empty();
        if self.interest.intersects(EpollEvents::epollet()) {
            signals.insert(FileSignals::read_buffer_grew());
        }
        signals
    }

    /// Replaces the handle to the registered file status listener. Returns the one that was
    /// replaced, so that its subscription can be ended.
    pub fn set_listener_handle(&mut self, handle: Option<Handle>) -> (r: Option<Handle>)
        ensures
            r == old(self)@.listener_handle,
            final(self)@ == (EntryView { listener_handle: handle, ..old(self)@ }),
    {
        let replaced = self.listener_handle.take();
        self.listener_handle = handle;
        replaced
    }

    /// Whether the entry is ready to report events.
    pub fn has_ready_events(&self) -> (r: bool)
        ensures
            r == self@.has_ready_events(),
            r <==> !self@.state.closed && (self@.is_legacy ==> self@.state.active) && (
            self@.reports_in() || self@.reports_out()),
    {
        proof {
            law_ready_events(self@);
        }
        if self.is_legacy {
            if self.state.contains(FileState::closed()) {
                return false;
            } else if self.state.contains(FileState::active()) {
                return !self.get_ready_events().is_empty();
            } else {
                return false;
            }
        }
        !self.state.contains(FileState::closed()) && !self.get_ready_events().is_empty()
    }

    /// Reports the ready events, if there are any, along with the registered data.
    pub fn collect_ready_events(&mut self) -> (r: Option<(EpollEvents, u64)>)
        ensures
            r == (if old(self)@.ready_events().is_empty() {
                None
            } else {
                Some((old(self)@.ready_events(), old(self)@.data))
            }),
            final(self)@ == old(self)@.after_collect(),
            r is Some <==> old(self)@.reports_in() || old(self)@.reports_out(),
            r matches Some((events, data)) ==> {
                &&& data == old(self)@.data
                &&& events.bits == (if old(self)@.reports_in() {
                    0x1int
                } else {
                    0
                }) + (if old(self)@.reports_out() {
                    0x4int
                } else {
                    0
                })
            },
    {
        proof {
            law_ready_events(self@);
        }
        let events = self.get_ready_events();
        if events.is_empty() {
            return None;
        }
        self.collected.insert(Self::state_from_events(events));
        if self.interest.contains(EpollEvents::epolloneshot()) {
            self.interest.remove(events);
        }
        Some((events, self.data))
    }

    fn get_ready_events(&self) -> (r: EpollEvents)
        ensures
            r == self@.ready_events(),
    {
        let events = Self::events_from_state(self.get_ready_state());
        self.interest.intersection(events)
    }

    fn get_ready_state(&self) -> (r: FileState)
        ensures
            r == self@.ready_state(),
    {
        if self.interest.contains(EpollEvents::epollet()) {
            self.state.difference(self.collected)
        } else {
            self.state
        }
    }

    fn events_from_state(state: FileState) -> (r: EpollEvents)
        ensures
            r == events_of(state),
    {
        let mut events = EpollEvents::empty();
        if state.intersects(FileState::readable()) {
            events.insert(EpollEvents::epollin());
        }
        if state.intersects(FileState::writable()) {
            events.insert(EpollEvents::epollout());
        }
        proof {
            assert(0u32 | EPOLLIN == EPOLLIN | 0) by (bit_vector);
            assert(EPOLLIN | EPOLLOUT == 0u32 | EPOLLIN | EPOLLOUT) by (bit_vector);
            assert(0u32 | 0 == 0) by (bit_vector);
        }
        events
    }

    fn state_from_events(events: EpollEvents) -> (r: FileState)
        ensures
            r == state_of(events),
    {
        let mut state = FileState::empty();
        if events.intersects(EpollEvents::epollin()) {
            state.insert(FileState::readable());
        }
        if events.intersects(EpollEvents::epollout()) {
            state.insert(FileState::writable());
        }
        state
    }
}

/// How the bits of a set of events and of the events in it that a file has hang together.
proof fn lemma_ready_bits(interest: EpollEvents, state: FileState)
    ensures
        ({
            let events = interest.intersection(events_of(state));
            let rest = interest.difference(events);
            &&& events.intersects(EpollEvents::epollin()) <==> state.readable
                && interest.intersects(EpollEvents::epollin())
            &&& events.intersects(EpollEvents::epollout()) <==> state.writable
                && interest.intersects(EpollEvents::epollout())
            &&& events.is_empty() <==> !events.intersects(EpollEvents::epollin())
                && !events.intersects(EpollEvents::epollout())
            &&& interest.contains(events)
            &&& rest.intersects(EpollEvents::epollin()) <==> interest.intersects(
                EpollEvents::epollin(),
            ) && !state.readable
            &&& rest.intersects(EpollEvents::epollout()) <==> interest.intersects(
                EpollEvents::epollout(),
            ) && !state.writable
            &&& rest.contains(EpollEvents::epollet()) <==> interest.contains(EpollEvents::epollet())
            &&& rest.contains(EpollEvents::epolloneshot()) <==> interest.contains(
                EpollEvents::epolloneshot(),
            )
        }),
{
    let i = interest.bits;
    let r = state.readable;
    let w = state.writable;
    let e = i & events_of(state).bits;
    assert(({
        &&& e & EPOLLIN != 0 <==> r && i & EPOLLIN != 0
        &&& e & EPOLLOUT != 0 <==> w && i & EPOLLOUT != 0
        &&& e == 0 <==> e & EPOLLIN == 0 && e & EPOLLOUT == 0
        &&& i & e == e
        &&& (i & !e) & EPOLLIN != 0 <==> i & EPOLLIN != 0 && !r
        &&& (i & !e) & EPOLLOUT != 0 <==> i & EPOLLOUT != 0 && !w
        &&& (i & !e) & EPOLLET == i & EPOLLET
        &&& (i & !e) & EPOLLONESHOT == i & EPOLLONESHOT
    })) by (bit_vector)
        requires
            e == i & ((if r {
                EPOLLIN
            } else {
                0u32
            }) | (if w {
                EPOLLOUT
            } else {
                0u32
            })),
    ;
}

/// Only events that the managed process is interested in are reported.
pub proof fn law_only_interesting_events(entry: EntryView)
    ensures
        entry.interest.contains(entry.ready_events()),
{
    lemma_ready_bits(entry.interest, entry.ready_state());
}

/// Level-triggered: collecting events changes nothing about what is ready, so that they are
/// reported until the state turns off.
pub proof fn law_level_triggered(entry: EntryView)
    requires
        !entry.interest.contains(EpollEvents::epollet()),
        !entry.interest.contains(EpollEvents::epolloneshot()),
    ensures
        entry.after_collect().ready_events() == entry.ready_events(),
        entry.after_collect().has_ready_events() == entry.has_ready_events(),
{
}

/// Level-triggered: whether an event is ready depends on the current state of the file alone.
pub proof fn law_level_follows_state(
    entry: EntryView,
    new_state: FileState,
    changed: FileState,
    signals: FileSignals,
)
    requires
        !entry.interest.contains(EpollEvents::epollet()),
    ensures
        entry.notified(new_state, changed, signals).ready_events() == entry.interest.intersection(
            events_of(new_state),
        ),
{
}

/// Edge-triggered: once the ready events were collected, none are ready.
pub proof fn law_edge_triggered(entry: EntryView)
    requires
        entry.interest.contains(EpollEvents::epollet()),
    ensures
        entry.after_collect().ready_events().is_empty(),
{
    let after = entry.after_collect();
    lemma_ready_bits(entry.interest, entry.ready_state());
    lemma_ready_bits(after.interest, after.ready_state());
}

/// Edge-triggered: where nothing is ready, nothing becomes ready as long as no flag turns on, the
/// flags that epoll reports do not change, and the read buffer of a readable file does not grow.
pub proof fn law_edge_stays_quiet(
    entry: EntryView,
    new_state: FileState,
    changed: FileState,
    signals: FileSignals,
)
    requires
        entry.interest.contains(EpollEvents::epollet()),
        entry.ready_events().is_empty(),
        !changed.readable && !changed.writable,
        new_state.readable ==> entry.state.readable,
        new_state.writable ==> entry.state.writable,
        !(signals.read_buffer_grew && new_state.readable),
    ensures
        entry.notified(new_state, changed, signals).ready_events().is_empty(),
{
    lemma_ready_bits(entry.interest, entry.ready_state());
    let after = entry.notified(new_state, changed, signals);
    lemma_ready_bits(after.interest, after.ready_state());
}

/// An event of interest is ready when the file gets into that state, and a readable file has
/// `EPOLLIN` ready when its read buffer grows, whatever was collected before.
pub proof fn law_news_is_ready(
    entry: EntryView,
    new_state: FileState,
    changed: FileState,
    signals: FileSignals,
)
    ensures
        entry.interest.intersects(EpollEvents::epollin()) && new_state.readable && (changed.readable
            || signals.read_buffer_grew) ==> entry.notified(
            new_state,
            changed,
            signals,
        ).ready_events().intersects(EpollEvents::epollin()),
        entry.interest.intersects(EpollEvents::epollout()) && new_state.writable && changed.writable
            ==> entry.notified(new_state, changed, signals).ready_events().intersects(
            EpollEvents::epollout(),
        ),
{
    let after = entry.notified(new_state, changed, signals);
    lemma_ready_bits(after.interest, after.ready_state());
}

/// A signal that the read buffer grew means nothing while the file is not readable.
pub proof fn law_growth_needs_readable(
    entry: EntryView,
    new_state: FileState,
    changed: FileState,
)
    requires
        !new_state.readable,
    ensures
        entry.notified(new_state, changed, FileSignals::read_buffer_grew()) == entry.notified(
            new_state,
            changed,
            FileSignals::empty(),
        ),
{
}

/// One-shot: events that were collected are not reported again for as long as the interest stays
/// as it is, and only modifying the entry changes the interest.
pub proof fn law_one_shot(
    entry: EntryView,
    later: EntryView,
    new_state: FileState,
    changed: FileState,
    signals: FileSignals,
)
    requires
        entry.interest.contains(EpollEvents::epolloneshot()),
        later.interest == entry.after_collect().interest,
    ensures
        !later.ready_events().intersects(entry.ready_events()),
        later.notified(new_state, changed, signals).interest == later.interest,
        !later.after_collect().ready_events().intersects(entry.ready_events()),
{
    let i = entry.interest.bits;
    let e = entry.ready_events().bits;
    let m = events_of(later.ready_state()).bits;
    let n = events_of(later.after_collect().ready_state()).bits;
    let x = later.ready_events().bits;
    lemma_ready_bits(later.interest, later.ready_state());
    assert(((i & !e) & m) & e == 0) by (bit_vector);
    assert((((i & !e) & !x) & n) & e == 0) by (bit_vector);
    assert(((i & !e) & n) & e == 0) by (bit_vector);
    if e == 0 {
        assert(x & e == 0 && (later.after_collect().ready_events().bits) & e == 0) by {
            let y = later.after_collect().ready_events().bits;
            assert(x & 0u32 == 0) by (bit_vector);
            assert(y & 0u32 == 0) by (bit_vector);
        }
    }
}

/// Modifying an entry starts it over: what is ready then is what a new entry would have ready.
pub proof fn law_modify_starts_over(
    entry: EntryView,
    interest: EpollEvents,
    data: u64,
    state: FileState,
)
    ensures
        entry.modified(interest, data, state).ready_events() == interest.intersection(
            events_of(state),
        ),
{
}

/// `EPOLLIN` is ready exactly if the file is readable, the managed process is interested in that,
/// and in edge-triggered mode it was not collected since the flag last changed. The same goes for
/// `EPOLLOUT` and writable. Nothing else is ever ready.
pub proof fn law_ready_events(entry: EntryView)
    ensures
        ({
            let interest = entry.interest.bits;
            let edge = interest & 0x8000_0000 != 0;
            let ready = entry.ready_events().bits;
            let in_ready = interest & 0x1 != 0 && entry.state.readable && !(edge
                && entry.collected.readable);
            let out_ready = interest & 0x4 != 0 && entry.state.writable && !(edge
                && entry.collected.writable);
            &&& ready == (if in_ready {
                0x1int
            } else {
                0
            }) + (if out_ready {
                0x4int
            } else {
                0
            })
            &&& entry.ready_events().is_empty() <==> !in_ready && !out_ready
        }),
        entry.ready_events().bits == (if entry.reports_in() {
            0x1int
        } else {
            0
        }) + (if entry.reports_out() {
            0x4int
        } else {
            0
        }),
{
    let interest = entry.interest.bits;
    assert(interest & 0x8000_0000 == 0x8000_0000 <==> interest & 0x8000_0000 != 0) by (bit_vector);
    let r = entry.ready_state().readable;
    let w = entry.ready_state().writable;
    let e = entry.ready_events().bits;
    let i = interest & 0x1 != 0 && r;
    let o = interest & 0x4 != 0 && w;
    assert(e == if i && o {
        5u32
    } else if i {
        1u32
    } else if o {
        4u32
    } else {
        0u32
    }) by (bit_vector)
        requires
            e == interest & ((if r {
                EPOLLIN
            } else {
                0u32
            }) | (if w {
                EPOLLOUT
            } else {
                0u32
            })),
            i == (interest & 0x1 != 0 && r),
            o == (interest & 0x4 != 0 && w),
    ;
}

/// An entry is ready exactly if collecting from it would report something, for as long as the file
/// is not closed and, if it is a legacy file, is active. That goes for edge-triggered entries too:
/// a file that is writable, or readable, from the start is ready. The entry of a closed file is
/// never ready.
pub proof fn law_ready_if_reported(entry: EntryView)
    ensures
        !entry.state.closed && !entry.is_legacy ==> (entry.has_ready_events() <==> entry
            .ready_events().bits != 0),
        !entry.state.closed && entry.is_legacy && entry.state.active ==> (entry.has_ready_events()
            <==> entry.ready_events().bits != 0),
        entry.state.closed ==> !entry.has_ready_events(),
        entry.is_legacy && !entry.state.active ==> !entry.has_ready_events(),
        !entry.state.closed && !entry.is_legacy && entry.state.writable && !entry.collected.writable
            && entry.interest.bits & 0x4 != 0 ==> entry.has_ready_events(),
        !entry.state.closed && !entry.is_legacy && entry.state.readable && !entry.collected.readable
            && entry.interest.bits & 0x1 != 0 ==> entry.has_ready_events(),
{
    law_ready_events(entry);
}

/// Collecting takes note of what was reported and of nothing else. A one-shot entry loses its
/// interest in what was reported and keeps the rest of it; another entry keeps all of it.
pub proof fn law_collecting(entry: EntryView)
    ensures
        ({
            let after = entry.after_collect();
            let reported = entry.ready_events().bits;
            &&& after.collected.readable <==> entry.collected.readable || reported & 0x1 != 0
            &&& after.collected.writable <==> entry.collected.writable || reported & 0x4 != 0
            &&& after.collected.active == entry.collected.active
            &&& after.collected.closed == entry.collected.closed
            &&& after.collected.input_buffer_parity == entry.collected.input_buffer_parity
            &&& entry.interest.bits & 0x4000_0000 != 0 ==> after.interest.bits & reported == 0
                && after.interest.bits | reported == entry.interest.bits
            &&& entry.interest.bits & 0x4000_0000 == 0 ==> after.interest == entry.interest
            &&& after.state == entry.state
            &&& after.data == entry.data
            &&& after.priority == entry.priority
            &&& after.listener_handle == entry.listener_handle
            &&& after.is_legacy == entry.is_legacy
        }),
{
    law_ready_events(entry);
    lemma_ready_bits(entry.interest, entry.ready_state());
    let i = entry.interest.bits;
    let e = entry.ready_events().bits;
    assert(i & 0x4000_0000 == 0x4000_0000 <==> i & 0x4000_0000 != 0) by (bit_vector);
    assert(i & 0 == 0 && i | 0 == i && 0u32 & 0x1 == 0 && 0u32 & 0x4 == 0) by (bit_vector);
    assert((i & !e) & e == 0) by (bit_vector);
    assert(i & e == e ==> (i & !e) | e == i) by (bit_vector);
}

/// What an entry learns from the file: the new state; and what was collected may be collected again
/// exactly where it has changed, or where the read buffer of a readable file grew.
pub proof fn law_notifying(
    entry: EntryView,
    new_state: FileState,
    changed: FileState,
    signals: FileSignals,
)
    ensures
        ({
            let after = entry.notified(new_state, changed, signals);
            &&& after.state == new_state
            &&& after.collected.readable <==> entry.collected.readable && !changed.readable && !(
            signals.read_buffer_grew && new_state.readable)
            &&& after.collected.writable <==> entry.collected.writable && !changed.writable
            &&& after.collected.active <==> entry.collected.active && !changed.active
            &&& after.collected.closed <==> entry.collected.closed && !changed.closed
            &&& after.collected.input_buffer_parity <==> entry.collected.input_buffer_parity
                && !changed.input_buffer_parity
            &&& after.interest == entry.interest
            &&& after.data == entry.data
            &&& after.priority == entry.priority
            &&& after.listener_handle == entry.listener_handle
            &&& after.is_legacy == entry.is_legacy
        }),
{
}

/// Modifying an entry replaces the interest, the data and the state, and forgets what was
/// collected. The rest stays.
pub proof fn law_modifying(entry: EntryView, interest: EpollEvents, data: u64, state: FileState)
    ensures
        ({
            let after = entry.modified(interest, data, state);
            &&& after.interest == interest
            &&& after.data == data
            &&& after.state == state
            &&& !after.collected.active && !after.collected.readable && !after.collected.writable
                && !after.collected.closed && !after.collected.input_buffer_parity
            &&& after.priority == entry.priority
            &&& after.listener_handle == entry.listener_handle
            &&& after.is_legacy == entry.is_legacy
        }),
{
}

/// How sets of events are combined and compared, told by the sets alone and by the numbers of
/// epoll_ctl(2).
pub proof fn law_event_sets(a: EpollEvents, b: EpollEvents)
    ensures
        EpollEvents::empty().bits == 0,
        EpollEvents::epollin().bits == 0x1,
        EpollEvents::epollout().bits == 0x4,
        EpollEvents::epolloneshot().bits == 0x4000_0000,
        EpollEvents::epollet().bits == 0x8000_0000,
        a.is_empty() <==> a == EpollEvents::empty(),
        a.contains(b) <==> a.union(b) == a,
        a.intersects(b) <==> !a.intersection(b).is_empty(),
        a.union(b).contains(a) && a.union(b).contains(b),
        a.contains(a.intersection(b)) && b.contains(a.intersection(b)),
        a.difference(b).union(a.intersection(b)) == a,
        !a.difference(b).intersects(b),
        a.union(b).difference(b) == a.difference(b),
{
    let (x, y) = (a.bits, b.bits);
    assert(({
        &&& x & y == y <==> x | y == x
        &&& (x | y) & x == x && (x | y) & y == y
        &&& x & (x & y) == x & y && y & (x & y) == x & y
        &&& (x & !y) | (x & y) == x
        &&& (x & !y) & y == 0
        &&& (x | y) & !y == x & !y
    })) by (bit_vector);
}

} // verus!
