//! How a file tells others that its state has changed.
//!
//! A listener subscribes to a [`StatusEventSource`]. Whenever the state of the file changes, the
//! source appends one [`Event`] for each interested listener to an [`EventQueue`], in the order
//! in which the listeners subscribed. The owner of the queue takes the events out and runs them.
use crate::flags::{FileState, Status};
use crate::pointer::SyncSendPointer;
use std::collections::HashMap;
use vstd::prelude::*;
use vstd::seq_lib::lemma_seq_contains_after_push;

verus! {

broadcast use vstd::std_specs::hash::group_hash_axioms;

/// Which changes of the monitored bits a listener wants to be told about.
#[derive(Clone, Copy, PartialEq, Eq, Structural, Debug)]
pub enum NewStatusListenerFilter {
    /// None.
    Never,
    /// At least one monitored bit is on, and at least one has changed.
    OffToOn,
    /// All monitored bits are off, and at least one has changed.
    OnToOff,
    /// At least one monitored bit has changed.
    Always,
}

impl NewStatusListenerFilter {
    /// Whether a change of the bits `changed`, which led to `status`, passes the filter.
    pub open spec fn spec_admits(
        self,
        monitoring: Status,
        status: Status,
        changed: Status,
    ) -> bool {
        let flipped = monitoring & changed != 0;
        let on = monitoring & status != 0;
        match self {
            NewStatusListenerFilter::OffToOn => flipped && on,
            NewStatusListenerFilter::OnToOff => flipped && !on,
            NewStatusListenerFilter::Always => flipped,
            NewStatusListenerFilter::Never => false,
        }
    }

    /// Whether a change of the bits `changed`, which led to `status`, passes the filter.
    #[verifier::when_used_as_spec(spec_admits)]
    pub fn admits(self, monitoring: Status, status: Status, changed: Status) -> (r: bool)
        ensures
            r == self.admits(monitoring, status, changed),
    {
        // true if any of the bits we're monitoring have changed
        let flipped = monitoring & changed != 0;
        // true if any of the bits we're monitoring are set
        let on = monitoring & status != 0;
        match self {
            NewStatusListenerFilter::OffToOn => flipped && on,
            NewStatusListenerFilter::OnToOff => flipped && !on,
            NewStatusListenerFilter::Always => flipped,
            NewStatusListenerFilter::Never => false,
        }
    }
}

/// Whom an event is for.
#[derive(Clone, Copy, PartialEq, Eq, Structural, Debug)]
pub enum Target {
    /// The function that the owner of the queue knows by this number.
    Callback(u64),
    /// The status listener object at this address.
    Legacy(usize),
}

/// The news that the bits `changed` of the status of a file have changed, which led to `status`.
#[derive(Clone, Copy, PartialEq, Eq, Structural, Debug)]
pub struct Event {
    pub target: Target,
    pub status: Status,
    pub changed: Status,
}

/// Events that wait to be run, the oldest first.
pub struct EventQueue {
    events: Vec<Event>,
}

impl View for EventQueue {
    type V = Seq<Event>;

    closed spec fn view(&self) -> Seq<Event> {
        self.events@
    }
}

impl EventQueue {
    /// A queue without events.
    pub fn new() -> (r: EventQueue)
        ensures
            r@ == Seq::<Event>::empty(),
    {
        EventQueue { events: Vec::new() }
    }

    /// Appends an event.
    pub fn push(&mut self, event: Event)
        ensures
            final(self)@ == old(self)@.push(event),
    {
        self.events.push(event);
    }

    /// Takes the oldest event out.
    pub fn pop(&mut self) -> (r: Option<Event>)
        ensures
            old(self)@.len() == 0 ==> r is None && final(self)@ == old(self)@,
            old(self)@.len() > 0 ==> r == Some(old(self)@[0]) && final(self)@
                == old(self)@.drop_first(),
    {
        if self.events.len() == 0 {
            None
        } else {
            Some(self.events.remove(0))
        }
    }
}

/// What a listener subscribed to.
#[derive(Clone, Copy, PartialEq, Eq, Structural, Debug)]
pub enum Subscription {
    /// Changes of the bits in `monitoring` that pass `filter`.
    Filtered { monitoring: Status, filter: NewStatusListenerFilter, callback: u64 },
    /// Every change, for the status listener object at `ptr`.
    Legacy { ptr: usize },
}

impl Subscription {
    /// Whether the listener is told about this change.
    pub open spec fn spec_wants(self, status: Status, changed: Status) -> bool {
        match self {
            Subscription::Filtered { monitoring, filter, .. } => filter.admits(
                monitoring,
                status,
                changed,
            ),
            Subscription::Legacy { .. } => true,
        }
    }

    /// Whether the listener is told about this change.
    #[verifier::when_used_as_spec(spec_wants)]
    pub fn wants(self, status: Status, changed: Status) -> (r: bool)
        ensures
            r == self.wants(status, changed),
    {
        match self {
            Subscription::Filtered { monitoring, filter, .. } => filter.admits(
                monitoring,
                status,
                changed,
            ),
            Subscription::Legacy { .. } => true,
        }
    }

    /// Whom the listener's events are for.
    pub open spec fn spec_target(self) -> Target {
        match self {
            Subscription::Filtered { callback, .. } => Target::Callback(callback),
            Subscription::Legacy { ptr } => Target::Legacy(ptr),
        }
    }

    /// Whom the listener's events are for.
    #[verifier::when_used_as_spec(spec_target)]
    pub fn target(self) -> (r: Target)
        ensures
            r == self.target(),
    {
        match self {
            Subscription::Filtered { callback, .. } => Target::Callback(callback),
            Subscription::Legacy { ptr } => Target::Legacy(ptr),
        }
    }
}

/// A listener: its subscription, and the number that tells it from the source's other listeners.
#[derive(Clone, Copy, PartialEq, Eq, Structural, Debug)]
pub struct Listener {
    pub id: u64,
    pub subscription: Subscription,
}

/// The events that a change is worth to `listeners`, in their order.
pub open spec fn notifications(
    listeners: Seq<Listener>,
    status: Status,
    changed: Status,
) -> Seq<Event>
    decreases listeners.len(),
{
    if listeners.len() == 0 {
        Seq::empty()
    } else {
        let earlier = notifications(listeners.drop_last(), status, changed);
        let subscription = listeners.last().subscription;
        if subscription.wants(status, changed) {
            earlier.push(Event { target: subscription.target(), status, changed })
        } else {
            earlier
        }
    }
}

/// The events that a change of the state from `before` to `after` is worth to `listeners`: none
/// if the two are the same.
pub open spec fn announcements(
    listeners: Seq<Listener>,
    before: FileState,
    after: FileState,
) -> Seq<Event> {
    if before == after {
        Seq::empty()
    } else {
        notifications(listeners, after.bits(), after.symmetric_difference(before).bits())
    }
}

/// Whether one of `listeners` has the number `id`.
pub open spec fn has_id(listeners: Seq<Listener>, id: u64) -> bool {
    exists|i: int| 0 <= i < listeners.len() && (#[trigger] listeners[i]).id == id
}

/// Whether the status listener object at `ptr` is among `listeners`.
pub open spec fn has_legacy(listeners: Seq<Listener>, ptr: usize) -> bool {
    exists|i: int|
        0 <= i < listeners.len() && (#[trigger] listeners[i]).subscription == (
        Subscription::Legacy { ptr })
}

/// Whether `after` is `before` with the status listener object at `ptr` added, under a number that
/// was free.
pub open spec fn legacy_added(before: Seq<Listener>, after: Seq<Listener>, ptr: usize) -> bool {
    exists|id: u64|
        !has_id(before, id) && after == #[trigger] before.push(
            Listener { id, subscription: Subscription::Legacy { ptr } },
        )
}

/// `listeners` without those that `removed` picks.
pub open spec fn without(listeners: Seq<Listener>, removed: spec_fn(Listener) -> bool) -> Seq<
    Listener,
>
    decreases listeners.len(),
{
    if listeners.len() == 0 {
        Seq::empty()
    } else {
        let earlier = without(listeners.drop_last(), removed);
        if removed(listeners.last()) {
            earlier
        } else {
            earlier.push(listeners.last())
        }
    }
}

/// Picks the listener that has the number `id`.
pub open spec fn picks_id(id: u64) -> spec_fn(Listener) -> bool {
    |l: Listener| l.id == id
}

/// Picks the listener that has the number `id`, unless that is a status listener object.
pub open spec fn picks_filtered(id: u64) -> spec_fn(Listener) -> bool {
    |l: Listener| l.id == id && l.subscription is Filtered
}

/// Picks the status listener object at `ptr`.
pub open spec fn picks_legacy(ptr: usize) -> spec_fn(Listener) -> bool {
    |l: Listener| l.subscription == (Subscription::Legacy { ptr })
}

/// `listeners` without the one that has the number `id`.
pub open spec fn without_id(listeners: Seq<Listener>, id: u64) -> Seq<Listener> {
    without(listeners, picks_id(id))
}

/// `listeners` without the one that has the number `id`, unless that is a status listener object.
pub open spec fn without_filtered(listeners: Seq<Listener>, id: u64) -> Seq<Listener> {
    without(listeners, picks_filtered(id))
}

/// `listeners` without the status listener object at `ptr`.
pub open spec fn without_legacy(listeners: Seq<Listener>, ptr: usize) -> Seq<Listener> {
    without(listeners, picks_legacy(ptr))
}

/// Keeps a listener subscribed until it is given back to [`EventSource::remove_listener`].
#[derive(Debug)]
pub struct Handle {
    id: u64,
}

impl Handle {
    /// The number of the listener.
    pub closed spec fn id(self) -> u64 {
        self.id
    }
}

/// Listeners in the order in which they subscribed.
pub struct EventSource {
    listeners: Vec<Listener>,
}

impl View for EventSource {
    type V = Seq<Listener>;

    closed spec fn view(&self) -> Seq<Listener> {
        self.listeners@
    }
}

/// No two listeners have the same number.
pub open spec fn distinct_ids(listeners: Seq<Listener>) -> bool {
    forall|i: int, j: int|
        0 <= i < j < listeners.len() ==> (#[trigger] listeners[i]).id != (
        #[trigger] listeners[j]).id
}

impl EventSource {
    /// A source without listeners.
    pub fn new() -> (r: EventSource)
        ensures
            r@ == Seq::<Listener>::empty(),
    {
        EventSource { listeners: Vec::new() }
    }

    fn contains_id(&self, id: u64) -> (r: bool)
        ensures
            r == has_id(self@, id),
    {
        let mut i: usize = 0;
        while i < self.listeners.len()
            invariant
                i <= self.listeners.len(),
                forall|j: int| 0 <= j < i ==> (#[trigger] self.listeners@[j]).id != id,
            decreases self.listeners.len() - i,
        {
            if self.listeners[i].id == id {
                return true;
            }
            i += 1;
        }
        false
    }

    /// A number that no listener has.
    fn free_id(&self) -> (r: u64)
        ensures
            !has_id(self@, r),
    {
        let mut id: u64 = 0;
        while self.contains_id(id)
            invariant
                id <= self@.len(),
                forall|n: u64| n < id ==> has_id(self@, n),
            decreases self@.len() - id,
        {
            proof {
                lemma_ids_taken(self@, id);
                assert(self.listeners.len() == self@.len());
            }
            id += 1;
        }
        id
    }

    /// Subscribes a listener. It stays subscribed until the handle is given back.
    pub fn add_listener(&mut self, subscription: Subscription) -> (r: Handle)
        ensures
            !has_id(old(self)@, r.id()),
            final(self)@ == old(self)@.push(Listener { id: r.id(), subscription }),
    {
        let id = self.free_id();
        self.listeners.push(Listener { id, subscription });
        Handle { id }
    }

    /// Ends the subscription of the listener that `handle` was given out for.
    pub fn remove_listener(&mut self, handle: Handle)
        ensures
            final(self)@ == without_id(old(self)@, handle.id()),
    {
        self.remove(handle.id, false);
    }

    /// Removes the listener that has the number `id`. With `spare_legacy` it stays if it is a
    /// status listener object.
    fn remove(&mut self, id: u64, spare_legacy: bool)
        ensures
            final(self)@ == (if spare_legacy {
                without_filtered(old(self)@, id)
            } else {
                without_id(old(self)@, id)
            }),
    {
        let ghost removed = if spare_legacy {
            picks_filtered(id)
        } else {
            picks_id(id)
        };
        let mut kept: Vec<Listener> = Vec::new();
        let mut i: usize = 0;
        while i < self.listeners.len()
            invariant
                i <= self.listeners.len(),
                self.listeners@ == old(self)@,
                removed == (if spare_legacy {
                    picks_filtered(id)
                } else {
                    picks_id(id)
                }),
                kept@ == without(self@.take(i as int), removed),
            decreases self.listeners.len() - i,
        {
            let listener = self.listeners[i];
            assert(self@.take(i + 1).drop_last() == self@.take(i as int));
            let spared = match listener.subscription {
                Subscription::Filtered { .. } => false,
                Subscription::Legacy { .. } => spare_legacy,
            };
            if listener.id != id || spared {
                kept.push(listener);
            }
            i += 1;
        }
        assert(self@.take(i as int) == self@);
        self.listeners = kept;
    }

    /// Appends one event per interested listener to `event_queue`.
    pub fn notify_listeners(
        &self,
        status: Status,
        changed: Status,
        event_queue: &mut EventQueue,
    )
        ensures
            final(event_queue)@ == old(event_queue)@ + notifications(self@, status, changed),
    {
        let mut i: usize = 0;
        while i < self.listeners.len()
            invariant
                i <= self.listeners.len(),
                event_queue@ == old(event_queue)@ + notifications(
                    self@.take(i as int),
                    status,
                    changed,
                ),
            decreases self.listeners.len() - i,
        {
            let subscription = self.listeners[i].subscription;
            assert(self@.take(i + 1).drop_last() == self@.take(i as int));
            if subscription.wants(status, changed) {
                event_queue.push(Event { target: subscription.target(), status, changed });
            }
            i += 1;
        }
        assert(self@.take(i as int) == self@);
    }
}

/// If every number below `id` is taken by one of `listeners`, there are at least `id` of them;
/// if `id` is taken too, there are more.
proof fn lemma_ids_taken(listeners: Seq<Listener>, id: u64)
    requires
        forall|n: u64| n < id ==> has_id(listeners, n),
        has_id(listeners, id),
    ensures
        id < listeners.len(),
{
    let ids = listeners.map_values(|l: Listener| l.id as int);
    let below = vstd::set_lib::set_int_range(0, id + 1);
    vstd::set_lib::lemma_int_range(0, id + 1);
    assert forall|n: int| below.contains(n) implies ids.to_set().contains(n) by {
        let taken = n as u64;
        assert(has_id(listeners, taken));
        let i = choose|i: int| 0 <= i < listeners.len() && (#[trigger] listeners[i]).id == taken;
        assert(ids[i] == n);
    }
    ids.lemma_cardinality_of_set();
    vstd::set_lib::lemma_len_subset(below, ids.to_set());
}

/// Exactly the listeners that are not picked are left, and distinct numbers stay distinct.
proof fn lemma_without(listeners: Seq<Listener>, removed: spec_fn(Listener) -> bool)
    ensures
        forall|l: Listener|
            #![trigger without(listeners, removed).contains(l)]
            #![trigger listeners.contains(l)]
            without(listeners, removed).contains(l) <==> listeners.contains(l) && !removed(l),
        distinct_ids(listeners) ==> distinct_ids(without(listeners, removed)),
    decreases listeners.len(),
{
    let kept = without(listeners, removed);
    if listeners.len() > 0 {
        let earlier = without(listeners.drop_last(), removed);
        let last = listeners.last();
        lemma_without(listeners.drop_last(), removed);
        assert(listeners == listeners.drop_last().push(last));
        assert forall|l: Listener|
            kept.contains(l) <==> listeners.contains(l) && !removed(l) by {
            lemma_seq_contains_after_push(listeners.drop_last(), last, l);
            lemma_seq_contains_after_push(earlier, last, l);
        }
        if distinct_ids(listeners) {
            assert(distinct_ids(listeners.drop_last()));
            assert forall|i: int| 0 <= i < earlier.len() implies (#[trigger] earlier[i]).id
                != last.id by {
                assert(earlier.contains(earlier[i]));
                assert(listeners.drop_last().contains(earlier[i]));
            }
        }
    }
}

/// Two ways to pick that agree on all of `listeners` leave the same ones.
proof fn lemma_without_same(
    listeners: Seq<Listener>,
    removed: spec_fn(Listener) -> bool,
    other: spec_fn(Listener) -> bool,
)
    requires
        forall|i: int|
            0 <= i < listeners.len() ==> removed(#[trigger] listeners[i]) == other(listeners[i]),
    ensures
        without(listeners, removed) == without(listeners, other),
    decreases listeners.len(),
{
    if listeners.len() > 0 {
        assert(listeners[listeners.len() - 1] == listeners.last());
        assert forall|i: int| 0 <= i < listeners.drop_last().len() implies removed(
            #[trigger] listeners.drop_last()[i],
        ) == other(listeners.drop_last()[i]) by {
            assert(listeners.drop_last()[i] == listeners[i]);
        }
        lemma_without_same(listeners.drop_last(), removed, other);
    }
}

/// Where none is picked, all are left.
proof fn lemma_without_none(listeners: Seq<Listener>, removed: spec_fn(Listener) -> bool)
    requires
        forall|i: int| 0 <= i < listeners.len() ==> !removed(#[trigger] listeners[i]),
    ensures
        without(listeners, removed) == listeners,
    decreases listeners.len(),
{
    if listeners.len() > 0 {
        let earlier = listeners.drop_last();
        assert(listeners[listeners.len() - 1] == listeners.last());
        assert forall|i: int| 0 <= i < earlier.len() implies !removed(#[trigger] earlier[i]) by {
            assert(earlier[i] == listeners[i]);
        }
        lemma_without_none(earlier, removed);
        assert(listeners == earlier.push(listeners.last()));
    }
}

/// A status listener object that is known to a file by its address.
pub struct StatusListener;

/// The address of a status listener object, which is not null.
pub struct LegacyStatusListener(SyncSendPointer<StatusListener>);

impl LegacyStatusListener {
    /// The address.
    pub closed spec fn address(self) -> usize {
        self.0.address()
    }

    /// Wraps an address that is not null.
    pub fn new(ptr: usize) -> (r: LegacyStatusListener)
        requires
            ptr != 0,
        ensures
            r.address() == ptr,
    {
        LegacyStatusListener(SyncSendPointer::new(ptr))
    }

    /// Get the address.
    pub fn ptr(&self) -> (r: usize)
        ensures
            r == self.address(),
    {
        self.0.ptr()
    }
}

/// Stores event listener handles so that status listener objects can subscribe to events.
pub struct LegacyListenerHelper {
    handle_map: HashMap<usize, Handle>,
}

impl LegacyListenerHelper {
    /// The handles are those of the status listener objects among `listeners`.
    pub closed spec fn wf(self, listeners: Seq<Listener>) -> bool {
        &&& distinct_ids(listeners)
        &&& forall|ptr: usize| #[trigger]
            self.handle_map@.contains_key(ptr) ==> listeners.contains(
                Listener {
                    id: self.handle_map@[ptr].id(),
                    subscription: Subscription::Legacy { ptr },
                },
            )
        &&& forall|l: Listener| #[trigger]
            listeners.contains(l) ==> match l.subscription {
                Subscription::Legacy { ptr } => self.handle_map@.contains_key(ptr)
                    && self.handle_map@[ptr].id() == l.id,
                _ => true,
            }
    }

    /// A helper without handles.
    pub fn new() -> (r: LegacyListenerHelper)
        ensures
            r.wf(Seq::empty()),
    {
        LegacyListenerHelper { handle_map: HashMap::new() }
    }

    /// Subscribes the status listener object at `ptr` to every event of `event_source`, unless it
    /// is subscribed already. Returns whether it was subscribed now, that is, whether a reference
    /// to the object is now held.
    pub fn add_listener(&mut self, ptr: usize, event_source: &mut EventSource) -> (r: bool)
        requires
            ptr != 0,
            old(self).wf(old(event_source)@),
        ensures
            final(self).wf(final(event_source)@),
            r == !has_legacy(old(event_source)@, ptr),
            !r ==> final(event_source)@ == old(event_source)@,
            r ==> legacy_added(old(event_source)@, final(event_source)@, ptr),
    {
        let ghost before = event_source@;
        proof {
            assert(has_legacy(before, ptr) ==> self.handle_map@.contains_key(ptr)) by {
                if has_legacy(before, ptr) {
                    let i = choose|i: int|
                        0 <= i < before.len() && (#[trigger] before[i]).subscription == (
                        Subscription::Legacy { ptr });
                    assert(before.contains(before[i]));
                }
            }
            assert(self.handle_map@.contains_key(ptr) ==> has_legacy(before, ptr));
        }
        // if it's already listening, don't add a second time
        if self.handle_map.contains_key(&ptr) {
            return false;
        }
        let listener = LegacyStatusListener::new(ptr);
        let handle = event_source.add_listener(Subscription::Legacy { ptr: listener.ptr() });
        let ghost id = handle.id();
        self.handle_map.insert(ptr, handle);
        proof {
            let added = Listener { id, subscription: Subscription::Legacy { ptr } };
            assert forall|l: Listener| #[trigger] event_source@.contains(l) <==> before.contains(l)
                || l == added by {
                lemma_seq_contains_after_push(before, added, l);
            }
            assert(distinct_ids(event_source@));
        }
        true
    }

    /// Ends the subscription of the status listener object at `ptr`, if there is one. Returns
    /// whether there was one, that is, whether a reference to the object is no longer held.
    pub fn remove_listener(&mut self, ptr: usize, event_source: &mut EventSource) -> (r: bool)
        requires
            ptr != 0,
            old(self).wf(old(event_source)@),
        ensures
            final(self).wf(final(event_source)@),
            r == has_legacy(old(event_source)@, ptr),
            final(event_source)@ == without_legacy(old(event_source)@, ptr),
    {
        let ghost before = event_source@;
        match self.handle_map.remove(&ptr) {
            Some(handle) => {
                proof {
                    let id = handle.id();
                    let removed = Listener { id, subscription: Subscription::Legacy { ptr } };
                    assert(before.contains(removed));
                    assert forall|l: Listener| #[trigger] before.contains(l) implies (l.id == id
                        <==> l.subscription == (Subscription::Legacy { ptr })) by {
                        let i = choose|i: int| 0 <= i < before.len() && before[i] == l;
                        let j = choose|j: int| 0 <= j < before.len() && before[j] == removed;
                        assert(before[i].id == id ==> i == j);
                    }
                    assert forall|i: int| 0 <= i < before.len() implies picks_id(id)(
                        #[trigger] before[i],
                    ) == picks_legacy(ptr)(before[i]) by {
                        assert(before.contains(before[i]));
                    }
                    lemma_without_same(before, picks_id(id), picks_legacy(ptr));
                    lemma_without(before, picks_id(id));
                }
                event_source.remove_listener(handle);
                true
            },
            None => {
                proof {
                    if has_legacy(before, ptr) {
                        let i = choose|i: int|
                            0 <= i < before.len() && (#[trigger] before[i]).subscription == (
                            Subscription::Legacy { ptr });
                        assert(before.contains(before[i]));
                    }
                    lemma_without_none(before, picks_legacy(ptr));
                }
                false
            },
        }
    }
}

/// A specified event source that passes a status and the changed bits to the listener, but only
/// if the monitored bits have changed and if the filter is satisfied.
pub struct StatusEventSource {
    inner: EventSource,
    legacy_helper: LegacyListenerHelper,
}

impl View for StatusEventSource {
    type V = Seq<Listener>;

    closed spec fn view(&self) -> Seq<Listener> {
        self.inner@
    }
}

impl StatusEventSource {
    /// The listeners have distinct numbers, and each status listener object is there only once.
    pub closed spec fn wf(self) -> bool {
        self.legacy_helper.wf(self.inner@)
    }

    /// A source without listeners.
    pub fn new() -> (r: StatusEventSource)
        ensures
            r.wf(),
            r@ == Seq::<Listener>::empty(),
    {
        StatusEventSource { inner: EventSource::new(), legacy_helper: LegacyListenerHelper::new() }
    }

    /// Subscribes the function known as `callback` to the changes of the bits in `monitoring`
    /// that pass `filter`.
    pub fn add_listener(
        &mut self,
        monitoring: Status,
        filter: NewStatusListenerFilter,
        callback: u64,
    ) -> (r: Handle)
        requires
            old(self).wf(),
        ensures
            final(self).wf(),
            !has_id(old(self)@, r.id()),
            final(self)@ == old(self)@.push(
                Listener {
                    id: r.id(),
                    subscription: Subscription::Filtered { monitoring, filter, callback },
                },
            ),
    {
        let ghost before = self@;
        let subscription = Subscription::Filtered { monitoring, filter, callback };
        let handle = self.inner.add_listener(subscription);
        proof {
            let added = Listener { id: handle.id(), subscription };
            assert forall|l: Listener| #[trigger] self@.contains(l) <==> before.contains(l) || l
                == added by {
                lemma_seq_contains_after_push(before, added, l);
            }
            assert(distinct_ids(self@));
        }
        handle
    }

    /// Ends the subscription that this source gave out `handle` for. Handles are told apart by
    /// their numbers alone, so one of another source must not be given back here.
    pub fn remove_listener(&mut self, handle: Handle)
        requires
            old(self).wf(),
        ensures
            final(self).wf(),
            final(self)@ == without_filtered(old(self)@, handle.id()),
    {
        proof {
            lemma_without(self@, picks_filtered(handle.id()));
        }
        self.inner.remove(handle.id, true);
    }

    /// Subscribes the status listener object at `ptr` to every change, unless it is subscribed
    /// already. Returns whether it was subscribed now.
    pub fn add_legacy_listener(&mut self, ptr: usize) -> (r: bool)
        requires
            ptr != 0,
            old(self).wf(),
        ensures
            final(self).wf(),
            r == !has_legacy(old(self)@, ptr),
            !r ==> final(self)@ == old(self)@,
            r ==> legacy_added(old(self)@, final(self)@, ptr),
    {
        self.legacy_helper.add_listener(ptr, &mut self.inner)
    }

    /// Ends the subscription of the status listener object at `ptr`, if there is one. Returns
    /// whether there was one.
    pub fn remove_legacy_listener(&mut self, ptr: usize) -> (r: bool)
        requires
            ptr != 0,
            old(self).wf(),
        ensures
            final(self).wf(),
            r == has_legacy(old(self)@, ptr),
            final(self)@ == without_legacy(old(self)@, ptr),
    {
        self.legacy_helper.remove_listener(ptr, &mut self.inner)
    }

    /// Appends one event per interested listener to `event_queue`.
    pub fn notify_listeners(
        &mut self,
        status: Status,
        changed: Status,
        event_queue: &mut EventQueue,
    )
        ensures
            *final(self) == *old(self),
            final(event_queue)@ == old(event_queue)@ + notifications(old(self)@, status, changed),
    {
        self.inner.notify_listeners(status, changed, event_queue);
    }
}

/// A change of bits that a listener does not monitor is none of its business.
pub proof fn law_unmonitored_bits(
    filter: NewStatusListenerFilter,
    monitoring: Status,
    status: Status,
    changed: Status,
)
    requires
        monitoring & changed == 0,
    ensures
        !filter.admits(monitoring, status, changed),
{
}

/// Every change of a monitored bit is one to on or one to off, and never both.
pub proof fn law_on_or_off(monitoring: Status, status: Status, changed: Status)
    ensures
        NewStatusListenerFilter::Always.admits(monitoring, status, changed) <==> (
        NewStatusListenerFilter::OffToOn.admits(monitoring, status, changed)
            || NewStatusListenerFilter::OnToOff.admits(monitoring, status, changed)),
        !(NewStatusListenerFilter::OffToOn.admits(monitoring, status, changed)
            && NewStatusListenerFilter::OnToOff.admits(monitoring, status, changed)),
        !NewStatusListenerFilter::Never.admits(monitoring, status, changed),
{
}

/// A listener that monitors flags of the state of a file is told what it should be: a monitored
/// flag has changed, and at least one is set, or none is, or either, as its filter asks for.
pub proof fn law_filter_on_state(
    filter: NewStatusListenerFilter,
    monitoring: FileState,
    state: FileState,
    changed: FileState,
)
    ensures
        filter.admits(monitoring.bits(), state.bits(), changed.bits()) <==> monitoring.intersects(
            changed,
        ) && match filter {
            NewStatusListenerFilter::Never => false,
            NewStatusListenerFilter::OffToOn => monitoring.intersects(state),
            NewStatusListenerFilter::OnToOff => !monitoring.intersects(state),
            NewStatusListenerFilter::Always => true,
        },
{
    monitoring.law_bits(changed);
    monitoring.law_bits(state);
}

/// A listener is told about a change exactly if a bit that it monitors has changed and its filter
/// lets the change pass, which depends on whether a bit that it monitors is set. The news holds all
/// the bits of the status and of the change, also those that it does not monitor.
pub proof fn law_told_of_monitored_bits(
    id: u64,
    monitoring: Status,
    filter: NewStatusListenerFilter,
    callback: u64,
    status: Status,
    changed: Status,
)
    ensures
        ({
            let listener = Listener {
                id,
                subscription: Subscription::Filtered { monitoring, filter, callback },
            };
            let told = monitoring & changed != 0 && match filter {
                NewStatusListenerFilter::Never => false,
                NewStatusListenerFilter::OffToOn => monitoring & status != 0,
                NewStatusListenerFilter::OnToOff => monitoring & status == 0,
                NewStatusListenerFilter::Always => true,
            };
            notifications(seq![listener], status, changed) == if told {
                seq![Event { target: Target::Callback(callback), status, changed }]
            } else {
                Seq::empty()
            }
        }),
{
    reveal_with_fuel(notifications, 2);
}

/// Listeners are told in the order in which they subscribed.
pub proof fn law_told_in_order(
    first: Seq<Listener>,
    second: Seq<Listener>,
    status: Status,
    changed: Status,
)
    ensures
        notifications(first + second, status, changed) == notifications(first, status, changed)
            + notifications(second, status, changed),
    decreases second.len(),
{
    if second.len() == 0 {
        assert(first + second == first);
    } else {
        assert((first + second).drop_last() == first + second.drop_last());
        assert((first + second).last() == second.last());
        law_told_in_order(first, second.drop_last(), status, changed);
    }
}

/// How many of `events` are for `target`.
pub open spec fn count_for(events: Seq<Event>, target: Target) -> nat
    decreases events.len(),
{
    if events.len() == 0 {
        0
    } else {
        count_for(events.drop_last(), target) + if events.last().target == target {
            1nat
        } else {
            0nat
        }
    }
}

/// Each status listener object is among `listeners` at most once.
pub open spec fn distinct_legacy(listeners: Seq<Listener>) -> bool {
    forall|i: int, j: int|
        0 <= i < j < listeners.len() && (#[trigger] listeners[i]).subscription is Legacy ==> (
        #[trigger] listeners[j]).subscription != listeners[i].subscription
}

impl StatusEventSource {
    /// The listeners of a source have distinct numbers, and each status listener object is there at
    /// most once, however often it was added.
    pub proof fn law_distinct(self)
        requires
            self.wf(),
        ensures
            distinct_ids(self@),
            distinct_legacy(self@),
    {
        let listeners = self@;
        assert forall|i: int, j: int|
            0 <= i < j < listeners.len() && (#[trigger] listeners[i]).subscription is Legacy implies
            (#[trigger] listeners[j]).subscription != listeners[i].subscription by {
            assert(listeners.contains(listeners[i]));
            assert(listeners.contains(listeners[j]));
        }
    }
}

/// A status listener object that is among the listeners is told about every change, once; one that
/// is not is told nothing.
pub proof fn law_legacy_told_once(
    listeners: Seq<Listener>,
    ptr: usize,
    status: Status,
    changed: Status,
)
    requires
        distinct_legacy(listeners),
    ensures
        count_for(notifications(listeners, status, changed), Target::Legacy(ptr)) == (
        if has_legacy(listeners, ptr) {
            1nat
        } else {
            0nat
        }),
    decreases listeners.len(),
{
    if listeners.len() > 0 {
        let earlier = listeners.drop_last();
        let last = listeners.last();
        let wanted = Subscription::Legacy { ptr };
        assert(distinct_legacy(earlier));
        law_legacy_told_once(earlier, ptr, status, changed);
        let told = notifications(earlier, status, changed);
        let event = Event { target: last.subscription.target(), status, changed };
        assert(told.push(event).drop_last() == told);
        assert(has_legacy(earlier, ptr) ==> has_legacy(listeners, ptr)) by {
            if has_legacy(earlier, ptr) {
                let i = choose|i: int|
                    0 <= i < earlier.len() && (#[trigger] earlier[i]).subscription == wanted;
                assert(listeners[i].subscription == wanted);
            }
        }
        assert(listeners[listeners.len() - 1] == last);
        if has_legacy(listeners, ptr) && last.subscription != wanted {
            let i = choose|i: int|
                0 <= i < listeners.len() && (#[trigger] listeners[i]).subscription == wanted;
            assert(earlier[i].subscription == wanted);
        }
        if last.subscription == wanted && has_legacy(earlier, ptr) {
            let i = choose|i: int|
                0 <= i < earlier.len() && (#[trigger] earlier[i]).subscription == wanted;
            assert(listeners[i].subscription == wanted);
        }
    }
}

/// Removing a status listener object undoes adding it.
pub proof fn law_remove_undoes_add(before: Seq<Listener>, after: Seq<Listener>, ptr: usize)
    requires
        !has_legacy(before, ptr),
        legacy_added(before, after, ptr),
    ensures
        has_legacy(after, ptr),
        without_legacy(after, ptr) == before,
{
    lemma_without_none(before, picks_legacy(ptr));
    assert(after.drop_last() == before);
    assert(after[after.len() - 1].subscription == (Subscription::Legacy { ptr }));
}

/// Giving a handle back undoes the subscription that it was given out for.
pub proof fn law_handle_undoes_subscription(before: Seq<Listener>, added: Listener)
    requires
        !has_id(before, added.id),
        added.subscription is Filtered,
    ensures
        without_id(before.push(added), added.id) == before,
        without_filtered(before.push(added), added.id) == before,
{
    assert(before.push(added).drop_last() == before);
    lemma_without_none(before, picks_id(added.id));
    lemma_without_none(before, picks_filtered(added.id));
}

/// A status listener object is told about every change, with all the bits of the status and of the
/// change.
pub proof fn law_legacy_told_everything(id: u64, ptr: usize, status: Status, changed: Status)
    ensures
        notifications(
            seq![Listener { id, subscription: Subscription::Legacy { ptr } }],
            status,
            changed,
        ) == seq![Event { target: Target::Legacy(ptr), status, changed }],
        notifications(Seq::empty(), status, changed) == Seq::<Event>::empty(),
{
    reveal_with_fuel(notifications, 2);
}

/// What a file announces when its state changes: nothing if the state is the same, and otherwise
/// the bits of the new state, along with those in which the two states differ.
pub proof fn law_announced(listeners: Seq<Listener>, before: FileState, after: FileState)
    ensures
        before == after ==> announcements(listeners, before, after) == Seq::<Event>::empty(),
        before != after ==> announcements(listeners, before, after) == notifications(
            listeners,
            after.bits(),
            after.bits() ^ before.bits(),
        ),
{
    crate::flags::law_changed_bits(before, after);
}

/// Which listeners are there, told by how they came to be there: nobody at first, and then whoever
/// was there before and whoever was added.
pub proof fn law_members(listeners: Seq<Listener>, added: Listener, id: u64, ptr: usize)
    ensures
        !has_id(Seq::empty(), id),
        has_id(listeners.push(added), id) <==> has_id(listeners, id) || added.id == id,
        !has_legacy(Seq::empty(), ptr),
        has_legacy(listeners.push(added), ptr) <==> has_legacy(listeners, ptr)
            || added.subscription == (Subscription::Legacy { ptr }),
        !has_id(listeners, id) ==> legacy_added(
            listeners,
            listeners.push(Listener { id, subscription: Subscription::Legacy { ptr } }),
            ptr,
        ),
{
    let after = listeners.push(added);
    assert(after[listeners.len() as int] == added);
    if has_id(listeners, id) {
        let i = choose|i: int| 0 <= i < listeners.len() && (#[trigger] listeners[i]).id == id;
        assert(after[i].id == id);
    }
    if has_id(after, id) && added.id != id {
        let i = choose|i: int| 0 <= i < after.len() && (#[trigger] after[i]).id == id;
        assert(listeners[i].id == id);
    }
    let wanted = Subscription::Legacy { ptr };
    if has_legacy(listeners, ptr) {
        let i = choose|i: int|
            0 <= i < listeners.len() && (#[trigger] listeners[i]).subscription == wanted;
        assert(after[i].subscription == wanted);
    }
    if has_legacy(after, ptr) && added.subscription != wanted {
        let i = choose|i: int| 0 <= i < after.len() && (#[trigger] after[i]).subscription == wanted;
        assert(listeners[i].subscription == wanted);
    }
}

/// Whoever is added as a status listener object has a number that was free, and is the last one.
pub proof fn law_legacy_added_last(before: Seq<Listener>, after: Seq<Listener>, ptr: usize)
    requires
        legacy_added(before, after, ptr),
    ensures
        after.len() == before.len() + 1,
        after.drop_last() == before,
        after.last().subscription == (Subscription::Legacy { ptr }),
        forall|i: int| 0 <= i < before.len() ==> (#[trigger] before[i]).id != after.last().id,
{
    let id = choose|id: u64|
        !has_id(before, id) && after == #[trigger] before.push(
            Listener { id, subscription: Subscription::Legacy { ptr } },
        );
    assert(after.drop_last() == before);
}

/// Who is left when a listener is removed, told one by one: each of the others, in the same order.
pub proof fn law_others_stay(listeners: Seq<Listener>, last: Listener, id: u64, ptr: usize)
    ensures
        without_id(Seq::empty(), id) == Seq::<Listener>::empty(),
        without_id(listeners.push(last), id) == if last.id == id {
            without_id(listeners, id)
        } else {
            without_id(listeners, id).push(last)
        },
        without_filtered(Seq::empty(), id) == Seq::<Listener>::empty(),
        without_filtered(listeners.push(last), id) == if last.id == id && !(
        last.subscription is Legacy) {
            without_filtered(listeners, id)
        } else {
            without_filtered(listeners, id).push(last)
        },
        without_legacy(Seq::empty(), ptr) == Seq::<Listener>::empty(),
        without_legacy(listeners.push(last), ptr) == if last.subscription == (
        Subscription::Legacy { ptr }) {
            without_legacy(listeners, ptr)
        } else {
            without_legacy(listeners, ptr).push(last)
        },
{
    assert(listeners.push(last).drop_last() == listeners);
}

} // verus!
