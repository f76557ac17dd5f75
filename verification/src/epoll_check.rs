//! Whether waiters on an edge-triggered epoll instance got what they should.
//!
//! Each scenario makes a connection, lets waiters wait on one end of it, and reads or writes at
//! certain times. What the waiters got is judged here.
use crate::epoll_entry::EpollEvents;
use crate::errno::Errno;
use vstd::prelude::*;

verus! {

/// An event that a waiter got.
#[derive(Clone, Copy, PartialEq, Eq, Structural, Debug)]
pub struct EpollEvent {
    /// What happened.
    pub events: EpollEvents,
    /// The data that was registered along with the file.
    pub data: u64,
}

impl EpollEvent {
    /// No event.
    #[verifier::allow_in_spec]
    pub fn empty() -> EpollEvent
        returns
            (EpollEvent { events: EpollEvents::empty(), data: 0 }),
    {
        EpollEvent { events: EpollEvents::empty(), data: 0 }
    }
}

/// What a waiter got.
pub struct WaiterResult {
    /// How long it waited, in nanoseconds.
    pub duration: u128,
    /// What the call returned: the number of events, or an error.
    pub epoll_res: Result<usize, Errno>,
    /// The events.
    pub events: Vec<EpollEvent>,
}

/// How many events a call that returned `epoll_res` stored.
pub open spec fn event_count(epoll_res: Result<usize, Errno>) -> usize {
    match epoll_res {
        Ok(count) => count,
        Err(_) => 0,
    }
}

impl WaiterResult {
    /// There are as many events as the call said.
    pub open spec fn wf(self) -> bool {
        self.events@.len() == event_count(self.epoll_res)
    }

    /// The waiter got `event`, and nothing else, in time.
    pub open spec fn spec_got(self, event: EpollEvent, timeout: u128) -> bool {
        &&& self.epoll_res == Ok::<usize, Errno>(1)
        &&& self.duration < timeout
        &&& self.events@[0] == event
    }

    /// The waiter waited in vain for as long as it should.
    pub open spec fn spec_timed_out(self, timeout: u128) -> bool {
        &&& self.epoll_res == Ok::<usize, Errno>(0)
        &&& self.duration >= timeout
    }

    /// What a waiter got that waited for `duration` for a call that returned `epoll_res`, and that
    /// offered room for the events in `buffer`: of these, the ones that the call stored.
    pub fn new(duration: u128, epoll_res: Result<usize, Errno>, buffer: Vec<EpollEvent>) -> (r:
        WaiterResult)
        ensures
            r.wf(),
            r.events@.len() == (match epoll_res {
                Ok(count) => count,
                Err(_) => 0,
            }),
            r.duration == duration,
            r.epoll_res == epoll_res,
            forall|i: int|
                0 <= i < r.events@.len() ==> #[trigger] r.events@[i] == (if i < buffer@.len() {
                    buffer@[i]
                } else {
                    EpollEvent::empty()
                }),
    {
        let count: usize = match epoll_res {
            Ok(count) => count,
            Err(_) => 0,
        };
        let mut events = buffer;
        events.truncate(count);
        while events.len() < count
            invariant
                events@.len() <= count,
                buffer@.len() < count ==> events@.len() >= buffer@.len(),
                buffer@.len() >= count ==> events@.len() == count,
                forall|i: int|
                    0 <= i < events@.len() ==> #[trigger] events@[i] == (if i < buffer@.len() {
                        buffer@[i]
                    } else {
                        EpollEvent::empty()
                    }),
            decreases count - events.len(),
        {
            events.push(EpollEvent::empty());
        }
        WaiterResult { duration, epoll_res, events }
    }

    /// The files that a waiter reads from after it got its events: the data of an event is the
    /// number of the file, of which the lower 32 bits count.
    pub fn files_to_read(&self) -> (r: Vec<i32>)
        ensures
            r@ == self.events@.map_values(|event: EpollEvent| event.data as i32),
    {
        let ghost file = |event: EpollEvent| event.data as i32;
        let mut files: Vec<i32> = Vec::new();
        let mut i: usize = 0;
        while i < self.events.len()
            invariant
                i <= self.events@.len(),
                file == (|event: EpollEvent| event.data as i32),
                files@ == self.events@.take(i as int).map_values(file),
            decreases self.events.len() - i,
        {
            let event = self.events[i];
            files.push(
                #[verifier::truncate]
                (event.data as i32),
            );
            assert(self.events@.take(i + 1) == self.events@.take(i as int).push(event));
            i += 1;
        }
        assert(self.events@.take(i as int) == self.events@);
        files
    }
}

/// Whether a waiter got exactly one event in time, of these bits and with the data 0.
pub open spec fn got_bits(result: WaiterResult, bits: u32, timeout: u128) -> bool {
    &&& result.epoll_res == Ok::<usize, Errno>(1)
    &&& result.duration < timeout
    &&& result.events@[0].events.bits == bits
    &&& result.events@[0].data == 0
}

/// Whether a waiter got no event, and waited at least until the timeout.
pub open spec fn got_nothing(result: WaiterResult, timeout: u128) -> bool {
    &&& result.epoll_res == Ok::<usize, Errno>(0)
    &&& result.duration >= timeout
}

/// What a waiter got that it should not have got.
#[derive(Clone, Copy, PartialEq, Eq, Structural, Debug)]
pub enum CheckFailure {
    /// The call returned something else.
    EpollRes,
    /// The wait was too long, or too short.
    Duration,
    /// The event is another one.
    Event,
}

/// What is wrong with a waiter that should have got `event`.
pub open spec fn got_outcome(result: WaiterResult, event: EpollEvent, timeout: u128) -> Result<
    (),
    CheckFailure,
> {
    if result.epoll_res != Ok::<usize, Errno>(1) {
        Err(CheckFailure::EpollRes)
    } else if result.duration >= timeout {
        Err(CheckFailure::Duration)
    } else if result.events@[0] != event {
        Err(CheckFailure::Event)
    } else {
        Ok(())
    }
}

/// What is wrong with a waiter that should have waited in vain.
pub open spec fn timed_out_outcome(result: WaiterResult, timeout: u128) -> Result<
    (),
    CheckFailure,
> {
    if result.epoll_res != Ok::<usize, Errno>(0) {
        Err(CheckFailure::EpollRes)
    } else if result.duration < timeout {
        Err(CheckFailure::Duration)
    } else {
        Ok(())
    }
}

/// What is wrong with the first of waiters that should all have got `event`, if something is.
pub open spec fn all_got_outcome(
    results: Seq<WaiterResult>,
    event: EpollEvent,
    timeout: u128,
) -> Result<(), CheckFailure>
    decreases results.len(),
{
    if results.len() == 0 {
        Ok(())
    } else {
        match got_outcome(results[0], event, timeout) {
            Err(failure) => Err(failure),
            Ok(()) => all_got_outcome(results.drop_first(), event, timeout),
        }
    }
}

/// Ensures that a waiter got `event`.
pub fn ensure_got(result: &WaiterResult, event: EpollEvent, timeout: u128) -> (r: Result<
    (),
    CheckFailure,
>)
    requires
        result.wf(),
    ensures
        r == got_outcome(*result, event, timeout),
        r is Ok <==> result.spec_got(event, timeout),
        r is Ok <==> result.epoll_res == Ok::<usize, Errno>(1) && result.duration < timeout
            && result.events@[0].events.bits == event.events.bits && result.events@[0].data
            == event.data,
{
    match result.epoll_res {
        Ok(1) => {},
        _ => {
            return Err(CheckFailure::EpollRes);
        },
    }
    if result.duration >= timeout {
        return Err(CheckFailure::Duration);
    }
    if result.events[0] != event {
        return Err(CheckFailure::Event);
    }
    Ok(())
}

/// Ensures that a waiter waited in vain.
pub fn ensure_timed_out(result: &WaiterResult, timeout: u128) -> (r: Result<(), CheckFailure>)
    ensures
        r == timed_out_outcome(*result, timeout),
        r is Ok <==> result.spec_timed_out(timeout),
        r is Ok <==> result.epoll_res == Ok::<usize, Errno>(0) && result.duration >= timeout,
{
    match result.epoll_res {
        Ok(0) => {},
        _ => {
            return Err(CheckFailure::EpollRes);
        },
    }
    if result.duration < timeout {
        return Err(CheckFailure::Duration);
    }
    Ok(())
}

/// Ensures that the waiters from `from` up to `to` got `event`.
fn ensure_all_got(
    results: &Vec<WaiterResult>,
    from: usize,
    to: usize,
    event: EpollEvent,
    timeout: u128,
) -> (r: Result<(), CheckFailure>)
    requires
        from <= to <= results@.len(),
        forall|i: int| 0 <= i < results@.len() ==> (#[trigger] results@[i]).wf(),
    ensures
        r == all_got_outcome(results@.subrange(from as int, to as int), event, timeout),
{
    let ghost all = results@.subrange(from as int, to as int);
    let mut i: usize = from;
    assert(all.skip(0) == all);
    while i < to
        invariant
            from <= i <= to <= results@.len(),
            forall|i: int| 0 <= i < results@.len() ==> (#[trigger] results@[i]).wf(),
            all == results@.subrange(from as int, to as int),
            all_got_outcome(all.skip(i - from), event, timeout) == all_got_outcome(
                all,
                event,
                timeout,
            ),
        decreases to - i,
    {
        let ghost rest = all.skip(i - from);
        assert(rest[0] == results@[i as int]);
        assert(rest.drop_first() == all.skip(i - from + 1));
        match ensure_got(&results[i], event, timeout) {
            Ok(()) => {},
            Err(failure) => {
                return Err(failure);
            },
        }
        i += 1;
    }
    Ok(())
}

/// `sorted`, which are sorted by the number of events, with `result` behind those that have at most
/// as many events.
pub open spec fn inserted(sorted: Seq<WaiterResult>, result: WaiterResult) -> Seq<WaiterResult>
    decreases sorted.len(),
{
    if sorted.len() == 0 || sorted.last().events@.len() <= result.events@.len() {
        sorted.push(result)
    } else {
        inserted(sorted.drop_last(), result).push(sorted.last())
    }
}

/// `results` sorted by the number of events. Those with the same number keep their order.
pub open spec fn by_events(results: Seq<WaiterResult>) -> Seq<WaiterResult>
    decreases results.len(),
{
    if results.len() == 0 {
        Seq::empty()
    } else {
        inserted(by_events(results.drop_last()), results.last())
    }
}

/// Sorting by the number of events does that, and neither loses nor adds anything.
pub proof fn law_sorted(results: Seq<WaiterResult>)
    ensures
        by_events(results).to_multiset() == results.to_multiset(),
        forall|i: int, j: int|
            0 <= i <= j < results.len() ==> (#[trigger] by_events(results)[i]).events@.len() <= (
            #[trigger] by_events(results)[j]).events@.len(),
        by_events(results).len() == results.len(),
    decreases results.len(),
{
    broadcast use vstd::seq_lib::group_to_multiset_ensures;

    if results.len() == 0 {
        assert(by_events(results) == results);
    } else {
        let earlier = results.drop_last();
        law_sorted(earlier);
        lemma_inserted(by_events(earlier), results.last());
        assert(results == earlier.push(results.last()));
    }
}

/// Inserting into a sorted sequence keeps it sorted.
proof fn lemma_inserted(sorted: Seq<WaiterResult>, result: WaiterResult)
    requires
        forall|i: int, j: int|
            0 <= i <= j < sorted.len() ==> (#[trigger] sorted[i]).events@.len() <= (
            #[trigger] sorted[j]).events@.len(),
    ensures
        inserted(sorted, result).to_multiset() == sorted.to_multiset().insert(result),
        inserted(sorted, result).len() == sorted.len() + 1,
        forall|i: int, j: int|
            0 <= i <= j < sorted.len() + 1 ==> (#[trigger] inserted(
                sorted,
                result,
            )[i]).events@.len() <= (#[trigger] inserted(sorted, result)[j]).events@.len(),
        forall|i: int|
            0 <= i < sorted.len() + 1 ==> (#[trigger] inserted(sorted, result)[i]) == result
                || sorted.contains(inserted(sorted, result)[i]),
    decreases sorted.len(),
{
    broadcast use vstd::seq_lib::group_to_multiset_ensures;

    let out = inserted(sorted, result);
    if sorted.len() == 0 || sorted.last().events@.len() <= result.events@.len() {
        assert forall|i: int| 0 <= i < out.len() implies (#[trigger] out[i]) == result
            || sorted.contains(out[i]) by {
            if i < sorted.len() {
                assert(sorted[i] == out[i]);
            }
        }
    } else {
        let earlier = sorted.drop_last();
        let last = sorted.last();
        lemma_inserted(earlier, result);
        let rest = inserted(earlier, result);
        assert(sorted == earlier.push(last));
        assert(out.to_multiset() =~= sorted.to_multiset().insert(result));
        assert forall|i: int| 0 <= i < out.len() implies (#[trigger] out[i]) == result
            || sorted.contains(out[i]) by {
            if i < rest.len() {
                assert(out[i] == rest[i]);
                if rest[i] != result {
                    let k = choose|k: int| 0 <= k < earlier.len() && earlier[k] == rest[i];
                    assert(sorted[k] == rest[i]);
                }
            } else {
                assert(sorted[sorted.len() - 1] == last);
            }
        }
        assert forall|i: int| 0 <= i < rest.len() implies (#[trigger] rest[i]).events@.len()
            <= last.events@.len() by {
            if rest[i] != result {
                let k = choose|k: int| 0 <= k < earlier.len() && earlier[k] == rest[i];
                assert(sorted[k] == rest[i]);
                assert(sorted[sorted.len() - 1] == last);
            }
        }
    }
}

/// Sorts by the number of events.
fn sort_by_events(results: Vec<WaiterResult>) -> (r: Vec<WaiterResult>)
    ensures
        r@ == by_events(results@),
{
    let ghost all = results@;
    let mut results = results;
    let mut sorted: Vec<WaiterResult> = Vec::new();
    let ghost mut done: int = 0;
    assert(all.skip(0) == all);
    while results.len() > 0
        invariant
            0 <= done <= all.len(),
            results@ == all.skip(done),
            sorted@ == by_events(all.take(done)),
        decreases results.len(),
    {
        let ghost before = sorted@;
        let result = results.remove(0);
        let mut at: usize = sorted.len();
        assert(before.take(at as int) == before);
        assert(before.skip(at as int) == Seq::<WaiterResult>::empty());
        while at > 0 && sorted[at - 1].events.len() > result.events.len()
            invariant
                at <= sorted@.len(),
                sorted@ == before,
                inserted(before, result) == inserted(before.take(at as int), result) + before.skip(
                    at as int,
                ),
            decreases at,
        {
            proof {
                let prefix = before.take(at as int);
                assert(prefix.drop_last() == before.take(at - 1));
                assert(prefix.last() == before[at - 1]);
                assert(inserted(before.take(at - 1), result).push(before[at - 1]) + before.skip(
                    at as int,
                ) == inserted(before.take(at - 1), result) + before.skip(at - 1));
            }
            at -= 1;
        }
        proof {
            assert(at > 0 ==> before.take(at as int).last() == before[at - 1]);
            assert(before.insert(at as int, result) == before.take(at as int).push(result)
                + before.skip(at as int));
            assert(all.take(done + 1).drop_last() == all.take(done));
            assert(all.take(done + 1).last() == result);
        }
        sorted.insert(at, result);
        proof {
            assert(results@ == all.skip(done + 1));
            done = done + 1;
        }
    }
    assert(all.take(done) == all);
    sorted
}

/// The event of a file that can be read.
pub open spec fn readable_event() -> EpollEvent {
    EpollEvent { events: EpollEvents::epollin(), data: 0 }
}

/// The event of a file that can be written.
pub open spec fn writable_event() -> EpollEvent {
    EpollEvent { events: EpollEvents::epollout(), data: 0 }
}

/// What comes of one check after another.
pub open spec fn both(first: Result<(), CheckFailure>, second: Result<(), CheckFailure>) -> Result<
    (),
    CheckFailure,
> {
    match first {
        Err(failure) => Err(failure),
        Ok(()) => second,
    }
}

/// One waiter waits three times while two writes come in: the first two waits should have received
/// the event, and the last one should have timed out with no events received.
pub fn test_multi_write(results: &Vec<WaiterResult>, timeout: u128) -> (r: Result<
    (),
    CheckFailure,
>)
    requires
        results@.len() == 3,
        forall|i: int| 0 <= i < 3 ==> (#[trigger] results@[i]).wf(),
    ensures
        r == both(
            all_got_outcome(results@.subrange(0, 2), readable_event(), timeout),
            timed_out_outcome(results@[2], timeout),
        ),
        r is Ok <==> results@[0].spec_got(readable_event(), timeout) && results@[1].spec_got(
            readable_event(),
            timeout,
        ) && results@[2].spec_timed_out(timeout),
        r is Ok <==> got_bits(results@[0], 0x1, timeout) && got_bits(results@[1], 0x1, timeout)
            && got_nothing(results@[2], timeout),
{
    let event = EpollEvent { events: EpollEvents::epollin(), data: 0 };
    proof {
        let first = results@.subrange(0, 2);
        reveal_with_fuel(all_got_outcome, 3);
        assert(first[0] == results@[0]);
        assert(first.drop_first()[0] == results@[1]);
    }
    // the first two waits should have received the event
    match ensure_all_got(results, 0, 2, event, timeout) {
        Ok(()) => {},
        Err(failure) => {
            return Err(failure);
        },
    }
    // the last wait should have timed out with no events received
    ensure_timed_out(&results[2], timeout)
}

/// One waiter waits twice: the first wait should have received `event`, and the second one should
/// have timed out with no events received.
fn ensure_got_once(results: &Vec<WaiterResult>, event: EpollEvent, timeout: u128) -> (r: Result<
    (),
    CheckFailure,
>)
    requires
        results@.len() == 2,
        results@[0].wf(),
    ensures
        r == both(
            got_outcome(results@[0], event, timeout),
            timed_out_outcome(results@[1], timeout),
        ),
        r is Ok <==> results@[0].spec_got(event, timeout) && results@[1].spec_timed_out(timeout),
{
    match ensure_got(&results[0], event, timeout) {
        Ok(()) => {},
        Err(failure) => {
            return Err(failure);
        },
    }
    ensure_timed_out(&results[1], timeout)
}

/// One waiter waits twice while two bytes are written and one of them is read: reading some, but
/// not all, is no news.
pub fn test_write_then_read(results: &Vec<WaiterResult>, timeout: u128) -> (r: Result<
    (),
    CheckFailure,
>)
    requires
        results@.len() == 2,
        results@[0].wf(),
    ensures
        r == both(
            got_outcome(results@[0], readable_event(), timeout),
            timed_out_outcome(results@[1], timeout),
        ),
        r is Ok <==> results@[0].spec_got(readable_event(), timeout)
            && results@[1].spec_timed_out(timeout),
        r is Ok <==> got_bits(results@[0], 0x1, timeout) && got_nothing(results@[1], timeout),
{
    ensure_got_once(results, EpollEvent { events: EpollEvents::epollin(), data: 0 }, timeout)
}

/// Whether one of three waiters waited in vain, and the other two got `event`.
pub open spec fn one_in_vain(
    results: Seq<WaiterResult>,
    event: EpollEvent,
    timeout: u128,
) -> bool {
    let got = |i: int| results[i].spec_got(event, timeout);
    let timed_out = |i: int| results[i].spec_timed_out(timeout);
    ||| timed_out(0) && got(1) && got(2)
    ||| got(0) && timed_out(1) && got(2)
    ||| got(0) && got(1) && timed_out(2)
}

/// Three waiters wait at the same time while two writes come in: two of them should have gotten an
/// event, but we don't know which ones, and one should have timed out with no events received.
pub fn test_threads_multi_write(results: Vec<WaiterResult>, timeout: u128) -> (r: Result<
    (),
    CheckFailure,
>)
    requires
        results@.len() == 3,
        forall|i: int| 0 <= i < 3 ==> (#[trigger] results@[i]).wf(),
    ensures
        r == both(
            timed_out_outcome(by_events(results@)[0], timeout),
            all_got_outcome(by_events(results@).subrange(1, 3), readable_event(), timeout),
        ),
        r is Ok <==> one_in_vain(results@, readable_event(), timeout),
        r is Ok <==> exists|i: int|
            0 <= i < 3 && got_nothing(#[trigger] results@[i], timeout) && forall|j: int|
                0 <= j < 3 && j != i ==> got_bits(#[trigger] results@[j], 0x1, timeout),
{
    let event = EpollEvent { events: EpollEvents::epollin(), data: 0 };
    let ghost all = results@;
    // sort results by number of events received
    let sorted = sort_by_events(results);
    proof {
        lemma_sorted_three(all);
        let rest = sorted@.subrange(1, 3);
        reveal_with_fuel(all_got_outcome, 3);
        assert(rest[0] == sorted@[1]);
        assert(rest.drop_first()[0] == sorted@[2]);
    }
    // one thread should have timed out with no events received
    match ensure_timed_out(&sorted[0], timeout) {
        Ok(()) => {},
        Err(failure) => {
            return Err(failure);
        },
    }
    // the rest should have received the event
    ensure_all_got(&sorted, 1, 3, event, timeout)
}

/// How three results are sorted.
proof fn lemma_sorted_three(results: Seq<WaiterResult>)
    requires
        results.len() == 3,
    ensures
        ({
            let (a, b, c) = (results[0], results[1], results[2]);
            let (x, y, z) = (a.events@.len(), b.events@.len(), c.events@.len());
            by_events(results) == (if x <= y {
                if y <= z {
                    seq![a, b, c]
                } else if x <= z {
                    seq![a, c, b]
                } else {
                    seq![c, a, b]
                }
            } else if x <= z {
                seq![b, a, c]
            } else if y <= z {
                seq![b, c, a]
            } else {
                seq![c, b, a]
            })
        }),
{
    let (a, b, c) = (results[0], results[1], results[2]);
    reveal_with_fuel(by_events, 4);
    reveal_with_fuel(inserted, 4);
    assert(results.drop_last().drop_last().drop_last() == Seq::<WaiterResult>::empty());
    assert(Seq::<WaiterResult>::empty().push(a) == seq![a]);
    assert(seq![a].push(b) == seq![a, b]);
    assert(seq![a].drop_last() == Seq::<WaiterResult>::empty());
    assert(Seq::<WaiterResult>::empty().push(b).push(a) == seq![b, a]);
    assert(seq![a, b].drop_last() == seq![a]);
    assert(seq![b, a].drop_last() == seq![b]);
    assert(seq![b].drop_last() == Seq::<WaiterResult>::empty());
}

/// One waiter waits for a file that can be written from the start: it should have gotten the event.
pub fn test_writable(result: &WaiterResult, timeout: u128) -> (r: Result<(), CheckFailure>)
    requires
        result.wf(),
    ensures
        r == got_outcome(*result, writable_event(), timeout),
        r is Ok <==> result.spec_got(writable_event(), timeout),
        r is Ok <==> got_bits(*result, 0x4, timeout),
{
    ensure_got(result, EpollEvent { events: EpollEvents::epollout(), data: 0 }, timeout)
}

/// One waiter waits twice for a file that can be written while something is written to it: that it
/// can still be written is no news.
pub fn test_writable_when_write(results: &Vec<WaiterResult>, timeout: u128) -> (r: Result<
    (),
    CheckFailure,
>)
    requires
        results@.len() == 2,
        results@[0].wf(),
    ensures
        r == both(
            got_outcome(results@[0], writable_event(), timeout),
            timed_out_outcome(results@[1], timeout),
        ),
        r is Ok <==> results@[0].spec_got(writable_event(), timeout)
            && results@[1].spec_timed_out(timeout),
        r is Ok <==> got_bits(results@[0], 0x4, timeout) && got_nothing(results@[1], timeout),
{
    ensure_got_once(results, EpollEvent { events: EpollEvents::epollout(), data: 0 }, timeout)
}

/// Where a test is known to pass.
#[derive(Clone, Copy, PartialEq, Eq, Structural, Debug)]
pub struct PassingEnvironments {
    /// On a real system.
    pub libc: bool,
    /// In the simulation.
    pub shadow: bool,
}

/// Whether a test is run: if only tests that pass in some environments are asked for, it has to
/// pass in all of these.
pub fn is_selected(passing: PassingEnvironments, shadow_only: bool, libc_only: bool) -> (r: bool)
    ensures
        r <==> (shadow_only ==> passing.shadow) && (libc_only ==> passing.libc),
{
    (!shadow_only || passing.shadow) && (!libc_only || passing.libc)
}

/// What is said of a waiter that should have got an event: that the call returned something else
/// than one event, before that it took too long, before that the event is another one.
pub proof fn law_verdict_on_event(result: WaiterResult, event: EpollEvent, timeout: u128)
    ensures
        ({
            let verdict = got_outcome(result, event, timeout);
            &&& verdict == Err::<(), CheckFailure>(CheckFailure::EpollRes) <==> result.epoll_res
                != Ok::<usize, Errno>(1)
            &&& verdict == Err::<(), CheckFailure>(CheckFailure::Duration) <==> result.epoll_res
                == Ok::<usize, Errno>(1) && result.duration >= timeout
            &&& verdict == Err::<(), CheckFailure>(CheckFailure::Event) <==> result.epoll_res
                == Ok::<usize, Errno>(1) && result.duration < timeout && result.events@[0] != event
            &&& verdict is Ok <==> result.epoll_res == Ok::<usize, Errno>(1) && result.duration
                < timeout && result.events@[0] == event
        }),
{
}

/// What is said of a waiter that should have waited in vain: that the call returned something else
/// than no event, before that it returned too early.
pub proof fn law_verdict_on_timeout(result: WaiterResult, timeout: u128)
    ensures
        ({
            let verdict = timed_out_outcome(result, timeout);
            &&& verdict == Err::<(), CheckFailure>(CheckFailure::EpollRes) <==> result.epoll_res
                != Ok::<usize, Errno>(0)
            &&& verdict == Err::<(), CheckFailure>(CheckFailure::Duration) <==> result.epoll_res
                == Ok::<usize, Errno>(0) && result.duration < timeout
            &&& verdict is Ok <==> result.epoll_res == Ok::<usize, Errno>(0) && result.duration
                >= timeout
            &&& verdict != Err::<(), CheckFailure>(CheckFailure::Event)
        }),
{
}

/// What is said of several waiters is what is said of the first of them who did not get what it
/// should have got.
pub proof fn law_first_failure(results: Seq<WaiterResult>, event: EpollEvent, timeout: u128)
    ensures
        all_got_outcome(results, event, timeout) is Ok <==> forall|i: int|
            0 <= i < results.len() ==> got_outcome(#[trigger] results[i], event, timeout) is Ok,
        all_got_outcome(results, event, timeout) is Err ==> exists|i: int|
            0 <= i < results.len() && all_got_outcome(results, event, timeout) == got_outcome(
                #[trigger] results[i],
                event,
                timeout,
            ) && forall|j: int|
                0 <= j < i ==> got_outcome(#[trigger] results[j], event, timeout) is Ok,
    decreases results.len(),
{
    if results.len() > 0 {
        let rest = results.drop_first();
        law_first_failure(rest, event, timeout);
        assert forall|i: int| 0 <= i < rest.len() implies #[trigger] rest[i] == results[i
            + 1] by {}
        if got_outcome(results[0], event, timeout) is Ok {
            if all_got_outcome(rest, event, timeout) is Ok {
                assert forall|i: int| 0 <= i < results.len() implies got_outcome(
                    #[trigger] results[i],
                    event,
                    timeout,
                ) is Ok by {
                    if i > 0 {
                        assert(rest[i - 1] == results[i]);
                    }
                }
            } else {
                let k = choose|i: int|
                    0 <= i < rest.len() && all_got_outcome(rest, event, timeout) == got_outcome(
                        #[trigger] rest[i],
                        event,
                        timeout,
                    ) && forall|j: int|
                        0 <= j < i ==> got_outcome(#[trigger] rest[j], event, timeout) is Ok;
                assert(rest[k] == results[k + 1]);
                assert forall|j: int| 0 <= j < k + 1 implies got_outcome(
                    #[trigger] results[j],
                    event,
                    timeout,
                ) is Ok by {
                    if j > 0 {
                        assert(rest[j - 1] == results[j]);
                    }
                }
            }
        }
    }
}

/// How three waiters are sorted: by the number of their events, and those with the same number keep
/// their order.
pub proof fn law_three_sorted(results: Seq<WaiterResult>)
    requires
        results.len() == 3,
    ensures
        ({
            let (a, b, c) = (results[0], results[1], results[2]);
            let (x, y, z) = (a.events@.len(), b.events@.len(), c.events@.len());
            &&& x <= y <= z ==> by_events(results) == seq![a, b, c]
            &&& x <= z < y ==> by_events(results) == seq![a, c, b]
            &&& y < x <= z ==> by_events(results) == seq![b, a, c]
            &&& y <= z < x ==> by_events(results) == seq![b, c, a]
            &&& z < x <= y ==> by_events(results) == seq![c, a, b]
            &&& z < y < x ==> by_events(results) == seq![c, b, a]
        }),
{
    lemma_sorted_three(results);
}

/// Of two checks the first one that fails is told; both succeed exactly if each does.
pub proof fn law_one_after_another(
    first: Result<(), CheckFailure>,
    second: Result<(), CheckFailure>,
)
    ensures
        both(first, second) is Ok <==> first is Ok && second is Ok,
        first is Err ==> both(first, second) == first,
        first is Ok ==> both(first, second) == second,
{
}

} // verus!
