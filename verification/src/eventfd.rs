//! A counter behind a file descriptor: eventfd(2).
use crate::bytes::{
    from_ne_bytes, lemma_byte_ranges, lemma_bytes, lemma_from_bytes, ne_bytes, u64_from_ne_bytes,
    u64_to_ne_bytes,
};
use crate::errno::{Errno, SyscallError};
use crate::events::{
    announcements, distinct_ids, distinct_legacy, has_id, has_legacy, legacy_added,
    without_filtered, without_legacy, Event, EventQueue, Handle, Listener, NewStatusListenerFilter,
    StatusEventSource, Subscription,
};
use crate::flags::{FileMode, FileState, FileStatus};
use vstd::prelude::*;

verus! {

/// What an eventfd is, apart from how it is stored.
#[verifier::ext_equal]
pub struct EventFdView {
    /// The counter.
    pub counter: u64,
    /// Whether a read takes 1 from the counter instead of all of it.
    pub is_semaphore_mode: bool,
    /// Who is told about changes of the state.
    pub listeners: Seq<Listener>,
    /// The state.
    pub state: FileState,
    /// The status flags.
    pub status: FileStatus,
    /// Whether an open file refers to the eventfd.
    pub has_open_file: bool,
}

impl EventFdView {
    /// What a read takes from the counter.
    pub open spec fn read_value(self) -> u64 {
        if self.is_semaphore_mode {
            1
        } else {
            self.counter
        }
    }

    /// The state that goes with the counter when it has just changed: readable if it is not zero,
    /// writable if at least 1 can be added, with the other parity. A closed eventfd keeps its
    /// state.
    pub open spec fn updated_state(self) -> FileState {
        if self.state.closed {
            self.state
        } else {
            FileState {
                readable: self.counter > 0,
                writable: self.counter < u64::MAX - 1,
                input_buffer_parity: !self.state.input_buffer_parity,
                ..self.state
            }
        }
    }

    /// Whether the state tells if the counter can be read, and if at least 1 can be added to it.
    pub open spec fn is_in_line(self) -> bool {
        &&& self.state.readable == (self.counter > 0)
        &&& self.state.writable == (self.counter < u64::MAX - 1)
    }

    /// The eventfd after the counter has become `counter`. If that is another number than before,
    /// the state is updated; otherwise nothing changes.
    pub open spec fn with_counter(self, counter: u64) -> EventFdView {
        if counter == self.counter {
            self
        } else {
            let changed = EventFdView { counter, ..self };
            EventFdView { state: changed.updated_state(), ..changed }
        }
    }

    /// The eventfd after it was closed.
    pub open spec fn after_close(self) -> EventFdView {
        EventFdView {
            state: FileState {
                active: false,
                readable: false,
                writable: false,
                closed: true,
                ..self.state
            },
            ..self
        }
    }
}

/// Why a transfer at `offset` with a buffer of `stream_len` bytes is refused whatever the counter
/// is, if it is: an eventfd cannot seek, and it takes and gives 8 bytes at a time.
pub open spec fn transfer_error(offset: i64, stream_len: nat) -> Option<Errno> {
    if offset != 0 {
        Some(Errno::ESPIPE)
    } else if stream_len < 8 {
        Some(Errno::EINVAL)
    } else {
        None
    }
}

/// What a read at `offset` into a buffer of `stream_len` bytes hands out: a number, or an error.
pub open spec fn read_outcome(fd: EventFdView, offset: i64, stream_len: nat) -> Result<u64, Errno> {
    match transfer_error(offset, stream_len) {
        Some(errno) => Err(errno),
        None => if fd.counter == 0 {
            Err(Errno::EAGAIN)
        } else {
            Ok(fd.read_value())
        },
    }
}

/// What a write of `bytes` at `offset` adds to the counter: a number, or an error.
pub open spec fn write_outcome(fd: EventFdView, bytes: Seq<u8>, offset: i64) -> Result<u64, Errno> {
    match transfer_error(offset, bytes.len()) {
        Some(errno) => Err(errno),
        None => {
            let value = from_ne_bytes(bytes.take(8)) as u64;
            if value == u64::MAX {
                Err(Errno::EINVAL)
            } else if fd.counter + value > u64::MAX - 1 {
                Err(Errno::EAGAIN)
            } else {
                Ok(value)
            }
        },
    }
}

/// An eventfd.
pub struct EventFd {
    counter: u64,
    is_semaphore_mode: bool,
    event_source: StatusEventSource,
    state: FileState,
    status: FileStatus,
    // should only be used by an open file to make sure there is only ever one open file for this
    // file
    has_open_file: bool,
}

impl View for EventFd {
    type V = EventFdView;

    closed spec fn view(&self) -> EventFdView {
        EventFdView {
            counter: self.counter,
            is_semaphore_mode: self.is_semaphore_mode,
            listeners: self.event_source@,
            state: self.state,
            status: self.status,
            has_open_file: self.has_open_file,
        }
    }
}

impl EventFd {
    /// The listeners are in order.
    pub closed spec fn wf(self) -> bool {
        self.event_source.wf()
    }

    /// The listeners have distinct numbers, and each status listener object is there at most once,
    /// however often it was added.
    pub proof fn law_distinct(self)
        requires
            self.wf(),
        ensures
            distinct_ids(self@.listeners),
            distinct_legacy(self@.listeners),
    {
        self.event_source.law_distinct();
    }

    /// An eventfd whose counter is `init_value`. It starts out active and writable.
    pub fn new(init_value: u64, is_semaphore_mode: bool, status: FileStatus) -> (r: EventFd)
        ensures
            r.wf(),
            r@ == (EventFdView {
                counter: init_value,
                is_semaphore_mode,
                listeners: Seq::empty(),
                state: FileState { active: true, writable: true, ..FileState::empty() },
                status,
                has_open_file: false,
            }),
    {
        EventFd {
            counter: init_value,
            is_semaphore_mode,
            event_source: StatusEventSource::new(),
            state: FileState::active() | FileState::writable(),
            status,
            has_open_file: false,
        }
    }

    /// The status flags.
    pub fn get_status(&self) -> (r: FileStatus)
        ensures
            r == self@.status,
    {
        self.status
    }

    /// Replaces the status flags.
    pub fn set_status(&mut self, status: FileStatus)
        requires
            old(self).wf(),
        ensures
            final(self).wf(),
            final(self)@ == (EventFdView { status, ..old(self)@ }),
    {
        self.status = status;
    }

    /// An eventfd may be read and written.
    pub fn mode(&self) -> (r: FileMode)
        ensures
            r == (FileMode { read: true, write: true }),
    {
        FileMode::read().union(FileMode::write())
    }

    /// Whether an open file refers to the eventfd.
    pub fn has_open_file(&self) -> (r: bool)
        ensures
            r == self@.has_open_file,
    {
        self.has_open_file
    }

    /// A blocked call on an eventfd is not restarted after a signal handler has run.
    pub fn supports_sa_restart(&self) -> (r: bool)
        ensures
            !r,
    {
        false
    }

    /// Remembers whether an open file refers to the eventfd.
    pub fn set_has_open_file(&mut self, val: bool)
        requires
            old(self).wf(),
        ensures
            final(self).wf(),
            final(self)@ == (EventFdView { has_open_file: val, ..old(self)@ }),
    {
        self.has_open_file = val;
    }

    /// Closes the eventfd.
    pub fn close(&mut self, cb_queue: &mut EventQueue) -> (r: Result<(), SyscallError>)
        requires
            old(self).wf(),
        ensures
            r is Ok,
            final(self).wf(),
            final(self)@ == old(self)@.after_close(),
            final(cb_queue)@ == old(cb_queue)@ + announcements(
                old(self)@.listeners,
                old(self)@.state,
                final(self)@.state,
            ),
    {
        // set the closed flag and remove the active, readable, and writable flags
        self.copy_state(
            FileState::closed() | FileState::active() | FileState::readable()
                | FileState::writable(),
            FileState::closed(),
            cb_queue,
        );
        Ok(())
    }

    /// Checks what does not depend on the counter: the offset of a transfer and the length of
    /// its buffer.
    pub fn check_transfer(offset: i64, stream_len: usize) -> (r: Result<(), SyscallError>)
        ensures
            r == (match transfer_error(offset, stream_len as nat) {
                Some(errno) => Err::<(), SyscallError>(SyscallError::Failed(errno)),
                None => Ok::<(), SyscallError>(()),
            }),
    {
        // eventfds don't support seeking
        if offset != 0 {
            return Err(SyscallError::Failed(Errno::ESPIPE));
        }
        // eventfd(2): "Each successful read(2) returns an 8-byte integer", and "A write(2) call
        // adds the 8-byte integer value supplied in its buffer to the counter"
        if stream_len < 8 {
            return Err(SyscallError::Failed(Errno::EINVAL));
        }
        Ok(())
    }

    /// The 8 bytes that a read at `offset` into a buffer of `stream_len` bytes hands out. The
    /// counter stays as it is, so that a caller can fail to store the bytes before it reads.
    pub fn peek(&self, offset: i64, stream_len: usize) -> (r: Result<[u8; 8], SyscallError>)
        ensures
            match read_outcome(self@, offset, stream_len as nat) {
                Err(errno) => r == Err::<[u8; 8], SyscallError>(SyscallError::Failed(errno)),
                Ok(value) => r matches Ok(bytes) && bytes@ == ne_bytes(value as nat, 8),
            },
    {
        match Self::check_transfer(offset, stream_len) {
            Ok(()) => {},
            Err(error) => {
                return Err(error);
            },
        }
        if self.counter == 0 {
            return Err(SyscallError::Failed(Errno::EAGAIN));
        }
        // behavior defined in `man 2 eventfd`
        if self.is_semaphore_mode {
            Ok(u64_to_ne_bytes(1))
        } else {
            Ok(u64_to_ne_bytes(self.counter))
        }
    }

    /// Takes 1 from the counter in semaphore mode, all of it otherwise, and hands it out as 8
    /// bytes.
    pub fn read(&mut self, offset: i64, stream_len: usize, cb_queue: &mut EventQueue) -> (r: Result<
        [u8; 8],
        SyscallError,
    >)
        requires
            old(self).wf(),
        ensures
            final(self).wf(),
            match read_outcome(old(self)@, offset, stream_len as nat) {
                Err(errno) => {
                    &&& r == Err::<[u8; 8], SyscallError>(SyscallError::Failed(errno))
                    &&& final(self)@ == old(self)@
                    &&& final(cb_queue)@ == old(cb_queue)@
                },
                Ok(value) => {
                    &&& r matches Ok(bytes) && bytes@ == ne_bytes(value as nat, 8)
                    &&& final(self)@ == old(self)@.with_counter((old(self)@.counter - value) as u64)
                    &&& value == (if old(self)@.is_semaphore_mode {
                        1
                    } else {
                        old(self)@.counter
                    })
                    &&& final(self)@.counter == old(self)@.counter - value
                    &&& final(cb_queue)@ == old(cb_queue)@ + announcements(
                        old(self)@.listeners,
                        old(self)@.state,
                        final(self)@.state,
                    )
                },
            },
    {
        let bytes = match self.peek(offset, stream_len) {
            Ok(bytes) => bytes,
            Err(error) => {
                return Err(error);
            },
        };
        if self.is_semaphore_mode {
            self.counter = self.counter - 1;
        } else {
            self.counter = 0;
        }
        self.update_state(cb_queue);
        Ok(bytes)
    }

    /// Whether the counter is below the largest number, so that something can be added to it at
    /// all. Only an eventfd that started out with that number is not writable in this sense.
    pub fn is_below_max(&self) -> (r: bool)
        ensures
            r == (self@.counter < u64::MAX),
    {
        self.counter < u64::MAX
    }

    /// Adds the number that the first 8 of `bytes` hold to the counter. The largest number of 64
    /// bits cannot be added, and the counter never reaches it. To add zero succeeds and changes
    /// nothing, so that nobody is told. Returns how many bytes were taken.
    pub fn write(&mut self, bytes: &[u8], offset: i64, cb_queue: &mut EventQueue) -> (r: Result<
        usize,
        SyscallError,
    >)
        requires
            old(self).wf(),
            old(self)@.counter < u64::MAX || offset != 0 || bytes@.len() < 8 || from_ne_bytes(
                bytes@.take(8),
            ) == u64::MAX,
        ensures
            final(self).wf(),
            match write_outcome(old(self)@, bytes@, offset) {
                Err(errno) => {
                    &&& r == Err::<usize, SyscallError>(SyscallError::Failed(errno))
                    &&& final(self)@ == old(self)@
                    &&& final(cb_queue)@ == old(cb_queue)@
                },
                Ok(value) => {
                    &&& r == Ok::<usize, SyscallError>(8)
                    &&& final(self)@ == old(self)@.with_counter((old(self)@.counter + value) as u64)
                    &&& value == from_ne_bytes(bytes@.take(8))
                    &&& final(self)@.counter == old(self)@.counter + value
                    &&& final(cb_queue)@ == old(cb_queue)@ + announcements(
                        old(self)@.listeners,
                        old(self)@.state,
                        final(self)@.state,
                    )
                },
            },
    {
        match Self::check_transfer(offset, bytes.len()) {
            Ok(()) => {},
            Err(error) => {
                return Err(error);
            },
        }
        let read_buf: [u8; 8] = [
            bytes[0],
            bytes[1],
            bytes[2],
            bytes[3],
            bytes[4],
            bytes[5],
            bytes[6],
            bytes[7],
        ];
        assert(read_buf@ == bytes@.take(8));
        let value: u64 = u64_from_ne_bytes(read_buf);
        // we do not allow writing the max counter value
        if value == u64::MAX {
            return Err(SyscallError::Failed(Errno::EINVAL));
        }
        // the write value has to fit into the counter
        let max_allowed: u64 = u64::MAX - 1;
        if value > max_allowed - self.counter {
            return Err(SyscallError::Failed(Errno::EAGAIN));
        }
        // the state is updated only when the counter changes
        if value != 0 {
            self.counter = self.counter + value;
            self.update_state(cb_queue);
        }
        Ok(8)
    }

    /// No ioctl request is handled on eventfds.
    pub fn ioctl(&mut self, request: u64) -> (r: Result<i32, SyscallError>)
        requires
            old(self).wf(),
        ensures
            r == Err::<i32, SyscallError>(SyscallError::Failed(Errno::EINVAL)),
            final(self).wf(),
            final(self)@ == old(self)@,
    {
        Err(SyscallError::Failed(Errno::EINVAL))
    }

    /// Subscribes the function known as `callback` to the changes of the flags in `monitoring`
    /// that pass `filter`.
    pub fn add_listener(
        &mut self,
        monitoring: FileState,
        filter: NewStatusListenerFilter,
        callback: u64,
    ) -> (r: Handle)
        requires
            old(self).wf(),
        ensures
            final(self).wf(),
            !has_id(old(self)@.listeners, r.id()),
            final(self)@ == (EventFdView {
                listeners: old(self)@.listeners.push(
                    Listener {
                        id: r.id(),
                        subscription: Subscription::Filtered {
                            monitoring: monitoring.bits(),
                            filter,
                            callback,
                        },
                    },
                ),
                ..old(self)@
            }),
    {
        self.event_source.add_listener(monitoring.bits(), filter, callback)
    }

    /// Ends the subscription that this eventfd gave out `handle` for. Handles are told apart by
    /// their numbers alone, so one of another file must not be given back here.
    pub fn remove_listener(&mut self, handle: Handle)
        requires
            old(self).wf(),
        ensures
            final(self).wf(),
            final(self)@ == (EventFdView {
                listeners: without_filtered(old(self)@.listeners, handle.id()),
                ..old(self)@
            }),
    {
        self.event_source.remove_listener(handle);
    }

    /// Subscribes the status listener object at `ptr` to every change, unless it is subscribed
    /// already. Returns whether it was subscribed now.
    pub fn add_legacy_listener(&mut self, ptr: usize) -> (r: bool)
        requires
            ptr != 0,
            old(self).wf(),
        ensures
            final(self).wf(),
            r == !has_legacy(old(self)@.listeners, ptr),
            final(self)@ == (EventFdView { listeners: final(self)@.listeners, ..old(self)@ }),
            !r ==> final(self)@.listeners == old(self)@.listeners,
            r ==> legacy_added(old(self)@.listeners, final(self)@.listeners, ptr),
    {
        self.event_source.add_legacy_listener(ptr)
    }

    /// Ends the subscription of the status listener object at `ptr`, if there is one. Returns
    /// whether there was one.
    pub fn remove_legacy_listener(&mut self, ptr: usize) -> (r: bool)
        requires
            ptr != 0,
            old(self).wf(),
        ensures
            final(self).wf(),
            r == has_legacy(old(self)@.listeners, ptr),
            final(self)@ == (EventFdView {
                listeners: without_legacy(old(self)@.listeners, ptr),
                ..old(self)@
            }),
    {
        self.event_source.remove_legacy_listener(ptr)
    }

    /// The state.
    pub fn state(&self) -> (r: FileState)
        ensures
            r == self@.state,
    {
        self.state
    }

    /// Brings the state in line with the counter, and flips the parity. It is called only when the
    /// counter has changed.
    fn update_state(&mut self, cb_queue: &mut EventQueue)
        requires
            old(self).wf(),
        ensures
            final(self).wf(),
            final(self)@ == (EventFdView {
                state: old(self)@.updated_state(),
                ..old(self)@
            }),
            final(cb_queue)@ == old(cb_queue)@ + announcements(
                old(self)@.listeners,
                old(self)@.state,
                final(self)@.state,
            ),
    {
        if self.state.contains(FileState::closed()) {
            return ;
        }
        let mut readable_writable = FileState::empty();
        // set the descriptor as readable if we have a non-zero counter
        readable_writable.set(FileState::readable(), self.counter > 0);
        // set the descriptor as writable if we can write a value of at least 1
        readable_writable.set(FileState::writable(), self.counter < u64::MAX - 1);
        // this function is called only when the counter changes, so flip the flag
        readable_writable.set(
            FileState::input_buffer_parity(),
            !self.state.contains(FileState::input_buffer_parity()),
        );
        self.copy_state(
            FileState::readable() | FileState::writable() | FileState::input_buffer_parity(),
            readable_writable,
            cb_queue,
        );
    }

    /// Gives the flags in `mask` the values that they have in `state`.
    fn copy_state(&mut self, mask: FileState, state: FileState, cb_queue: &mut EventQueue)
        requires
            old(self).wf(),
        ensures
            final(self).wf(),
            final(self)@ == (EventFdView {
                state: old(self)@.state.difference(mask).union(state.intersection(mask)),
                ..old(self)@
            }),
            final(cb_queue)@ == old(cb_queue)@ + announcements(
                old(self)@.listeners,
                old(self)@.state,
                final(self)@.state,
            ),
    {
        let old_state = self.state;
        // remove the masked flags, then copy the masked flags
        self.state.remove(mask);
        self.state.insert(state.intersection(mask));
        self.handle_state_change(old_state, cb_queue);
    }

    /// Tells the listeners that the state is no longer `old_state`, if it is not.
    fn handle_state_change(&mut self, old_state: FileState, cb_queue: &mut EventQueue)
        requires
            old(self).wf(),
        ensures
            final(self).wf(),
            final(self)@ == old(self)@,
            final(cb_queue)@ == old(cb_queue)@ + announcements(
                old(self)@.listeners,
                old_state,
                old(self)@.state,
            ),
    {
        let states_changed = self.state.symmetric_difference(old_state);
        // if nothing changed
        if states_changed.is_empty() {
            assert(self.state == old_state);
            return ;
        }
        self.event_source.notify_listeners(self.state.bits(), states_changed.bits(), cb_queue);
    }
}

/// A write of a number in the byte order of the machine adds that number, unless it is the largest
/// one or does not fit.
pub proof fn law_write_adds_number(fd: EventFdView, value: u64)
    ensures
        write_outcome(fd, ne_bytes(value as nat, 8), 0) == (if value == u64::MAX {
            Err::<u64, Errno>(Errno::EINVAL)
        } else if fd.counter + value > u64::MAX - 1 {
            Err::<u64, Errno>(Errno::EAGAIN)
        } else {
            Ok::<u64, Errno>(value)
        }),
{
    lemma_byte_ranges();
    lemma_bytes(value as nat, 8);
    assert(ne_bytes(value as nat, 8).take(8) == ne_bytes(value as nat, 8));
}

/// A read hands out all that was written since the last read, and leaves nothing. In semaphore mode
/// it hands out 1 and leaves the rest.
pub proof fn law_read_takes(fd: EventFdView, stream_len: nat)
    requires
        stream_len >= 8,
        fd.counter > 0,
    ensures
        !fd.is_semaphore_mode ==> read_outcome(fd, 0, stream_len) == Ok::<u64, Errno>(fd.counter),
        fd.is_semaphore_mode ==> read_outcome(fd, 0, stream_len) == Ok::<u64, Errno>(1),
        fd.with_counter((fd.counter - fd.read_value()) as u64).counter == (
        if fd.is_semaphore_mode {
            fd.counter - 1
        } else {
            0
        }),
{
}

/// A counter that is below the largest number stays below it, whatever is written and read.
pub proof fn law_counter_below_max(fd: EventFdView, bytes: Seq<u8>, offset: i64, stream_len: nat)
    requires
        fd.counter < u64::MAX,
    ensures
        write_outcome(fd, bytes, offset) matches Ok(value) ==> fd.counter + value < u64::MAX,
        read_outcome(fd, offset, stream_len) matches Ok(value) ==> 0 < value <= fd.counter,
{
}

/// After the counter of an eventfd that is not closed has changed, the eventfd is readable exactly
/// if the counter is not zero, and writable exactly if at least 1 can be added. It stays so for as
/// long as the counter does. Listeners are told of every change of the counter, because the state
/// is then another one than before.
pub proof fn law_state_follows_counter(fd: EventFdView, counter: u64)
    requires
        !fd.state.closed,
    ensures
        counter != fd.counter ==> fd.with_counter(counter).state != fd.state,
        counter != fd.counter || fd.is_in_line() ==> {
            let after = fd.with_counter(counter);
            &&& after.is_in_line()
            &&& after.state.readable <==> read_outcome(after, 0, 8) is Ok
            &&& counter < u64::MAX ==> (after.state.writable <==> write_outcome(
                after,
                ne_bytes(1, 8),
                0,
            ) is Ok)
        },
{
    law_write_adds_number(fd.with_counter(counter), 1);
}

/// A write of zero succeeds unless the counter is the largest number, and it changes nothing: the
/// state and its parity stay as they are, and nobody is told.
pub proof fn law_write_of_zero(fd: EventFdView)
    requires
        fd.counter < u64::MAX,
    ensures
        write_outcome(fd, ne_bytes(0, 8), 0) == Ok::<u64, Errno>(0),
        fd.with_counter(fd.counter) == fd,
        announcements(fd.listeners, fd.state, fd.with_counter(fd.counter).state) == Seq::<
            Event,
        >::empty(),
{
    law_write_adds_number(fd, 0);
}

/// A closed eventfd is neither active nor readable nor writable, and its state no longer changes.
pub proof fn law_closed_for_good(fd: EventFdView, counter: u64)
    ensures
        ({
            let closed = fd.after_close();
            &&& closed.state.closed && !closed.state.active && !closed.state.readable
                && !closed.state.writable
            &&& closed.with_counter(counter).state == closed.state
            &&& closed.after_close() == closed
        }),
{
}

/// A write that would block succeeds once the counter was read.
pub proof fn law_blocked_write_succeeds_later(fd: EventFdView, bytes: Seq<u8>)
    requires
        write_outcome(fd, bytes, 0) == Err::<u64, Errno>(Errno::EAGAIN),
        !fd.is_semaphore_mode,
    ensures
        write_outcome(fd.with_counter(0), bytes, 0) is Ok,
{
}

/// The counter becomes what it is set to, in semaphore mode as well as without it, and nothing but
/// the state changes along with it.
pub proof fn law_counter_is_set(fd: EventFdView, counter: u64)
    ensures
        ({
            let after = fd.with_counter(counter);
            &&& after.counter == counter
            &&& after.is_semaphore_mode == fd.is_semaphore_mode
            &&& after.listeners == fd.listeners
            &&& after.status == fd.status
            &&& after.has_open_file == fd.has_open_file
        }),
{
}

/// How the state goes along with the counter, flag by flag: an open eventfd whose counter changes
/// is readable if the counter is not zero and writable if at least 1 can be added, the parity
/// flips, and whether it is active stays. A closed one keeps its state, and so does one whose
/// counter stays.
pub proof fn law_state_with_counter(fd: EventFdView, counter: u64)
    ensures
        ({
            let before = fd.state;
            let after = fd.with_counter(counter).state;
            &&& counter == fd.counter || before.closed ==> after == before
            &&& counter != fd.counter && !before.closed ==> {
                &&& after.readable <==> counter != 0
                &&& after.writable <==> counter + 1 < u64::MAX
                &&& after.input_buffer_parity <==> !before.input_buffer_parity
                &&& after.active == before.active
                &&& !after.closed
            }
        }),
{
}

/// What a write comes to, told by its arguments: an eventfd cannot seek; it takes eight bytes;
/// their number must not be the largest one; and the sum must stay below it. Everything else is
/// added.
pub proof fn law_write_outcome(fd: EventFdView, bytes: Seq<u8>, offset: i64)
    ensures
        offset != 0 ==> write_outcome(fd, bytes, offset) == Err::<u64, Errno>(Errno::ESPIPE),
        offset == 0 && bytes.len() < 8 ==> write_outcome(fd, bytes, offset) == Err::<u64, Errno>(
            Errno::EINVAL,
        ),
        offset == 0 && bytes.len() >= 8 ==> {
            let value = from_ne_bytes(bytes.take(8));
            &&& value <= u64::MAX
            &&& value == u64::MAX ==> write_outcome(fd, bytes, offset) == Err::<u64, Errno>(
                Errno::EINVAL,
            )
            &&& value < u64::MAX && fd.counter + value >= u64::MAX ==> write_outcome(
                fd,
                bytes,
                offset,
            ) == Err::<u64, Errno>(Errno::EAGAIN)
            &&& fd.counter + value < u64::MAX ==> (write_outcome(fd, bytes, offset) matches Ok(
                added,
            ) && added == value)
        },
{
    if bytes.len() >= 8 {
        lemma_byte_ranges();
        lemma_from_bytes(bytes.take(8));
    }
}

/// What a read comes to, told by its arguments: an eventfd cannot seek; it gives eight bytes; and
/// it has nothing to give while the counter is zero. In semaphore mode it gives 1, otherwise all.
pub proof fn law_read_outcome(fd: EventFdView, offset: i64, stream_len: nat)
    ensures
        offset != 0 ==> read_outcome(fd, offset, stream_len) == Err::<u64, Errno>(Errno::ESPIPE),
        offset == 0 && stream_len < 8 ==> read_outcome(fd, offset, stream_len) == Err::<u64, Errno>(
            Errno::EINVAL,
        ),
        offset == 0 && stream_len >= 8 && fd.counter == 0 ==> read_outcome(fd, offset, stream_len)
            == Err::<u64, Errno>(Errno::EAGAIN),
        offset == 0 && stream_len >= 8 && fd.counter > 0 ==> read_outcome(fd, offset, stream_len)
            == Ok::<u64, Errno>(if fd.is_semaphore_mode {
            1
        } else {
            fd.counter
        }),
{
}

/// What was written in one go or in several is there to be read: without semaphore mode one read
/// gives the sum of two writes and leaves nothing; with it each read gives 1 and leaves one less.
pub proof fn law_reads_give_what_was_written(fd: EventFdView, first: u64, second: u64)
    requires
        fd.counter + first + second < u64::MAX,
        fd.counter + first + second > 0,
    ensures
        ({
            let sum = fd.counter + first + second;
            let once = fd.with_counter((fd.counter + first) as u64);
            let twice = once.with_counter((once.counter + second) as u64);
            &&& !fd.is_semaphore_mode ==> (read_outcome(twice, 0, 8) matches Ok(value) && value
                == sum) && read_outcome(twice.with_counter(0), 0, 8) is Err
            &&& fd.is_semaphore_mode ==> read_outcome(twice, 0, 8) == Ok::<u64, Errno>(1)
                && twice.with_counter((twice.counter - 1) as u64).counter == sum - 1
        }),
{
}

/// Closing an eventfd closes it, makes it neither active nor readable nor writable, and leaves the
/// rest as it is.
pub proof fn law_closing(fd: EventFdView)
    ensures
        ({
            let after = fd.after_close();
            &&& after.state.closed
            &&& !after.state.active
            &&& !after.state.readable
            &&& !after.state.writable
            &&& after.state.input_buffer_parity == fd.state.input_buffer_parity
            &&& after.counter == fd.counter
            &&& after.is_semaphore_mode == fd.is_semaphore_mode
            &&& after.listeners == fd.listeners
            &&& after.status == fd.status
            &&& after.has_open_file == fd.has_open_file
        }),
{
}

} // verus!
