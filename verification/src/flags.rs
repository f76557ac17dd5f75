//! Small sets of flags: the state and the status of a file, the signals that it broadcasts, and the
//! mode that it was opened with.
//!
//! A set whose flags are all known is a record with one boolean per flag. The status of a file
//! comes from the managed process and may hold bits that nothing here looks at, so it is kept as an
//! integer, and so are the status bits that listeners are told about.
use core::ops::BitOr;
use vstd::prelude::*;
use vstd::std_specs::ops::BitOrSpecImpl;

verus! {

/// A set of status bits, as listeners are told about them. Every bit may be used, also one that
/// stands for none of the flags here.
pub type Status = u32;

/// The state of a file that its listeners are told about.
#[derive(Clone, Copy, PartialEq, Eq, Structural, Debug)]
pub struct FileState {
    /// The file is ready to be used.
    pub active: bool,
    /// There is something to read.
    pub readable: bool,
    /// There is room to write.
    pub writable: bool,
    /// The file was closed.
    pub closed: bool,
    /// Flips whenever the content of the input buffer changes.
    pub input_buffer_parity: bool,
}

impl FileState {
    /// The set without any flag.
    #[verifier::allow_in_spec]
    pub fn empty() -> FileState
        returns
            (FileState {
                active: false,
                readable: false,
                writable: false,
                closed: false,
                input_buffer_parity: false,
            }),
    {
        FileState {
            active: false,
            readable: false,
            writable: false,
            closed: false,
            input_buffer_parity: false,
        }
    }

    /// The set of all flags.
    #[verifier::allow_in_spec]
    pub fn all() -> FileState
        returns
            (FileState {
                active: true,
                readable: true,
                writable: true,
                closed: true,
                input_buffer_parity: true,
            }),
    {
        FileState {
            active: true,
            readable: true,
            writable: true,
            closed: true,
            input_buffer_parity: true,
        }
    }

    /// The flag of a file that is ready to be used.
    #[verifier::allow_in_spec]
    pub fn active() -> FileState
        returns
            (FileState { active: true, ..FileState::empty() }),
    {
        FileState { active: true, ..FileState::empty() }
    }

    /// The flag of a file with something to read.
    #[verifier::allow_in_spec]
    pub fn readable() -> FileState
        returns
            (FileState { readable: true, ..FileState::empty() }),
    {
        FileState { readable: true, ..FileState::empty() }
    }

    /// The flag of a file with room to write.
    #[verifier::allow_in_spec]
    pub fn writable() -> FileState
        returns
            (FileState { writable: true, ..FileState::empty() }),
    {
        FileState { writable: true, ..FileState::empty() }
    }

    /// The flag of a closed file.
    #[verifier::allow_in_spec]
    pub fn closed() -> FileState
        returns
            (FileState { closed: true, ..FileState::empty() }),
    {
        FileState { closed: true, ..FileState::empty() }
    }

    /// The flag that flips whenever the content of the input buffer changes.
    #[verifier::allow_in_spec]
    pub fn input_buffer_parity() -> FileState
        returns
            (FileState { input_buffer_parity: true, ..FileState::empty() }),
    {
        FileState { input_buffer_parity: true, ..FileState::empty() }
    }

    /// Whether no flag is set.
    #[verifier::allow_in_spec]
    pub fn is_empty(self) -> bool
        returns
            self == FileState::empty(),
    {
        self == FileState::empty()
    }

    /// Whether all the flags of `other` are set.
    #[verifier::allow_in_spec]
    pub fn contains(self, other: FileState) -> bool
        returns
            self.intersection(other) == other,
    {
        self.intersection(other) == other
    }

    /// Whether at least one of the flags of `other` is set.
    #[verifier::allow_in_spec]
    pub fn intersects(self, other: FileState) -> bool
        returns
            self.intersection(other) != FileState::empty(),
    {
        self.intersection(other) != FileState::empty()
    }

    /// The flags that are in `self` or in `other`.
    #[verifier::allow_in_spec]
    pub fn union(self, other: FileState) -> FileState
        returns
            (FileState {
                active: self.active || other.active,
                readable: self.readable || other.readable,
                writable: self.writable || other.writable,
                closed: self.closed || other.closed,
                input_buffer_parity: self.input_buffer_parity || other.input_buffer_parity,
            }),
    {
        FileState {
            active: self.active || other.active,
            readable: self.readable || other.readable,
            writable: self.writable || other.writable,
            closed: self.closed || other.closed,
            input_buffer_parity: self.input_buffer_parity || other.input_buffer_parity,
        }
    }

    /// The flags that are in `self` and in `other`.
    #[verifier::allow_in_spec]
    pub fn intersection(self, other: FileState) -> FileState
        returns
            (FileState {
                active: self.active && other.active,
                readable: self.readable && other.readable,
                writable: self.writable && other.writable,
                closed: self.closed && other.closed,
                input_buffer_parity: self.input_buffer_parity && other.input_buffer_parity,
            }),
    {
        FileState {
            active: self.active && other.active,
            readable: self.readable && other.readable,
            writable: self.writable && other.writable,
            closed: self.closed && other.closed,
            input_buffer_parity: self.input_buffer_parity && other.input_buffer_parity,
        }
    }

    /// The flags of `self` that are not in `other`.
    #[verifier::allow_in_spec]
    pub fn difference(self, other: FileState) -> FileState
        returns
            (FileState {
                active: self.active && !other.active,
                readable: self.readable && !other.readable,
                writable: self.writable && !other.writable,
                closed: self.closed && !other.closed,
                input_buffer_parity: self.input_buffer_parity && !other.input_buffer_parity,
            }),
    {
        FileState {
            active: self.active && !other.active,
            readable: self.readable && !other.readable,
            writable: self.writable && !other.writable,
            closed: self.closed && !other.closed,
            input_buffer_parity: self.input_buffer_parity && !other.input_buffer_parity,
        }
    }

    /// The flags that are in exactly one of `self` and `other`.
    #[verifier::allow_in_spec]
    pub fn symmetric_difference(self, other: FileState) -> FileState
        returns
            (FileState {
                active: self.active != other.active,
                readable: self.readable != other.readable,
                writable: self.writable != other.writable,
                closed: self.closed != other.closed,
                input_buffer_parity: self.input_buffer_parity != other.input_buffer_parity,
            }),
    {
        FileState {
            active: self.active != other.active,
            readable: self.readable != other.readable,
            writable: self.writable != other.writable,
            closed: self.closed != other.closed,
            input_buffer_parity: self.input_buffer_parity != other.input_buffer_parity,
        }
    }

    /// Sets the flags of `other`.
    pub fn insert(&mut self, other: FileState)
        ensures
            *final(self) == old(self).union(other),
    {
        *self = self.union(other);
    }

    /// Clears the flags of `other`.
    pub fn remove(&mut self, other: FileState)
        ensures
            *final(self) == old(self).difference(other),
    {
        *self = self.difference(other);
    }

    /// Sets the flags of `other` if `on`, clears them otherwise.
    pub fn set(&mut self, other: FileState, on: bool)
        ensures
            *final(self) == (if on {
                old(self).union(other)
            } else {
                old(self).difference(other)
            }),
    {
        if on {
            self.insert(other);
        } else {
            self.remove(other);
        }
    }
}

impl FileState {
    /// The status bits that stand for the flags.
    #[verifier::allow_in_spec]
    pub fn bits(self) -> Status
        returns
            (if self.active { 0x1u32 } else { 0u32 }) | (if self.readable { 0x2u32 } else { 0u32 })
                | (if self.writable { 0x4u32 } else { 0u32 }) | (if self.closed {
                0x8u32
            } else {
                0u32
            }) | (if self.input_buffer_parity { 0x10u32 } else { 0u32 }),
    {
        (if self.active { 0x1u32 } else { 0u32 }) | (if self.readable { 0x2u32 } else { 0u32 }) | (
        if self.writable { 0x4u32 } else { 0u32 }) | (if self.closed { 0x8u32 } else { 0u32 }) | (
        if self.input_buffer_parity { 0x10u32 } else { 0u32 })
    }

    /// The flags that `bits` stand for. Other bits are ignored.
    #[verifier::allow_in_spec]
    pub fn from_bits_truncate(bits: Status) -> FileState
        returns
            (FileState {
                active: bits & 0x1 != 0,
                readable: bits & 0x2 != 0,
                writable: bits & 0x4 != 0,
                closed: bits & 0x8 != 0,
                input_buffer_parity: bits & 0x10 != 0,
            }),
    {
        FileState {
            active: bits & 0x1 != 0,
            readable: bits & 0x2 != 0,
            writable: bits & 0x4 != 0,
            closed: bits & 0x8 != 0,
            input_buffer_parity: bits & 0x10 != 0,
        }
    }

    /// The status bits are as good as the flags: the flags can be read back from them, and whether
    /// two sets have a flag in common can be told by the bits.
    pub proof fn law_bits(self, other: FileState)
        ensures
            FileState::from_bits_truncate(self.bits()) == self,
            self.intersects(other) <==> self.bits() & other.bits() != 0,
    {
        lemma_bits(
            self.active,
            self.readable,
            self.writable,
            self.closed,
            self.input_buffer_parity,
            other.active,
            other.readable,
            other.writable,
            other.closed,
            other.input_buffer_parity,
        );
    }
}

/// What two words have of five flags each.
proof fn lemma_bits(
    a0: bool,
    a1: bool,
    a2: bool,
    a3: bool,
    a4: bool,
    b0: bool,
    b1: bool,
    b2: bool,
    b3: bool,
    b4: bool,
)
    by (bit_vector)
    ensures
        ({
            let a = (if a0 { 0x1u32 } else { 0u32 }) | (if a1 { 0x2u32 } else { 0u32 }) | (if a2 {
                0x4u32
            } else {
                0u32
            }) | (if a3 { 0x8u32 } else { 0u32 }) | (if a4 { 0x10u32 } else { 0u32 });
            let b = (if b0 { 0x1u32 } else { 0u32 }) | (if b1 { 0x2u32 } else { 0u32 }) | (if b2 {
                0x4u32
            } else {
                0u32
            }) | (if b3 { 0x8u32 } else { 0u32 }) | (if b4 { 0x10u32 } else { 0u32 });
            &&& (a & 0x1 != 0) == a0
            &&& (a & 0x2 != 0) == a1
            &&& (a & 0x4 != 0) == a2
            &&& (a & 0x8 != 0) == a3
            &&& (a & 0x10 != 0) == a4
            &&& (a & b != 0) == (a0 && b0 || a1 && b1 || a2 && b2 || a3 && b3 || a4 && b4)
        }),
{
}

impl BitOr for FileState {
    type Output = FileState;

    fn bitor(self, rhs: FileState) -> (r: FileState) {
        self.union(rhs)
    }
}

impl BitOrSpecImpl for FileState {
    open spec fn obeys_bitor_spec() -> bool {
        true
    }

    open spec fn bitor_req(self, rhs: FileState) -> bool {
        true
    }

    open spec fn bitor_spec(self, rhs: FileState) -> FileState {
        self.union(rhs)
    }
}

/// The one-off signals that a file broadcasts along with a change of its state.
#[derive(Clone, Copy, PartialEq, Eq, Structural, Debug)]
pub struct FileSignals {
    /// The read buffer holds more than it did.
    pub read_buffer_grew: bool,
}

impl FileSignals {
    /// The set without any signal.
    #[verifier::allow_in_spec]
    pub fn empty() -> FileSignals
        returns
            (FileSignals { read_buffer_grew: false }),
    {
        FileSignals { read_buffer_grew: false }
    }

    /// The signal that the read buffer holds more than it did.
    #[verifier::allow_in_spec]
    pub fn read_buffer_grew() -> FileSignals
        returns
            (FileSignals { read_buffer_grew: true }),
    {
        FileSignals { read_buffer_grew: true }
    }

    /// Whether all the signals of `other` are set.
    #[verifier::allow_in_spec]
    pub fn contains(self, other: FileSignals) -> bool
        returns
            other.read_buffer_grew ==> self.read_buffer_grew,
    {
        !other.read_buffer_grew || self.read_buffer_grew
    }

    /// Sets the signals of `other`.
    pub fn insert(&mut self, other: FileSignals)
        ensures
            final(self).read_buffer_grew == (old(self).read_buffer_grew || other.read_buffer_grew),
    {
        self.read_buffer_grew = self.read_buffer_grew || other.read_buffer_grew;
    }
}

/// The mode that a file was opened with.
#[derive(Clone, Copy, PartialEq, Eq, Structural, Debug)]
pub struct FileMode {
    /// The file may be read.
    pub read: bool,
    /// The file may be written.
    pub write: bool,
}

impl FileMode {
    /// The mode of a file that may be read only.
    #[verifier::allow_in_spec]
    pub fn read() -> FileMode
        returns
            (FileMode { read: true, write: false }),
    {
        FileMode { read: true, write: false }
    }

    /// The mode of a file that may be written only.
    #[verifier::allow_in_spec]
    pub fn write() -> FileMode
        returns
            (FileMode { read: false, write: true }),
    {
        FileMode { read: false, write: true }
    }

    /// What either of the two modes allows.
    #[verifier::allow_in_spec]
    pub fn union(self, other: FileMode) -> FileMode
        returns
            (FileMode { read: self.read || other.read, write: self.write || other.write }),
    {
        FileMode { read: self.read || other.read, write: self.write || other.write }
    }

    /// The number that stands for the mode: 1 for reading, 2 for writing, 3 for both.
    #[verifier::allow_in_spec]
    pub fn bits(self) -> u32
        returns
            (if self.read { 1u32 } else { 0u32 }) | (if self.write { 2u32 } else { 0u32 }),
    {
        (if self.read { 1u32 } else { 0u32 }) | (if self.write { 2u32 } else { 0u32 })
    }
}

/// The status flags of an open file, numbered as open(2) numbers them.
#[derive(Clone, Copy, PartialEq, Eq, Structural, Debug)]
pub struct FileStatus {
    pub bits: i32,
}

/// The number of `O_NONBLOCK`.
pub const O_NONBLOCK: i32 = 0x800;

impl FileStatus {
    /// The status without any flag.
    #[verifier::allow_in_spec]
    pub fn empty() -> FileStatus
        returns
            (FileStatus { bits: 0 }),
    {
        FileStatus { bits: 0 }
    }

    /// The status of a file whose operations do not block.
    #[verifier::allow_in_spec]
    pub fn nonblock() -> FileStatus
        returns
            (FileStatus { bits: O_NONBLOCK }),
    {
        FileStatus { bits: O_NONBLOCK }
    }

    /// Whether all the flags of `other` are set.
    #[verifier::allow_in_spec]
    pub fn contains(self, other: FileStatus) -> bool
        returns
            self.bits & other.bits == other.bits,
    {
        self.bits & other.bits == other.bits
    }
}

/// The named sets have the flags that their names say.
pub proof fn law_named_flags(state: FileState)
    ensures
        state == FileState::empty() <==> !state.active && !state.readable && !state.writable
            && !state.closed && !state.input_buffer_parity,
        state == FileState::all() <==> state.active && state.readable && state.writable
            && state.closed && state.input_buffer_parity,
        state.contains(FileState::active()) <==> state.active,
        state.contains(FileState::readable()) <==> state.readable,
        state.contains(FileState::writable()) <==> state.writable,
        state.contains(FileState::closed()) <==> state.closed,
        state.contains(FileState::input_buffer_parity()) <==> state.input_buffer_parity,
        state.intersects(FileState::active()) <==> state.active,
        state.intersects(FileState::readable()) <==> state.readable,
        state.intersects(FileState::writable()) <==> state.writable,
        state.intersects(FileState::closed()) <==> state.closed,
        state.intersects(FileState::input_buffer_parity()) <==> state.input_buffer_parity,
        state.is_empty() <==> !state.intersects(FileState::all()),
{
}

/// How sets of flags are combined and compared, told by the sets alone: what is taken away is no
/// longer there and the rest is, what two sets have in common is in both, and what differs is in
/// one of them.
pub proof fn law_flag_sets(a: FileState, b: FileState)
    ensures
        a.contains(b) <==> a.union(b) == a,
        a.intersects(b) <==> !a.intersection(b).is_empty(),
        a.union(b).contains(a) && a.union(b).contains(b),
        a.contains(a.intersection(b)) && b.contains(a.intersection(b)),
        a.difference(b).union(a.intersection(b)) == a,
        !a.difference(b).intersects(b),
        a.union(b).difference(b) == a.difference(b),
        a.symmetric_difference(b) == a.difference(b).union(b.difference(a)),
        a.symmetric_difference(b).symmetric_difference(b) == a,
        a.symmetric_difference(b).is_empty() <==> a == b,
        a.readable && b.readable ==> a.intersects(b) && a.intersection(b).readable,
        a.readable || b.readable <==> a.union(b).readable,
        a.writable || b.writable <==> a.union(b).writable,
        a.active || b.active <==> a.union(b).active,
        a.closed || b.closed <==> a.union(b).closed,
        a.input_buffer_parity || b.input_buffer_parity <==> a.union(b).input_buffer_parity,
        a.intersection(b).readable <==> a.readable && b.readable,
        a.intersection(b).writable <==> a.writable && b.writable,
        a.intersection(b).active <==> a.active && b.active,
        a.intersection(b).closed <==> a.closed && b.closed,
        a.intersection(b).input_buffer_parity <==> a.input_buffer_parity && b.input_buffer_parity,
{
}

/// Each flag has a bit of its own among the status bits, and no other bit is used.
pub proof fn law_state_numbers(state: FileState)
    ensures
        state.bits() & 1 != 0 <==> state.active,
        state.bits() & 2 != 0 <==> state.readable,
        state.bits() & 4 != 0 <==> state.writable,
        state.bits() & 8 != 0 <==> state.closed,
        state.bits() & 16 != 0 <==> state.input_buffer_parity,
        state.bits() < 32,
{
    state.law_bits(state);
    let bits = state.bits();
    let (a0, a1, a2, a3, a4) = (
        state.active,
        state.readable,
        state.writable,
        state.closed,
        state.input_buffer_parity,
    );
    assert(bits < 32) by (bit_vector)
        requires
            bits == (if a0 { 0x1u32 } else { 0u32 }) | (if a1 { 0x2u32 } else { 0u32 }) | (if a2 {
                0x4u32
            } else {
                0u32
            }) | (if a3 { 0x8u32 } else { 0u32 }) | (if a4 { 0x10u32 } else { 0u32 }),
    ;
}

/// The bits of the flags in which two states differ are the bits in which their numbers differ.
pub proof fn law_changed_bits(before: FileState, after: FileState)
    ensures
        after.symmetric_difference(before).bits() == after.bits() ^ before.bits(),
        before.bits() == after.bits() <==> before == after,
{
    before.law_bits(after);
    after.law_bits(before);
    let (a, b, c) = (after.bits(), before.bits(), after.symmetric_difference(before).bits());
    let (a0, a1, a2, a3, a4) = (
        after.active,
        after.readable,
        after.writable,
        after.closed,
        after.input_buffer_parity,
    );
    let (b0, b1, b2, b3, b4) = (
        before.active,
        before.readable,
        before.writable,
        before.closed,
        before.input_buffer_parity,
    );
    assert(c == a ^ b) by (bit_vector)
        requires
            a == (if a0 { 0x1u32 } else { 0u32 }) | (if a1 { 0x2u32 } else { 0u32 }) | (if a2 {
                0x4u32
            } else {
                0u32
            }) | (if a3 { 0x8u32 } else { 0u32 }) | (if a4 { 0x10u32 } else { 0u32 }),
            b == (if b0 { 0x1u32 } else { 0u32 }) | (if b1 { 0x2u32 } else { 0u32 }) | (if b2 {
                0x4u32
            } else {
                0u32
            }) | (if b3 { 0x8u32 } else { 0u32 }) | (if b4 { 0x10u32 } else { 0u32 }),
            c == (if a0 != b0 { 0x1u32 } else { 0u32 }) | (if a1 != b1 { 0x2u32 } else { 0u32 }) | (
            if a2 != b2 { 0x4u32 } else { 0u32 }) | (if a3 != b3 { 0x8u32 } else { 0u32 }) | (
            if a4 != b4 { 0x10u32 } else { 0u32 }),
    ;
}

/// What the other small sets hold: a signal, reading and writing, and that a file does not block.
pub proof fn law_other_flags(
    signals: FileSignals,
    mode: FileMode,
    other: FileMode,
    status: FileStatus,
)
    ensures
        signals.contains(FileSignals::read_buffer_grew()) <==> signals.read_buffer_grew,
        signals.contains(FileSignals::empty()),
        !FileSignals::empty().read_buffer_grew,
        FileMode::read().read && !FileMode::read().write,
        FileMode::write().write && !FileMode::write().read,
        mode.union(other).read <==> mode.read || other.read,
        mode.union(other).write <==> mode.write || other.write,
        mode.bits() == (if mode.read {
            1int
        } else {
            0
        }) + (if mode.write {
            2int
        } else {
            0
        }),
        status.contains(FileStatus::nonblock()) <==> status.bits & 0x800 != 0,
        status.contains(FileStatus::empty()),
{
    assert(1u32 | 2 == 3 && 1u32 | 0 == 1 && 0u32 | 2 == 2 && 0u32 | 0 == 0) by (bit_vector);
    let bits = status.bits;
    assert(bits & 0x800 == 0x800 <==> bits & 0x800 != 0) by (bit_vector);
    assert(bits & 0 == 0) by (bit_vector);
}

} // verus!
