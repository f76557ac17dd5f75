//! Who does what when.
use crate::eth::message::sha256;
use crate::eth::{
    epoch_of, CommitteeId, Epoch, Slot, ValidatorId, GENESIS_SECONDS_SINCE_UNIX_EPOCH,
    MAX_COMMITTEES_PER_SLOT, SECONDS_PER_SLOT, SLOTS_PER_EPOCH,
};
use crate::text::{
    decimal, law_decimal_readable, lemma_encode_utf8_len, lemma_u64_decimal_len, push_decimal,
};
use rand::seq::SliceRandom;
use rand::{Rng, SeedableRng};
use rand_chacha::ChaCha20Rng;
use vstd::prelude::*;
use vstd::std_specs::convert::FromSpecImpl;
use vstd::utf8::encode_utf8;

verus! {

/// The number of nanoseconds per second.
pub const NANOS_PER_SECOND: i128 = 1_000_000_000;

/// Times are nanoseconds on some clock, and less than 2^94 of them away from its zero.
pub open spec fn is_time(time: i128) -> bool {
    -0x4000_0000_0000_0000_0000_0000 < time < 0x4000_0000_0000_0000_0000_0000
}

/// What random choices are derived from.
#[derive(PartialEq, Eq, Copy, Clone, Structural, Debug)]
pub enum Digest {
    /// The choice of the proposer in a slot.
    Proposer(Slot),
    /// The choice of the committees in an epoch.
    Committee(Epoch),
}

impl Digest {
    /// The text whose hash is the seed.
    pub open spec fn spec_prehash(self) -> Seq<char> {
        match self {
            Digest::Proposer(slot) => "proposer/"@ + decimal(slot.0 as nat),
            Digest::Committee(epoch) => "committee/"@ + decimal(epoch.0 as nat),
        }
    }

    /// The seed.
    pub open spec fn seed(self) -> Seq<u8> {
        sha256(encode_utf8(self.spec_prehash()))
    }

    /// The text whose hash is the seed.
    pub fn prehash(&self) -> (r: String)
        ensures
            r@ == self.spec_prehash(),
            *self matches Digest::Proposer(slot) ==> r@ == "proposer/"@ + decimal(slot.0 as nat),
            *self matches Digest::Committee(epoch) ==> r@ == "committee/"@ + decimal(
                epoch.0 as nat,
            ),
    {
        let mut prehash = String::new();
        match self {
            Digest::Proposer(slot) => {
                prehash.push_str("proposer/");
                push_decimal(&mut prehash, slot.0);
            },
            Digest::Committee(epoch) => {
                prehash.push_str("committee/");
                push_decimal(&mut prehash, epoch.0);
            },
        }
        prehash
    }
}

impl From<Digest> for [u8; 32] {
    fn from(digest: Digest) -> (r: [u8; 32])
        ensures
            r@ == digest.seed(),
    {
        let prehash = digest.prehash();
        proof {
            lemma_prehash_len(digest);
        }
        crate::eth::message::digest(prehash.as_str().as_bytes())
    }
}

impl FromSpecImpl<Digest> for [u8; 32] {
    open spec fn obeys_from_spec() -> bool {
        false
    }

    open spec fn from_spec(digest: Digest) -> [u8; 32] {
        arbitrary()
    }
}

/// The text whose hash is the seed is short.
proof fn lemma_prehash_len(digest: Digest)
    ensures
        encode_utf8(digest.spec_prehash()).len() <= 120,
{
    reveal_strlit("proposer/");
    reveal_strlit("committee/");
    match digest {
        Digest::Proposer(slot) => lemma_u64_decimal_len(slot.0),
        Digest::Committee(epoch) => lemma_u64_decimal_len(epoch.0),
    }
    lemma_encode_utf8_len(digest.spec_prehash());
}

/// The first number below `bound` that a ChaCha20 generator with this seed yields, on a machine
/// with words of this many bits. This names what `rand` and `rand_chacha` compute.
pub uninterp spec fn chacha20_below(seed: Seq<u8>, bound: usize, word_bits: u32) -> usize;

/// A number below `bound`.
///
/// This is `Rng::gen_range` of `rand` on a fresh `ChaCha20Rng` of `rand_chacha`. It is trusted to
/// depend on the seed, the bound and the width of `usize` alone, and to stay below the bound, which
/// must not be 0.
#[verifier::external_body]
fn random_below(seed: [u8; 32], bound: usize) -> (r: usize)
    requires
        bound > 0,
    ensures
        r == chacha20_below(seed@, bound, usize::BITS),
        r < bound,
{
    ChaCha20Rng::from_seed(seed).gen_range(0..bound)
}

/// `items` in the order into which a ChaCha20 generator with this seed shuffles them. This names
/// what `rand` and `rand_chacha` compute.
pub uninterp spec fn chacha20_shuffled(seed: Seq<u8>, items: Seq<usize>) -> Seq<usize>;

/// `items` in another order.
///
/// This is `SliceRandom::shuffle` of `rand` with a fresh `ChaCha20Rng` of `rand_chacha`. It is
/// trusted to depend on the seed and the items alone, and to do nothing but swap items.
#[verifier::external_body]
fn shuffled(seed: [u8; 32], items: Vec<usize>) -> (r: Vec<usize>)
    ensures
        r@ == chacha20_shuffled(seed@, items@),
        r@.to_multiset() == items@.to_multiset(),
{
    let mut items = items;
    items.as_mut_slice().shuffle(&mut ChaCha20Rng::from_seed(seed));
    items
}

/// The numbers below `n`, in order.
pub open spec fn numbers_below(n: usize) -> Seq<usize> {
    Seq::new(n as nat, |i: int| i as usize)
}

/// The slot and the committee of the validator at this position of the shuffled list: positions
/// are dealt out over the committees of the slots of the epoch, again and again.
pub open spec fn spec_assignment(position: usize, epoch: Epoch) -> (Slot, CommitteeId) {
    let idx = position as int % 8;
    (
        Slot((idx / MAX_COMMITTEES_PER_SLOT as int + epoch.0 * SLOTS_PER_EPOCH) as u64),
        CommitteeId((idx % MAX_COMMITTEES_PER_SLOT as int) as usize),
    )
}

/// The slot and the committee of the validator at this position of the shuffled list.
pub fn assignment(position: usize, epoch: Epoch) -> (r: (Slot, CommitteeId))
    requires
        epoch.0 * SLOTS_PER_EPOCH + SLOTS_PER_EPOCH - 1 <= u64::MAX,
    ensures
        r == spec_assignment(position, epoch),
        r.0.0 == 4 * epoch.0 + position as int % 8 / 2,
        r.1.0 == position as int % 2,
{
    let idx: usize = position % (MAX_COMMITTEES_PER_SLOT * SLOTS_PER_EPOCH as usize);
    let slot_in_epoch: u64 = (idx / MAX_COMMITTEES_PER_SLOT) as u64;
    let slot = Slot::from(slot_in_epoch + u64::from(epoch) * SLOTS_PER_EPOCH);
    let cmid = CommitteeId::from(idx % MAX_COMMITTEES_PER_SLOT);
    (slot, cmid)
}

/// The overall view of the network.
#[derive(Clone, Copy, PartialEq, Eq, Structural, Debug)]
pub struct EthNetwork {
    /// When the chain starts, on the clock that does not jump.
    pub genesis_instant: i128,
    /// The number of validators.
    pub num_validators: usize,
}

impl EthNetwork {
    /// The start of the chain is a time that can be computed with.
    pub open spec fn wf(self) -> bool {
        -0x2_0000_0000_0000_0000_0000_0000 < self.genesis_instant
            < 0x2_0000_0000_0000_0000_0000_0000
    }

    /// The slot at the time `instant`: the first one begins when the chain starts, and it also
    /// stands for the time before.
    pub open spec fn spec_slot_of(self, instant: i128) -> Slot {
        if instant <= self.genesis_instant {
            Slot(0)
        } else {
            Slot(
                ((instant - self.genesis_instant) / NANOS_PER_SECOND as int
                    / SECONDS_PER_SLOT as int) as u64,
            )
        }
    }

    /// Who proposes the block for `slot`.
    pub open spec fn spec_proposer(self, slot: Slot) -> ValidatorId {
        ValidatorId(
            chacha20_below(Digest::Proposer(slot).seed(), self.num_validators, usize::BITS),
        )
    }

    /// The validators in the order in which they are dealt out over the committees of `epoch`.
    pub open spec fn spec_permutation(self, epoch: Epoch) -> Seq<usize> {
        chacha20_shuffled(Digest::Committee(epoch).seed(), numbers_below(self.num_validators))
    }

    /// A network of `num_validators` validators. The clock of the system, in nanoseconds since the
    /// Unix epoch, shows `system_now` while the clock that does not jump shows `instant_now`.
    pub fn new(num_validators: usize, system_now: i128, instant_now: i128) -> (r: EthNetwork)
        requires
            is_time(system_now),
            is_time(instant_now),
        ensures
            r.wf(),
            r.num_validators == num_validators,
            r.genesis_instant - instant_now == GENESIS_SECONDS_SINCE_UNIX_EPOCH * NANOS_PER_SECOND
                - system_now,
            r.genesis_instant - instant_now == 946_684_860_000_000_000 - system_now,
    {
        let genesis_time: i128 = 946_684_860_000_000_000;
        EthNetwork {
            genesis_instant: instant_now - (system_now - genesis_time),
            num_validators,
        }
    }

    /// The slot at the time `now`.
    pub fn current_slot(&self, now: i128) -> (r: Slot)
        requires
            self.wf(),
            is_time(now),
        ensures
            r == self.spec_slot_of(now),
            now <= self.genesis_instant ==> r.0 == 0,
            now > self.genesis_instant ==> 12_000_000_000 * r.0 <= now - self.genesis_instant
                < 12_000_000_000 * (r.0 + 1),
    {
        self.slot_of(now)
    }

    /// The slot at the time `instant`.
    pub fn slot_of(&self, instant: i128) -> (r: Slot)
        requires
            self.wf(),
            is_time(instant),
        ensures
            r == self.spec_slot_of(instant),
            instant <= self.genesis_instant ==> r.0 == 0,
            instant > self.genesis_instant ==> 12_000_000_000 * r.0 <= instant
                - self.genesis_instant < 12_000_000_000 * (r.0 + 1),
    {
        proof {
            lemma_slot_fits(*self, instant);
        }
        let duration: i128 = if instant > self.genesis_instant {
            instant - self.genesis_instant
        } else {
            0
        };
        let seconds: i128 = duration / NANOS_PER_SECOND;
        Slot::from((seconds / SECONDS_PER_SLOT as i128) as u64)
    }

    /// When the chain starts.
    pub fn genesis_instant(&self) -> (r: i128)
        ensures
            r == self.genesis_instant,
    {
        self.genesis_instant
    }

    /// Get a proposer for a given slot.
    pub fn proposer(&self, slot: Slot) -> (r: ValidatorId)
        requires
            self.num_validators > 0,
        ensures
            r == self.spec_proposer(slot),
            r.0 < self.num_validators,
            r.0 == chacha20_below(
                sha256(encode_utf8("proposer/"@ + decimal(slot.0 as nat))),
                self.num_validators,
                usize::BITS,
            ),
    {
        let id = random_below(<[u8; 32]>::from(Digest::Proposer(slot)), self.num_validators);
        ValidatorId(id)
    }

    /// Every validator is supposed to make an attestation in every epoch, so it should return the
    /// slot and the committee id.
    pub fn committee(&self, vid: ValidatorId, epoch: Epoch) -> (r: (Slot, CommitteeId))
        requires
            vid.0 < self.num_validators,
            epoch.0 * SLOTS_PER_EPOCH + SLOTS_PER_EPOCH - 1 <= u64::MAX,
        ensures
            r == spec_assignment(self.spec_permutation(epoch)[vid.0 as int], epoch),
            ({
                let position = chacha20_shuffled(
                    sha256(encode_utf8("committee/"@ + decimal(epoch.0 as nat))),
                    Seq::new(self.num_validators as nat, |i: int| i as usize),
                )[vid.0 as int] as int;
                r.0.0 == 4 * epoch.0 + position % 8 / 2 && r.1.0 == position % 2
            }),
            self.spec_permutation(epoch).to_multiset() == numbers_below(
                self.num_validators,
            ).to_multiset(),
    {
        let vid = usize::from(vid);
        // shuffle all the validators
        let mut numbers: Vec<usize> = Vec::new();
        let mut i: usize = 0;
        while i < self.num_validators
            invariant
                i <= self.num_validators,
                numbers@ == numbers_below(i),
            decreases self.num_validators - i,
        {
            numbers.push(i);
            i += 1;
        }
        let permutation = shuffled(<[u8; 32]>::from(Digest::Committee(epoch)), numbers);
        proof {
            permutation@.to_multiset_ensures();
            numbers@.to_multiset_ensures();
        }
        proof {
            law_choices_made(*self, Slot(0), epoch);
        }
        assignment(permutation[vid], epoch)
    }
}

/// Every validator attests once per epoch: its slot lies in the epoch, and its committee is one of
/// those that the slot has.
pub proof fn law_attests_in_epoch(position: usize, epoch: Epoch)
    requires
        epoch.0 * SLOTS_PER_EPOCH + SLOTS_PER_EPOCH - 1 <= u64::MAX,
    ensures
        ({
            let (slot, cmid) = spec_assignment(position, epoch);
            &&& epoch_of(slot) == epoch
            &&& cmid.0 < MAX_COMMITTEES_PER_SLOT
        }),
{
}

/// Every committee of every slot of an epoch is filled by one position in eight.
pub proof fn law_committees_filled(position: usize, epoch: Epoch, slot_in_epoch: u64, cmid: usize)
    requires
        epoch.0 * SLOTS_PER_EPOCH + SLOTS_PER_EPOCH - 1 <= u64::MAX,
        slot_in_epoch < SLOTS_PER_EPOCH,
        cmid < MAX_COMMITTEES_PER_SLOT,
    ensures
        spec_assignment(position, epoch) == (
            Slot((epoch.0 * SLOTS_PER_EPOCH + slot_in_epoch) as u64),
            CommitteeId(cmid),
        ) <==> position as int % 8 == 2 * slot_in_epoch + cmid,
{
}

/// A shuffled list of the validators has each of them exactly once.
pub proof fn law_positions_distinct(permutation: Seq<usize>, num_validators: usize)
    requires
        permutation.to_multiset() == numbers_below(num_validators).to_multiset(),
    ensures
        permutation.len() == num_validators,
        permutation.no_duplicates(),
        forall|vid: int|
            0 <= vid < permutation.len() ==> #[trigger] permutation[vid] < num_validators,
{
    let numbers = numbers_below(num_validators);
    permutation.to_multiset_ensures();
    numbers.to_multiset_ensures();
    assert(numbers.no_duplicates());
    numbers.lemma_multiset_has_no_duplicates();
    permutation.lemma_multiset_has_no_duplicates_conv();
    assert forall|vid: int| 0 <= vid < permutation.len() implies #[trigger] permutation[vid]
        < num_validators by {
        assert(permutation.contains(permutation[vid]));
        assert(numbers.to_multiset().count(permutation[vid]) > 0);
        assert(numbers.contains(permutation[vid]));
    }
}

/// How many of `positions` fall to the committee with this place in the epoch: committees are
/// numbered through, two per slot.
pub open spec fn committee_size(positions: Seq<usize>, place: int) -> nat
    decreases positions.len(),
{
    if positions.len() == 0 {
        0
    } else {
        committee_size(positions.drop_last(), place) + if positions.last() as int % 8 == place {
            1nat
        } else {
            0nat
        }
    }
}

/// The committees of an epoch are of the same size, up to one validator.
pub proof fn law_committees_balanced(permutation: Seq<usize>, num_validators: usize, place: int)
    requires
        permutation.to_multiset() == numbers_below(num_validators).to_multiset(),
        0 <= place < 8,
    ensures
        committee_size(permutation, place) == (num_validators + 7 - place) / 8,
{
    lemma_committee_size_multiset(permutation, numbers_below(num_validators), place);
    lemma_committee_size_numbers(num_validators, place);
}

proof fn lemma_committee_size_numbers(n: usize, place: int)
    requires
        0 <= place < 8,
    ensures
        committee_size(numbers_below(n), place) == (n + 7 - place) / 8,
    decreases n,
{
    if n > 0 {
        let earlier = (n - 1) as usize;
        lemma_committee_size_numbers(earlier, place);
        assert(numbers_below(n).drop_last() == numbers_below(earlier));
        assert(numbers_below(n).last() == earlier);
    }
}

/// The size of a committee does not depend on the order of the validators.
proof fn lemma_committee_size_multiset(a: Seq<usize>, b: Seq<usize>, place: int)
    requires
        a.to_multiset() == b.to_multiset(),
    ensures
        committee_size(a, place) == committee_size(b, place),
    decreases a.len(),
{
    broadcast use vstd::seq_lib::group_to_multiset_ensures;

    assert(a.to_multiset().len() == a.len() && b.to_multiset().len() == b.len());
    if a.len() > 0 {
        let last = a.last();
        assert(a.contains(last));
        assert(b.to_multiset().count(last) > 0);
        let i = choose|i: int| 0 <= i < b.len() && b[i] == last;
        assert(a.remove(a.len() - 1) == a.drop_last());
        assert(a.drop_last().to_multiset() == b.remove(i).to_multiset());
        lemma_committee_size_multiset(a.drop_last(), b.remove(i), place);
        lemma_committee_size_remove(b, i, place);
    }
}

proof fn lemma_committee_size_remove(positions: Seq<usize>, i: int, place: int)
    requires
        0 <= i < positions.len(),
    ensures
        committee_size(positions, place) == committee_size(positions.remove(i), place) + (
        if positions[i] as int % 8 == place {
            1nat
        } else {
            0nat
        }),
    decreases positions.len(),
{
    let removed = positions.remove(i);
    if i == positions.len() - 1 {
        assert(removed == positions.drop_last());
    } else {
        lemma_committee_size_remove(positions.drop_last(), i, place);
        assert(removed.drop_last() == positions.drop_last().remove(i));
        assert(removed.last() == positions.last());
    }
}

/// Slots follow each other without a gap, and each takes as many seconds as it should.
pub proof fn law_slot_duration(network: EthNetwork, slot: u64, instant: i128)
    requires
        network.wf(),
        is_time(instant),
        instant >= network.genesis_instant,
    ensures
        network.spec_slot_of(instant) == Slot(slot) <==> slot * SECONDS_PER_SLOT * NANOS_PER_SECOND
            <= instant - network.genesis_instant < (slot + 1) * SECONDS_PER_SLOT * NANOS_PER_SECOND,
{
    lemma_slot_fits(network, instant);
}

/// The number of a slot fits, and so do those of the other slots of its epoch.
pub proof fn lemma_slot_fits(network: EthNetwork, instant: i128)
    requires
        network.wf(),
        is_time(instant),
    ensures
        0 <= (instant - network.genesis_instant) / NANOS_PER_SECOND as int
            / SECONDS_PER_SLOT as int <= u64::MAX - SLOTS_PER_EPOCH || instant
            < network.genesis_instant,
        network.spec_slot_of(instant).0 <= u64::MAX - SLOTS_PER_EPOCH,
{
}

/// What random choices are derived from: the hash of a text that says what the choice is and for
/// which slot, or which epoch, it is made. No two choices have the same text.
pub proof fn law_choices(digest: Digest, other: Digest, slot: Slot, epoch: Epoch)
    ensures
        Digest::Proposer(slot).seed() == sha256(
            encode_utf8("proposer/"@ + decimal(slot.0 as nat)),
        ),
        Digest::Committee(epoch).seed() == sha256(
            encode_utf8("committee/"@ + decimal(epoch.0 as nat)),
        ),
        digest.spec_prehash() == other.spec_prehash() ==> digest == other,
{
    reveal_strlit("proposer/");
    reveal_strlit("committee/");
    let (a, b) = (digest.spec_prehash(), other.spec_prehash());
    if a == b {
        match (digest, other) {
            (Digest::Proposer(x), Digest::Proposer(y)) => {
                law_decimal_readable(x.0 as nat, u64::MAX as nat);
                law_decimal_readable(y.0 as nat, u64::MAX as nat);
                assert(a.skip(9) == decimal(x.0 as nat));
                assert(b.skip(9) == decimal(y.0 as nat));
            },
            (Digest::Committee(x), Digest::Committee(y)) => {
                law_decimal_readable(x.0 as nat, u64::MAX as nat);
                law_decimal_readable(y.0 as nat, u64::MAX as nat);
                assert(a.skip(10) == decimal(x.0 as nat));
                assert(b.skip(10) == decimal(y.0 as nat));
            },
            (Digest::Proposer(_), Digest::Committee(_)) => {
                assert(a[0] == 'p' && b[0] == 'c');
            },
            (Digest::Committee(_), Digest::Proposer(_)) => {
                assert(a[0] == 'c' && b[0] == 'p');
            },
        }
    }
}

/// Who proposes a block, and how the validators are dealt out, in terms of the generators: a number
/// below the number of validators, and a shuffled list of all their numbers.
pub proof fn law_choices_made(network: EthNetwork, slot: Slot, epoch: Epoch)
    ensures
        network.spec_proposer(slot).0 == chacha20_below(
            sha256(encode_utf8("proposer/"@ + decimal(slot.0 as nat))),
            network.num_validators,
            usize::BITS,
        ),
        network.spec_permutation(epoch) == chacha20_shuffled(
            sha256(encode_utf8("committee/"@ + decimal(epoch.0 as nat))),
            Seq::new(network.num_validators as nat, |i: int| i as usize),
        ),
{
    assert(numbers_below(network.num_validators) == Seq::new(
        network.num_validators as nat,
        |i: int| i as usize,
    ));
}

/// Where a position of the shuffled list attests: the positions go round the four slots of the
/// epoch, two at a time, one for each committee of a slot.
pub proof fn law_assigned(position: usize, epoch: Epoch)
    requires
        epoch.0 * 4 + 3 <= u64::MAX,
    ensures
        ({
            let (slot, cmid) = spec_assignment(position, epoch);
            &&& 4 * epoch.0 <= slot.0 < 4 * epoch.0 + 4
            &&& cmid.0 < 2
            &&& (position - (2 * (slot.0 - 4 * epoch.0) + cmid.0)) % 8 == 0
        }),
{
}

/// The slots, in nanoseconds: each takes twelve seconds, the first one starts when the chain does,
/// and what comes before that counts as the first one.
pub proof fn law_slot_bounds(network: EthNetwork, instant: i128)
    requires
        network.wf(),
        is_time(instant),
    ensures
        instant <= network.genesis_instant ==> network.spec_slot_of(instant).0 == 0,
        instant >= network.genesis_instant ==> 12_000_000_000 * network.spec_slot_of(instant).0
            <= instant - network.genesis_instant < 12_000_000_000 * (network.spec_slot_of(instant).0
            + 1),
{
    lemma_slot_fits(network, instant);
}

} // verus!
