//! The beacon chain that the nodes of a publish-subscribe network simulate: who proposes a block
//! when, who attests when, and how messages are framed.
use crate::text::{decimal, law_decimal_readable, parsed, push_decimal};
use vstd::prelude::*;
use vstd::std_specs::convert::FromSpecImpl;

pub mod graph;
pub mod message;
pub mod network;
pub mod node;

verus! {

/// The number of slots per epoch.
pub const SLOTS_PER_EPOCH: u64 = 4;

/// The number of seconds per slot.
pub const SECONDS_PER_SLOT: u64 = 12;

/// The number of committees per slot.
pub const MAX_COMMITTEES_PER_SLOT: usize = 2;

/// When the chain starts, in seconds since the Unix epoch: Sat Jan 01 2000 00:01:00 GMT+0000.
pub const GENESIS_SECONDS_SINCE_UNIX_EPOCH: u64 = 946684860;

/// The number of a validator.
#[derive(Clone, Copy, PartialEq, Eq, PartialOrd, Ord, Structural, Debug)]
pub struct ValidatorId(pub usize);

/// The number of a committee within its slot.
#[derive(Clone, Copy, PartialEq, Eq, PartialOrd, Ord, Structural, Debug)]
pub struct CommitteeId(pub usize);

/// The number of a slot.
#[derive(Clone, Copy, PartialEq, Eq, PartialOrd, Ord, Structural, Debug)]
pub struct Slot(pub u64);

/// The number of an epoch.
#[derive(Clone, Copy, PartialEq, Eq, PartialOrd, Ord, Structural, Debug)]
pub struct Epoch(pub u64);

impl From<usize> for ValidatorId {
    fn from(v: usize) -> (r: ValidatorId)
        ensures
            r.0 == v,
    {
        ValidatorId(v)
    }
}

impl FromSpecImpl<usize> for ValidatorId {
    open spec fn obeys_from_spec() -> bool {
        true
    }

    open spec fn from_spec(v: usize) -> ValidatorId {
        ValidatorId(v)
    }
}

impl From<ValidatorId> for usize {
    fn from(v: ValidatorId) -> (r: usize)
        ensures
            r == v.0,
    {
        v.0
    }
}

impl FromSpecImpl<ValidatorId> for usize {
    open spec fn obeys_from_spec() -> bool {
        true
    }

    open spec fn from_spec(v: ValidatorId) -> usize {
        v.0
    }
}

impl From<usize> for CommitteeId {
    fn from(v: usize) -> (r: CommitteeId)
        ensures
            r.0 == v,
    {
        CommitteeId(v)
    }
}

impl FromSpecImpl<usize> for CommitteeId {
    open spec fn obeys_from_spec() -> bool {
        true
    }

    open spec fn from_spec(v: usize) -> CommitteeId {
        CommitteeId(v)
    }
}

impl From<CommitteeId> for usize {
    fn from(v: CommitteeId) -> (r: usize)
        ensures
            r == v.0,
    {
        v.0
    }
}

impl FromSpecImpl<CommitteeId> for usize {
    open spec fn obeys_from_spec() -> bool {
        true
    }

    open spec fn from_spec(v: CommitteeId) -> usize {
        v.0
    }
}

impl From<u64> for Slot {
    fn from(v: u64) -> (r: Slot)
        ensures
            r.0 == v,
    {
        Slot(v)
    }
}

impl FromSpecImpl<u64> for Slot {
    open spec fn obeys_from_spec() -> bool {
        true
    }

    open spec fn from_spec(v: u64) -> Slot {
        Slot(v)
    }
}

impl From<Slot> for u64 {
    fn from(v: Slot) -> (r: u64)
        ensures
            r == v.0,
    {
        v.0
    }
}

impl FromSpecImpl<Slot> for u64 {
    open spec fn obeys_from_spec() -> bool {
        true
    }

    open spec fn from_spec(v: Slot) -> u64 {
        v.0
    }
}

impl From<u64> for Epoch {
    fn from(v: u64) -> (r: Epoch)
        ensures
            r.0 == v,
    {
        Epoch(v)
    }
}

impl FromSpecImpl<u64> for Epoch {
    open spec fn obeys_from_spec() -> bool {
        true
    }

    open spec fn from_spec(v: u64) -> Epoch {
        Epoch(v)
    }
}

impl From<Epoch> for u64 {
    fn from(v: Epoch) -> (r: u64)
        ensures
            r == v.0,
    {
        v.0
    }
}

impl FromSpecImpl<Epoch> for u64 {
    open spec fn obeys_from_spec() -> bool {
        true
    }

    open spec fn from_spec(v: Epoch) -> u64 {
        v.0
    }
}

/// The epoch that a slot belongs to.
pub open spec fn epoch_of(slot: Slot) -> Epoch {
    Epoch(slot.0 / SLOTS_PER_EPOCH)
}

impl From<Slot> for Epoch {
    fn from(slot: Slot) -> (r: Epoch)
        ensures
            4 * r.0 <= slot.0 < 4 * r.0 + 4,
    {
        Epoch(slot.0 / SLOTS_PER_EPOCH)
    }
}

impl FromSpecImpl<Slot> for Epoch {
    open spec fn obeys_from_spec() -> bool {
        true
    }

    open spec fn from_spec(slot: Slot) -> Epoch {
        epoch_of(slot)
    }
}

impl ValidatorId {
    /// The number in decimal notation.
    pub fn text(&self) -> (r: String)
        ensures
            r@ == decimal(self.0 as nat),
    {
        let mut text = String::new();
        push_decimal(&mut text, self.0 as u64);
        text
    }
}

impl CommitteeId {
    /// The number in decimal notation.
    pub fn text(&self) -> (r: String)
        ensures
            r@ == decimal(self.0 as nat),
    {
        let mut text = String::new();
        push_decimal(&mut text, self.0 as u64);
        text
    }
}

impl Slot {
    /// The number in decimal notation.
    pub fn text(&self) -> (r: String)
        ensures
            r@ == decimal(self.0 as nat),
    {
        let mut text = String::new();
        push_decimal(&mut text, self.0);
        text
    }
}

impl Epoch {
    /// The number in decimal notation.
    pub fn text(&self) -> (r: String)
        ensures
            r@ == decimal(self.0 as nat),
    {
        let mut text = String::new();
        push_decimal(&mut text, self.0);
        text
    }
}

/// What a message is about.
#[derive(Clone, Copy, PartialEq, Eq, Structural, Debug)]
pub enum GossipTopic {
    /// Blocks.
    BeaconBlock,
    /// Attestations. Subnets are determined by the committee ids.
    Attestation(CommitteeId),
}

impl GossipTopic {
    /// The name of the topic.
    pub open spec fn spec_name(self) -> Seq<char> {
        match self {
            GossipTopic::BeaconBlock => "beacon_block"@,
            GossipTopic::Attestation(index) => "beacon_attestation_"@ + decimal(index.0 as nat),
        }
    }

    /// The name of the topic.
    pub fn name(&self) -> (r: String)
        ensures
            r@ == self.spec_name(),
            *self is BeaconBlock ==> r@ == "beacon_block"@,
            *self matches GossipTopic::Attestation(cmid) ==> r@ == "beacon_attestation_"@ + decimal(
                cmid.0 as nat,
            ),
    {
        let mut name = String::new();
        match self {
            GossipTopic::BeaconBlock => {
                name.push_str("beacon_block");
            },
            GossipTopic::Attestation(index) => {
                name.push_str("beacon_attestation_");
                push_decimal(&mut name, index.0 as u64);
            },
        }
        name
    }
}

impl From<GossipTopic> for String {
    fn from(topic: GossipTopic) -> (r: String)
        ensures
            r@ == topic.spec_name(),
    {
        topic.name()
    }
}

impl FromSpecImpl<GossipTopic> for String {
    open spec fn obeys_from_spec() -> bool {
        false
    }

    open spec fn from_spec(topic: GossipTopic) -> String {
        arbitrary()
    }
}

/// An epoch has four slots, which follow each other.
pub proof fn law_epoch_of_slot(slot: Slot)
    ensures
        4 * epoch_of(slot).0 <= slot.0 < 4 * epoch_of(slot).0 + 4,
{
}

/// What topics are called. The attestations of each committee have a topic of their own: no two
/// topics have the same name, and the number of the committee can be read off the end of the name.
pub proof fn law_topic_names(topic: GossipTopic, other: GossipTopic, cmid: CommitteeId)
    ensures
        GossipTopic::BeaconBlock.spec_name() == "beacon_block"@,
        GossipTopic::Attestation(cmid).spec_name().len() > 19,
        GossipTopic::Attestation(cmid).spec_name().take(19) == "beacon_attestation_"@,
        parsed(
            GossipTopic::Attestation(cmid).spec_name().skip(19).map_values(|c: char| c as u8),
            usize::MAX as nat,
        ) == Some(cmid.0 as nat),
        topic.spec_name() == other.spec_name() ==> topic == other,
{
    reveal_strlit("beacon_block");
    reveal_strlit("beacon_attestation_");
    lemma_attestation_name(cmid);
    match (topic, other) {
        (GossipTopic::Attestation(a), GossipTopic::Attestation(b)) => {
            lemma_attestation_name(a);
            lemma_attestation_name(b);
        },
        (GossipTopic::Attestation(a), GossipTopic::BeaconBlock) => lemma_attestation_name(a),
        (GossipTopic::BeaconBlock, GossipTopic::Attestation(b)) => lemma_attestation_name(b),
        _ => {},
    }
}

proof fn lemma_attestation_name(cmid: CommitteeId)
    ensures
        ({
            let name = GossipTopic::Attestation(cmid).spec_name();
            &&& name.len() > 19
            &&& name.take(19) == "beacon_attestation_"@
            &&& name.skip(19) == decimal(cmid.0 as nat)
            &&& parsed(name.skip(19).map_values(|c: char| c as u8), usize::MAX as nat) == Some(
                cmid.0 as nat,
            )
        }),
{
    reveal_strlit("beacon_attestation_");
    let name = GossipTopic::Attestation(cmid).spec_name();
    let number = decimal(cmid.0 as nat);
    law_decimal_readable(cmid.0 as nat, usize::MAX as nat);
    assert(number.len() > 0);
    assert(name.take(19) == "beacon_attestation_"@);
    assert(name.skip(19) == number);
}

} // verus!
