//! A node of the network.
use crate::eth::message::{frame, Attestation, BeaconBlock, Message, MessageHeader};
use crate::eth::network::{
    is_time, lemma_slot_fits, spec_assignment, EthNetwork, NANOS_PER_SECOND,
};
use crate::eth::{
    epoch_of, CommitteeId, Epoch, GossipTopic, Slot, ValidatorId, MAX_COMMITTEES_PER_SLOT,
    SECONDS_PER_SLOT,
};
use vstd::prelude::*;

verus! {

/// Represent a specific node in the network.
#[derive(Clone, Copy, PartialEq, Eq, Structural, Debug)]
pub struct EthNode {
    /// The validator that runs on the node.
    pub vid: ValidatorId,
    /// The network.
    pub network: EthNetwork,
    /// The last block that was received or proposed.
    pub latest_received_block: Option<BeaconBlock>,
}

/// Something that happens to a node.
pub enum NodeEvent {
    /// A message is ready to be published, and its header is serialized as `header_bytes`.
    Publish { message: Message, header_bytes: Vec<u8> },
    /// A message with this header was received.
    Gossip { header: MessageHeader },
    /// The node listens on an address.
    NewListenAddr,
    /// A connection was established, by this node if `is_dialer`.
    ConnectionEstablished { is_dialer: bool },
    /// Anything else.
    Other,
}

/// What a node has to do about an event.
pub enum NodeAction {
    /// Publish the data under the topic.
    Publish { topic: GossipTopic, data: Vec<u8> },
    /// Tell that a block was received, and whether it is older than the one before.
    ReportBlock { block: BeaconBlock, older: bool },
    /// Tell that the node listens.
    ReportListening,
    /// Tell that there is a connection, and by whom it was established.
    ReportConnection { outgoing: bool },
    /// Nothing.
    Ignore,
}

impl EthNode {
    /// The node takes part in its network, and times can be computed with.
    pub open spec fn wf(self) -> bool {
        self.network.wf() && self.vid.0 < self.network.num_validators
    }

    /// Whether a block is older than the latest one.
    pub open spec fn is_older(self, block: BeaconBlock) -> bool {
        self.latest_received_block matches Some(latest) && block.slot.0 < latest.slot.0
    }

    /// A node that has not received a block.
    pub fn new(vid: ValidatorId, network: EthNetwork) -> (r: EthNode)
        ensures
            r == (EthNode { vid, network, latest_received_block: None }),
    {
        EthNode { vid, network, latest_received_block: None }
    }

    /// When the node first looks whether it has to propose a block: when the chain starts. It looks
    /// again after every slot.
    pub fn propose_start(&self) -> (r: i128)
        ensures
            r == self.network.genesis_instant,
    {
        self.network.genesis_instant()
    }

    /// When the node first looks whether it has to attest: after a third of the first slot. It
    /// looks again after every slot.
    pub fn attest_start(&self) -> (r: i128)
        requires
            self.network.wf(),
        ensures
            3 * (r - self.network.genesis_instant) == SECONDS_PER_SLOT * NANOS_PER_SECOND,
            r - self.network.genesis_instant == 4_000_000_000,
    {
        let slot_duration: i128 = 12_000_000_000;
        self.network.genesis_instant() + slot_duration / 3
    }

    /// Proposes a block for `slot` if `proposer_id`, who is to propose it, is this node. Along with
    /// the message comes whether the block is older than the latest one.
    pub fn propose_as(&mut self, slot: Slot, proposer_id: ValidatorId) -> (r: Option<
        (Message, bool),
    >)
        ensures
            proposer_id != old(self).vid ==> r is None && *final(self) == *old(self),
            proposer_id == old(self).vid ==> {
                let block = BeaconBlock { proposer: proposer_id, slot };
                &&& r matches Some((message, older)) && message.header
                    == MessageHeader::BeaconBlock(block) && message.padding@.len()
                    == message.header.padding_size() && older == old(self).is_older(block)
                &&& *final(self) == (EthNode { latest_received_block: Some(block), ..*old(self) })
            },
    {
        // if it's itself, publish a block
        if proposer_id == self.vid {
            let block = BeaconBlock { proposer: proposer_id, slot };
            let older = self.on_block(&block);
            Some((Message::new(MessageHeader::from(block)), older))
        } else {
            None
        }
    }

    /// Proposes a block if the node has to at the time `now`. Along with the message comes whether
    /// the block is older than the latest one.
    pub fn propose(&mut self, now: i128) -> (r: Option<(Message, bool)>)
        requires
            old(self).network.wf(),
            old(self).network.num_validators > 0,
            is_time(now),
        ensures
            ({
                let slot = old(self).network.spec_slot_of(now);
                let block = BeaconBlock { proposer: old(self).vid, slot };
                if old(self).network.spec_proposer(slot) == old(self).vid {
                    &&& r matches Some((message, older)) && message.header
                        == MessageHeader::BeaconBlock(block) && message.padding@.len()
                        == message.header.padding_size() && older == old(self).is_older(block)
                    &&& *final(self) == (EthNode {
                        latest_received_block: Some(block),
                        ..*old(self)
                    })
                } else {
                    r is None && *final(self) == *old(self)
                }
            }),
    {
        let slot = self.network.current_slot(now);
        // figure out who is the next proposer
        let proposer_id = self.network.proposer(slot);
        self.propose_as(slot, proposer_id)
    }

    /// Attests the latest block if `slot`, the one in which the node has to attest as a member of
    /// the committee `cmid`, is the current one.
    pub fn attest_as(&self, current_slot: Slot, slot: Slot, cmid: CommitteeId) -> (r: Option<
        Message,
    >)
        ensures
            match self.latest_received_block {
                Some(latest) if slot == current_slot => r matches Some(message) && message.header
                    == MessageHeader::Attestation(
                    Attestation { attestor: self.vid, slot, cmid, block_slot: latest.slot },
                ) && message.padding@.len() == message.header.padding_size(),
                _ => r is None,
            },
    {
        if slot == current_slot {
            let latest_block = match self.latest_received_block {
                Some(block) => block,
                None => {
                    return None;
                },
            };
            let attestation = Attestation {
                attestor: self.vid,
                slot,
                cmid,
                block_slot: latest_block.slot,
            };
            Some(Message::new(MessageHeader::from(attestation)))
        } else {
            None
        }
    }

    /// Attests the latest block if the node has to at the time `now`.
    pub fn attest(&self, now: i128) -> (r: Option<Message>)
        requires
            self.wf(),
            is_time(now),
        ensures
            ({
                let current_slot = self.network.spec_slot_of(now);
                let epoch = epoch_of(current_slot);
                let (slot, cmid) = spec_assignment(
                    self.network.spec_permutation(epoch)[self.vid.0 as int],
                    epoch,
                );
                match self.latest_received_block {
                    Some(latest) if slot == current_slot => r matches Some(message)
                        && message.header == MessageHeader::Attestation(
                        Attestation { attestor: self.vid, slot, cmid, block_slot: latest.slot },
                    ) && message.padding@.len() == message.header.padding_size(),
                    _ => r is None,
                }
            }),
    {
        let current_slot = self.network.current_slot(now);
        proof {
            lemma_slot_fits(self.network, now);
        }
        // figure out if the node is supposed to publish an attestation in this slot
        let (slot, cmid) = self.network.committee(self.vid, Epoch::from(current_slot));
        self.attest_as(current_slot, slot, cmid)
    }

    /// Takes note of a block. Returns whether it is older than the latest one, which it replaces
    /// all the same.
    pub fn on_block(&mut self, block: &BeaconBlock) -> (r: bool)
        ensures
            r == old(self).is_older(*block),
            r <==> (old(self).latest_received_block matches Some(latest) && block.slot.0
                < latest.slot.0),
            *final(self) == (EthNode { latest_received_block: Some(*block), ..*old(self) }),
    {
        // check if the received block is not older than the latest received block
        let older = match self.latest_received_block {
            Some(latest_block) => block.slot.0 < latest_block.slot.0,
            None => false,
        };
        self.latest_received_block = Some(*block);
        older
    }

    /// The topics that a node joins: blocks, and, since there is no peer discovery yet, the
    /// attestations of all committees.
    pub fn topics() -> (r: Vec<GossipTopic>)
        ensures
            r@ == seq![GossipTopic::BeaconBlock] + Seq::new(
                MAX_COMMITTEES_PER_SLOT as nat,
                |i: int| GossipTopic::Attestation(CommitteeId(i as usize)),
            ),
            r@.len() == 3,
            r@[0] == GossipTopic::BeaconBlock,
            r@[1] == GossipTopic::Attestation(CommitteeId(0)),
            r@[2] == GossipTopic::Attestation(CommitteeId(1)),
    {
        let mut topics: Vec<GossipTopic> = Vec::new();
        topics.push(GossipTopic::BeaconBlock);
        let mut cmid: usize = 0;
        while cmid < MAX_COMMITTEES_PER_SLOT
            invariant
                cmid <= MAX_COMMITTEES_PER_SLOT,
                topics@ == seq![GossipTopic::BeaconBlock] + Seq::new(
                    cmid as nat,
                    |i: int| GossipTopic::Attestation(CommitteeId(i as usize)),
                ),
            decreases MAX_COMMITTEES_PER_SLOT - cmid,
        {
            topics.push(GossipTopic::Attestation(CommitteeId::from(cmid)));
            cmid += 1;
        }
        topics
    }

    /// What to do about an event.
    pub fn run(&mut self, event: NodeEvent) -> (r: NodeAction)
        ensures
            match event {
                NodeEvent::Publish { message, header_bytes } => {
                    &&& r matches NodeAction::Publish { topic, data } && data@ == frame(
                        header_bytes@,
                        message.padding@,
                    ) && topic == message.spec_topic() && (message.header is BeaconBlock ==> topic
                        == GossipTopic::BeaconBlock) && (
                    message.header matches MessageHeader::Attestation(attestation) ==> topic
                        == GossipTopic::Attestation(attestation.cmid))
                    &&& *final(self) == *old(self)
                },
                NodeEvent::Gossip { header: MessageHeader::BeaconBlock(block) } => {
                    &&& r == (NodeAction::ReportBlock { block, older: old(self).is_older(block) })
                    &&& *final(self) == (EthNode {
                        latest_received_block: Some(block),
                        ..*old(self)
                    })
                },
                NodeEvent::NewListenAddr => r is ReportListening && *final(self) == *old(self),
                NodeEvent::ConnectionEstablished { is_dialer } => r == (
                NodeAction::ReportConnection { outgoing: is_dialer }) && *final(self) == *old(self),
                _ => r is Ignore && *final(self) == *old(self),
            },
    {
        match event {
            NodeEvent::Publish { message, header_bytes } => NodeAction::Publish {
                topic: message.topic(),
                data: message.encode(header_bytes.as_slice()),
            },
            NodeEvent::Gossip { header } => match header {
                MessageHeader::BeaconBlock(block) => {
                    let older = self.on_block(&block);
                    NodeAction::ReportBlock { block, older }
                },
                _ => NodeAction::Ignore,
            },
            NodeEvent::NewListenAddr => NodeAction::ReportListening,
            NodeEvent::ConnectionEstablished { is_dialer } => NodeAction::ReportConnection {
                outgoing: is_dialer,
            },
            NodeEvent::Other => NodeAction::Ignore,
        }
    }
}

/// A block is older than the latest one exactly if its slot comes before that of the latest one.
/// Without a latest one nothing is older.
pub proof fn law_older_blocks(node: EthNode, block: BeaconBlock, latest: BeaconBlock)
    ensures
        node.latest_received_block is None ==> !node.is_older(block),
        node.latest_received_block == Some(latest) ==> (node.is_older(block) <==> block.slot.0
            < latest.slot.0),
{
}

} // verus!
