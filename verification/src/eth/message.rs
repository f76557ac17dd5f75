//! The messages that nodes publish.
use crate::bytes::{
    be_bytes, copy_range, from_be_bytes, lemma_byte_ranges, lemma_bytes, lemma_bytes_len,
    lemma_from_bytes, push_be_bytes, read_be_bytes,
};
use crate::eth::{CommitteeId, GossipTopic, Slot, ValidatorId};
use rand::Rng;
use vstd::prelude::*;
use vstd::std_specs::convert::FromSpecImpl;

verus! {

/// How many bytes a block is padded with: 128 KB.
pub const BEACON_BLOCK_PADDING_SIZE: usize = 131072;

/// How many bytes an attestation is padded with.
pub const ATTESTATION_PADDING_SIZE: usize = 256;

/// A block.
#[derive(Clone, Copy, PartialEq, Eq, Structural, Debug)]
pub struct BeaconBlock {
    /// Who proposes it.
    pub proposer: ValidatorId,
    /// The slot that it is for.
    pub slot: Slot,
}

/// An attestation.
#[derive(Clone, Copy, PartialEq, Eq, Structural, Debug)]
pub struct Attestation {
    /// Who attests.
    pub attestor: ValidatorId,
    /// The slot that the attestation is for.
    pub slot: Slot,
    /// The committee of the attestor.
    pub cmid: CommitteeId,
    /// The slot of the block that is attested.
    pub block_slot: Slot,
}

/// What a message says.
#[derive(Clone, Copy, PartialEq, Eq, Structural, Debug)]
pub enum MessageHeader {
    BeaconBlock(BeaconBlock),
    Attestation(Attestation),
}

impl From<BeaconBlock> for MessageHeader {
    fn from(block: BeaconBlock) -> (r: MessageHeader)
        ensures
            r matches MessageHeader::BeaconBlock(said) && said == block,
    {
        MessageHeader::BeaconBlock(block)
    }
}

impl FromSpecImpl<BeaconBlock> for MessageHeader {
    open spec fn obeys_from_spec() -> bool {
        true
    }

    open spec fn from_spec(block: BeaconBlock) -> MessageHeader {
        MessageHeader::BeaconBlock(block)
    }
}

impl From<Attestation> for MessageHeader {
    fn from(attestation: Attestation) -> (r: MessageHeader)
        ensures
            r matches MessageHeader::Attestation(said) && said == attestation,
    {
        MessageHeader::Attestation(attestation)
    }
}

impl FromSpecImpl<Attestation> for MessageHeader {
    open spec fn obeys_from_spec() -> bool {
        true
    }

    open spec fn from_spec(attestation: Attestation) -> MessageHeader {
        MessageHeader::Attestation(attestation)
    }
}

impl MessageHeader {
    /// How many bytes the message is padded with.
    pub open spec fn spec_padding_size(self) -> usize {
        match self {
            MessageHeader::BeaconBlock(_) => BEACON_BLOCK_PADDING_SIZE,
            MessageHeader::Attestation(_) => ATTESTATION_PADDING_SIZE,
        }
    }

    /// How many bytes the message is padded with.
    #[verifier::when_used_as_spec(spec_padding_size)]
    pub fn padding_size(self) -> (r: usize)
        ensures
            r == self.spec_padding_size(),
    {
        match self {
            MessageHeader::BeaconBlock(_) => BEACON_BLOCK_PADDING_SIZE,
            MessageHeader::Attestation(_) => ATTESTATION_PADDING_SIZE,
        }
    }
}

/// Random bytes.
///
/// This is `Rng::fill` of `rand` on the generator of the thread. It is trusted to fill as many
/// bytes as there are. Which ones it fills in is chance.
#[verifier::external_body]
fn random_bytes(len: usize) -> (r: Vec<u8>)
    ensures
        r@.len() == len,
{
    let mut bytes = vec![0; len];
    rand::thread_rng().fill(bytes.as_mut_slice());
    bytes
}

/// The SHA-256 digest of `data`. This names what `ring` computes.
pub uninterp spec fn sha256(data: Seq<u8>) -> Seq<u8>;

/// The SHA-256 digest of `data`.
///
/// This is `digest` of `ring` with `SHA256`. It is trusted to be a function of the data alone. It
/// does not take more data than SHA-256 is defined for.
#[verifier::external_body]
pub(crate) fn digest(data: &[u8]) -> (r: [u8; 32])
    requires
        data@.len() <= 0x1fff_ffff_ffff_ffff,
    ensures
        r@ == sha256(data@),
{
    ring::digest::digest(&ring::digest::SHA256, data).as_ref().try_into().unwrap()
}

/// How a message is transmitted: the length of its header in eight bytes, the most significant
/// first, then the header and the padding.
pub open spec fn frame(header_bytes: Seq<u8>, padding: Seq<u8>) -> Seq<u8> {
    be_bytes(header_bytes.len(), 8) + header_bytes + padding
}

/// The length of the header that a frame starts with.
pub open spec fn frame_header_len(bytes: Seq<u8>) -> int {
    from_be_bytes(bytes.take(8)) as int
}

/// Whether `bytes` are long enough for the header that they claim to hold.
pub open spec fn is_frame(bytes: Seq<u8>) -> bool {
    bytes.len() >= 8 && frame_header_len(bytes) <= bytes.len() - 8
}

/// The header in a frame.
pub open spec fn frame_header(bytes: Seq<u8>) -> Seq<u8> {
    bytes.subrange(8, 8 + frame_header_len(bytes))
}

/// The padding in a frame.
pub open spec fn frame_padding(bytes: Seq<u8>) -> Seq<u8> {
    bytes.skip(8 + frame_header_len(bytes))
}

/// A message that was received, before its header was understood.
pub struct Received {
    /// The header.
    pub header_bytes: Vec<u8>,
    /// The padding.
    pub padding: Vec<u8>,
}

/// A message.
pub struct Message {
    /// What it says.
    pub header: MessageHeader,
    /// What makes it as long as a real one.
    pub padding: Vec<u8>,
}

impl Message {
    /// A message with random padding.
    pub fn new(header: MessageHeader) -> (r: Message)
        ensures
            r.header == header,
            r.padding@.len() == header.padding_size(),
            header is BeaconBlock ==> r.padding@.len() == 131072,
            header is Attestation ==> r.padding@.len() == 256,
    {
        let padding = random_bytes(header.padding_size());
        Message { header, padding }
    }

    /// What identifies the message whose header is serialized as `header_bytes`: the hash of what
    /// is transmitted.
    pub fn id(&self, header_bytes: &[u8]) -> (r: [u8; 32])
        requires
            8 + header_bytes@.len() + self.padding@.len() <= 0x1fff_ffff_ffff_ffff,
        ensures
            r@ == sha256(frame(header_bytes@, self.padding@)),
    {
        let encoded = self.encode(header_bytes);
        proof {
            lemma_bytes_len(header_bytes@.len(), 8);
        }
        digest(encoded.as_slice())
    }

    /// The topic that the message belongs to.
    pub open spec fn spec_topic(self) -> GossipTopic {
        match self.header {
            MessageHeader::BeaconBlock(_) => GossipTopic::BeaconBlock,
            MessageHeader::Attestation(attestation) => GossipTopic::Attestation(attestation.cmid),
        }
    }

    /// The topic that the message belongs to.
    pub fn topic(&self) -> (r: GossipTopic)
        ensures
            r == self.spec_topic(),
            self.header is BeaconBlock ==> r == GossipTopic::BeaconBlock,
            self.header matches MessageHeader::Attestation(attestation) ==> r
                == GossipTopic::Attestation(attestation.cmid),
    {
        match self.header {
            MessageHeader::BeaconBlock(_) => GossipTopic::BeaconBlock,
            MessageHeader::Attestation(attestation) => GossipTopic::Attestation(attestation.cmid),
        }
    }

    /// The bytes in which the message whose header is serialized as `header_bytes` is transmitted.
    pub fn encode(&self, header_bytes: &[u8]) -> (r: Vec<u8>)
        ensures
            r@ == frame(header_bytes@, self.padding@),
            r@.len() == 8 + header_bytes@.len() + self.padding@.len(),
            from_be_bytes(r@.take(8)) == header_bytes@.len(),
            r@.skip(8) == header_bytes@ + self.padding@,
    {
        let mut result: Vec<u8> = Vec::new();
        // put the length of the header first, so that we will know how long it is
        push_be_bytes(&mut result, header_bytes.len() as u64, 8);
        // put the actual header
        result.extend_from_slice(header_bytes);
        // put the padding
        result.extend_from_slice(self.padding.as_slice());
        proof {
            law_frame_parts(header_bytes@, self.padding@);
            assert(result@ == frame(header_bytes@, self.padding@));
        }
        result
    }

    /// Whether `bytes` are long enough for the header that they claim to hold.
    pub fn is_decodable(bytes: &[u8]) -> (r: bool)
        ensures
            r == is_frame(bytes@),
            r <==> bytes@.len() >= 8 && 8 + from_be_bytes(bytes@.take(8)) <= bytes@.len(),
    {
        if bytes.len() < 8 {
            return false;
        }
        let header_len = read_be_bytes(vstd::slice::slice_subrange(bytes, 0, 8));
        assert(bytes@.subrange(0, 8) == bytes@.take(8));
        header_len <= (bytes.len() - 8) as u64
    }

    /// Takes a message that was received apart.
    pub fn decode(bytes: &[u8]) -> (r: Received)
        requires
            is_frame(bytes@),
        ensures
            r.header_bytes@ == frame_header(bytes@),
            r.padding@ == frame_padding(bytes@),
            r.header_bytes@.len() == from_be_bytes(bytes@.take(8)),
            r.header_bytes@ + r.padding@ == bytes@.skip(8),
    {
        // read the length of the header
        let header_len = read_be_bytes(vstd::slice::slice_subrange(bytes, 0, 8));
        assert(bytes@.subrange(0, 8) == bytes@.take(8));
        assert(header_len <= bytes.len() - 8);
        let end: usize = 8 + header_len as usize;
        assert(bytes@.subrange(8, end as int) + bytes@.subrange(end as int, bytes@.len() as int)
            == bytes@.skip(8));
        Received {
            header_bytes: copy_range(bytes, 8, end),
            padding: copy_range(bytes, end, bytes.len()),
        }
    }
}

/// What was encoded is decoded again.
pub proof fn law_decode_undoes_encode(header_bytes: Seq<u8>, padding: Seq<u8>)
    requires
        header_bytes.len() <= u64::MAX,
    ensures
        is_frame(frame(header_bytes, padding)),
        frame_header(frame(header_bytes, padding)) == header_bytes,
        frame_padding(frame(header_bytes, padding)) == padding,
{
    let bytes = frame(header_bytes, padding);
    lemma_byte_ranges();
    lemma_bytes(header_bytes.len(), 8);
    assert(bytes.take(8) == be_bytes(header_bytes.len(), 8));
}

/// What was decoded is encoded again in the same way.
pub proof fn law_encode_undoes_decode(bytes: Seq<u8>)
    requires
        is_frame(bytes),
    ensures
        frame(frame_header(bytes), frame_padding(bytes)) == bytes,
{
    lemma_from_bytes(bytes.take(8));
    assert(frame(frame_header(bytes), frame_padding(bytes)) == bytes);
}

/// A frame is the length of the header in eight bytes, the most significant first, then the header,
/// then the padding.
pub proof fn law_frame_parts(header_bytes: Seq<u8>, padding: Seq<u8>)
    requires
        header_bytes.len() <= u64::MAX,
    ensures
        ({
            let bytes = frame(header_bytes, padding);
            &&& bytes.len() == 8 + header_bytes.len() + padding.len()
            &&& from_be_bytes(bytes.take(8)) == header_bytes.len()
            &&& bytes.skip(8) == header_bytes + padding
        }),
{
    let bytes = frame(header_bytes, padding);
    lemma_byte_ranges();
    lemma_bytes(header_bytes.len(), 8);
    assert(bytes.take(8) == be_bytes(header_bytes.len(), 8));
    assert(bytes.skip(8) == header_bytes + padding);
}

/// What is a frame and what is in it, told by the bytes: the first eight of them say how many of
/// the others are the header, and the rest is the padding.
pub proof fn law_frame_read(bytes: Seq<u8>)
    ensures
        is_frame(bytes) <==> bytes.len() >= 8 && 8 + from_be_bytes(bytes.take(8)) <= bytes.len(),
        is_frame(bytes) ==> {
            &&& frame_header(bytes).len() == from_be_bytes(bytes.take(8))
            &&& frame_header(bytes) + frame_padding(bytes) == bytes.skip(8)
        },
{
    if is_frame(bytes) {
        assert(frame_header(bytes) + frame_padding(bytes) == bytes.skip(8));
    }
}

/// An attestation belongs to the topic of its committee, whoever attests and whatever the slots
/// are; a block belongs to the topic of blocks.
pub proof fn law_topic_of_message(message: Message, block: BeaconBlock, attestation: Attestation)
    ensures
        message.header == MessageHeader::BeaconBlock(block) ==> message.spec_topic()
            == GossipTopic::BeaconBlock,
        message.header == MessageHeader::Attestation(attestation) ==> (
        message.spec_topic() matches GossipTopic::Attestation(cmid) && cmid == attestation.cmid),
{
}

/// How long messages are padded: blocks with 128 KB, attestations with 256 bytes.
pub proof fn law_padding_sizes(block: BeaconBlock, attestation: Attestation)
    ensures
        MessageHeader::BeaconBlock(block).spec_padding_size() == 128 * 1024,
        MessageHeader::Attestation(attestation).spec_padding_size() == 256,
{
}

} // verus!
