use shadow_host::bytes::{push_be_bytes, read_be_bytes};
use shadow_host::eth::graph::{read_graph, split_lines, split_words, GraphError, PORT};
use shadow_host::eth::message::{Attestation, BeaconBlock, Message, MessageHeader};
use shadow_host::eth::network::{assignment, Digest, EthNetwork};
use shadow_host::eth::node::{EthNode, NodeAction, NodeEvent};
use shadow_host::eth::{CommitteeId, Epoch, GossipTopic, Slot, ValidatorId};
use shadow_host::text::parse_usize;

const SECOND: i128 = 1_000_000_000;
const GENESIS: i128 = 946_684_860 * SECOND;

fn network(num_validators: usize) -> EthNetwork {
    // the clock that does not jump shows the time since the start of the chain
    EthNetwork::new(num_validators, GENESIS, 0)
}

fn block(proposer: usize, slot: u64) -> BeaconBlock {
    BeaconBlock { proposer: ValidatorId(proposer), slot: Slot(slot) }
}

fn hex(bytes: &[u8]) -> String {
    bytes.iter().map(|byte| format!("{:02x}", byte)).collect()
}

#[test]
fn numbers_convert_both_ways() {
    assert_eq!(usize::from(ValidatorId::from(3)), 3);
    assert_eq!(usize::from(CommitteeId::from(4)), 4);
    assert_eq!(u64::from(Slot::from(5)), 5);
    assert_eq!(u64::from(Epoch::from(6)), 6);
    assert_eq!(Epoch::from(Slot(0)), Epoch(0));
    assert_eq!(Epoch::from(Slot(3)), Epoch(0));
    assert_eq!(Epoch::from(Slot(4)), Epoch(1));
    assert_eq!(Epoch::from(Slot(u64::MAX)), Epoch(u64::MAX / 4));
    assert_eq!(ValidatorId(0).text(), "0");
    assert_eq!(CommitteeId(10).text(), "10");
    assert_eq!(Slot(u64::MAX).text(), "18446744073709551615");
    assert_eq!(Epoch(907).text(), "907");
}

#[test]
fn topics_have_names() {
    assert_eq!(GossipTopic::BeaconBlock.name(), "beacon_block");
    assert_eq!(
        GossipTopic::Attestation(CommitteeId(12)).name(),
        "beacon_attestation_12"
    );
    assert_eq!(String::from(GossipTopic::BeaconBlock), "beacon_block");
    assert_eq!(
        EthNode::topics(),
        vec![
            GossipTopic::BeaconBlock,
            GossipTopic::Attestation(CommitteeId(0)),
            GossipTopic::Attestation(CommitteeId(1)),
        ]
    );
}

#[test]
fn messages_are_padded() {
    let message = Message::new(MessageHeader::from(block(1, 2)));
    assert_eq!(message.header, MessageHeader::BeaconBlock(block(1, 2)));
    assert_eq!(message.padding.len(), 128 << 10);
    assert_eq!(message.topic(), GossipTopic::BeaconBlock);
    let attestation = Attestation {
        attestor: ValidatorId(3),
        slot: Slot(4),
        cmid: CommitteeId(1),
        block_slot: Slot(2),
    };
    let message = Message::new(MessageHeader::from(attestation));
    assert_eq!(message.padding.len(), 256);
    assert_eq!(message.topic(), GossipTopic::Attestation(CommitteeId(1)));
    // the padding is random
    assert_ne!(message.padding, vec![0; 256]);
}

#[test]
fn decoding_undoes_encoding() {
    let message = Message {
        header: MessageHeader::from(block(0, 0)),
        padding: vec![7, 8, 9],
    };
    let encoded = message.encode(b"head");
    assert_eq!(encoded, b"\0\0\0\0\0\0\0\x04head\x07\x08\x09");
    assert!(Message::is_decodable(&encoded));
    let received = Message::decode(&encoded);
    assert_eq!(received.header_bytes, b"head");
    assert_eq!(received.padding, vec![7, 8, 9]);
    assert!(Message::is_decodable(&[0; 8]));
    assert!(!Message::is_decodable(&[0; 7]));
    assert!(!Message::is_decodable(b"\0\0\0\0\0\0\0\x05head"));
    assert!(!Message::is_decodable(&[0xff; 20]));
}

#[test]
fn message_is_identified_by_its_hash() {
    let message = Message {
        header: MessageHeader::from(block(0, 0)),
        padding: vec![7, 8, 9],
    };
    assert_eq!(
        hex(&message.id(b"head")),
        "356e99020c3518cbbcfc0b0787b8e7f5a3d53a00499aa47f984fe969f32ce44b"
    );
    let other = Message {
        header: message.header,
        padding: vec![7, 8],
    };
    assert_ne!(other.id(b"head"), message.id(b"head"));
}

#[test]
fn numbers_are_framed_with_the_most_significant_byte_first() {
    let mut bytes = vec![9];
    push_be_bytes(&mut bytes, 0x0102_0304_0506_0708, 8);
    assert_eq!(bytes, vec![9, 1, 2, 3, 4, 5, 6, 7, 8]);
    assert_eq!(read_be_bytes(&bytes[1..]), 0x0102_0304_0506_0708);
    assert_eq!(read_be_bytes(&[0xff; 8]), u64::MAX);
}

#[test]
fn seeds_are_hashes() {
    assert_eq!(Digest::Proposer(Slot(0)).prehash(), "proposer/0");
    assert_eq!(Digest::Committee(Epoch(7)).prehash(), "committee/7");
    assert_eq!(
        hex(&<[u8; 32]>::from(Digest::Proposer(Slot(0)))),
        "8704df2a3f4e240e63058015abf79db56b18f64c597c6c4ce9fbd22d9ed6d910"
    );
    assert_eq!(
        hex(&<[u8; 32]>::from(Digest::Committee(Epoch(7)))),
        "d4aea1c438da368a9750072ba3bc6c622cf810bb4b349ffb7ccd16e11f187253"
    );
}

#[test]
fn proposers_are_chosen_by_slot() {
    let network = network(10);
    let chosen: Vec<usize> = (0..12).map(|slot| network.proposer(Slot(slot)).0).collect();
    assert_eq!(chosen, vec![1, 6, 4, 1, 1, 9, 7, 4, 8, 3, 2, 0]);
}

#[test]
fn committees_are_shuffled_by_epoch() {
    let network = network(10);
    let expected = [
        [(0, 0), (0, 0), (0, 1), (2, 0), (2, 1), (0, 1), (3, 1), (1, 1), (1, 0), (3, 0)],
        [(4, 0), (7, 1), (7, 0), (4, 1), (6, 1), (4, 0), (4, 1), (5, 0), (5, 1), (6, 0)],
    ];
    for epoch in 0..2 {
        for vid in 0..10 {
            let (slot, cmid) = network.committee(ValidatorId(vid), Epoch(epoch));
            assert_eq!((slot.0, cmid.0), expected[epoch as usize][vid]);
            assert_eq!(Epoch::from(slot), Epoch(epoch));
        }
    }
}

#[test]
fn committees_are_balanced() {
    let network = network(21);
    let mut sizes = [0; 8];
    for vid in 0..21 {
        let (slot, cmid) = network.committee(ValidatorId(vid), Epoch(3));
        assert!((12..16).contains(&slot.0));
        sizes[(slot.0 - 12) as usize * 2 + cmid.0] += 1;
    }
    assert_eq!(sizes, [3, 3, 3, 3, 3, 2, 2, 2]);
}

#[test]
fn positions_are_dealt_out() {
    let dealt: Vec<(u64, usize)> = (0..9)
        .map(|position| assignment(position, Epoch(5)))
        .map(|(slot, cmid)| (slot.0, cmid.0))
        .collect();
    assert_eq!(
        dealt,
        vec![(20, 0), (20, 1), (21, 0), (21, 1), (22, 0), (22, 1), (23, 0), (23, 1), (20, 0)]
    );
}

#[test]
fn slots_take_twelve_seconds() {
    let network = network(1);
    assert_eq!(network.genesis_instant(), 0);
    assert_eq!(network.slot_of(-5), Slot(0));
    assert_eq!(network.slot_of(0), Slot(0));
    assert_eq!(network.slot_of(12 * SECOND - 1), Slot(0));
    assert_eq!(network.slot_of(12 * SECOND), Slot(1));
    assert_eq!(network.current_slot(1000 * SECOND), Slot(83));
}

#[test]
fn genesis_is_found_on_the_other_clock() {
    // the chain started an hour ago
    let late = EthNetwork::new(1, GENESIS + 3600 * SECOND, 100 * SECOND);
    assert_eq!(late.genesis_instant(), -3500 * SECOND);
    assert_eq!(late.current_slot(100 * SECOND), Slot(300));
    // the chain starts in a minute
    let early = EthNetwork::new(1, GENESIS - 60 * SECOND, 100 * SECOND);
    assert_eq!(early.genesis_instant(), 160 * SECOND);
}

#[test]
fn node_proposes_in_its_slots() {
    let mut node = EthNode::new(ValidatorId(6), network(10));
    assert_eq!(node.propose_start(), 0);
    assert!(node.propose(0).is_none());
    assert_eq!(node.latest_received_block, None);
    let (message, older) = node.propose(12 * SECOND).unwrap();
    assert_eq!(message.header, MessageHeader::BeaconBlock(block(6, 1)));
    assert!(!older);
    assert_eq!(node.latest_received_block, Some(block(6, 1)));
    assert!(node.propose(24 * SECOND).is_none());
    assert!(node.propose_as(Slot(9), ValidatorId(6)).is_some());
    assert!(node.propose_as(Slot(9), ValidatorId(7)).is_none());
}

#[test]
fn node_outside_the_network_proposes_nothing() {
    let mut node = EthNode::new(ValidatorId(10), network(10));
    for slot in 0..40 {
        assert!(node.propose(slot * 12 * SECOND).is_none());
    }
    assert_eq!(node.latest_received_block, None);
}

#[test]
fn node_tells_that_its_own_block_is_older() {
    let mut node = EthNode::new(ValidatorId(6), network(10));
    assert!(!node.on_block(&block(3, 5)));
    let (_, older) = node.propose(12 * SECOND).unwrap();
    assert!(older);
    assert_eq!(node.latest_received_block, Some(block(6, 1)));
    let (_, older) = node.propose_as(Slot(1), ValidatorId(6)).unwrap();
    assert!(!older);
}

#[test]
fn node_attests_the_latest_block_in_its_slot() {
    // validator 7 attests in slot 1 as a member of committee 1
    let mut node = EthNode::new(ValidatorId(7), network(10));
    assert_eq!(node.attest_start(), 4 * SECOND);
    assert!(node.attest(16 * SECOND).is_none());
    assert!(!node.on_block(&block(6, 1)));
    assert!(node.attest(4 * SECOND).is_none());
    let message = node.attest(16 * SECOND).unwrap();
    assert_eq!(
        message.header,
        MessageHeader::Attestation(Attestation {
            attestor: ValidatorId(7),
            slot: Slot(1),
            cmid: CommitteeId(1),
            block_slot: Slot(1),
        })
    );
    assert!(node.attest(28 * SECOND).is_none());
    assert!(node.attest_as(Slot(3), Slot(3), CommitteeId(0)).is_some());
    assert!(node.attest_as(Slot(3), Slot(2), CommitteeId(0)).is_none());
}

#[test]
fn older_block_is_noticed_and_kept() {
    let mut node = EthNode::new(ValidatorId(0), network(10));
    assert!(!node.on_block(&block(1, 5)));
    assert!(!node.on_block(&block(2, 5)));
    assert!(node.on_block(&block(3, 4)));
    assert_eq!(node.latest_received_block, Some(block(3, 4)));
}

#[test]
fn node_reacts_to_events() {
    let mut node = EthNode::new(ValidatorId(0), network(10));
    let message = Message {
        header: MessageHeader::from(block(0, 0)),
        padding: vec![1],
    };
    let header_bytes = b"x".to_vec();
    match node.run(NodeEvent::Publish { message, header_bytes }) {
        NodeAction::Publish { topic, data } => {
            assert_eq!(topic, GossipTopic::BeaconBlock);
            assert_eq!(data, b"\0\0\0\0\0\0\0\x01x\x01");
        }
        _ => panic!("nothing was published"),
    }
    assert_eq!(node.latest_received_block, None);
    let gossip = |slot: u64| NodeEvent::Gossip { header: MessageHeader::from(block(2, slot)) };
    assert!(matches!(
        node.run(gossip(8)),
        NodeAction::ReportBlock { older: false, .. }
    ));
    assert!(matches!(
        node.run(gossip(7)),
        NodeAction::ReportBlock { older: true, .. }
    ));
    assert_eq!(node.latest_received_block, Some(block(2, 7)));
    let attestation = MessageHeader::from(Attestation {
        attestor: ValidatorId(3),
        slot: Slot(9),
        cmid: CommitteeId(1),
        block_slot: Slot(9),
    });
    assert!(matches!(
        node.run(NodeEvent::Gossip { header: attestation }),
        NodeAction::Ignore
    ));
    assert!(matches!(
        node.run(NodeEvent::NewListenAddr),
        NodeAction::ReportListening
    ));
    assert!(matches!(
        node.run(NodeEvent::ConnectionEstablished { is_dialer: true }),
        NodeAction::ReportConnection { outgoing: true }
    ));
    assert!(matches!(node.run(NodeEvent::Other), NodeAction::Ignore));
}

const GRAPH: &[u8] = b"0 9 5 7 8 4 1
1 7 5 9
2 3 8 6 4
3 7 4
4 5 8 7
5
6
7 9
8 9
9
";

fn addresses(content: &[u8], node_id: usize) -> Result<Vec<u32>, GraphError> {
    read_graph(content, ValidatorId(node_id)).map(|found| found.addresses)
}

#[test]
fn graph_file_is_read() {
    assert_eq!(PORT, 9000);
    let base = u32::from_be_bytes([1, 0, 0, 1]);
    let peers = |ids: &[u32]| Ok(ids.iter().map(|id| base + id).collect());
    assert_eq!(addresses(GRAPH, 0), peers(&[9, 5, 7, 8, 4, 1]));
    assert_eq!(addresses(GRAPH, 1), peers(&[7, 5, 9]));
    assert_eq!(addresses(GRAPH, 5), peers(&[]));
    assert_eq!(addresses(GRAPH, 9), peers(&[]));
    assert_eq!(addresses(GRAPH, 10), Err(GraphError::NodeIdTooHigh));
    match read_graph(GRAPH, ValidatorId(3)) {
        Ok(found) => assert_eq!(found.num_validators, 10),
        Err(_) => panic!("the graph was refused"),
    }
    // only the last 32 bits of a number make up the address
    assert_eq!(addresses(b"4294967297", 0), peers(&[1]));
}

#[test]
fn bad_graphs_are_refused() {
    assert_eq!(addresses(b"", 0), Err(GraphError::NodeIdTooHigh));
    assert_eq!(addresses(b"\n", 0), Err(GraphError::NonNumericPeerId));
    assert_eq!(addresses(b"0 x", 0), Err(GraphError::NonNumericPeerId));
    assert_eq!(addresses(b"0  1", 0), Err(GraphError::NonNumericPeerId));
    assert_eq!(addresses(b"0 1 ", 0), Err(GraphError::NonNumericPeerId));
    assert_eq!(addresses(b"0 -1", 0), Err(GraphError::NonNumericPeerId));
    assert_eq!(addresses(b"4294967295", 0), Err(GraphError::NoAddress));
    assert_eq!(addresses(b"4278190078", 0), Ok(vec![u32::MAX]));
}

#[test]
fn lines_and_words_are_split() {
    for text in ["", "a", "a\n", "a\n\n", "\r\n", "a\r\nb\r", "\n\nx\ry\n", "a\r\r\n"] {
        let expected: Vec<&[u8]> = text.lines().map(|line| line.as_bytes()).collect();
        assert_eq!(split_lines(text.as_bytes()), expected);
    }
    for text in ["", "a", " ", "a b", " a  b "] {
        let expected: Vec<&[u8]> = text.split(' ').map(|word| word.as_bytes()).collect();
        assert_eq!(split_words(text.as_bytes()), expected);
    }
}

#[test]
fn decimal_numbers_are_read() {
    let max = format!("{}", usize::MAX);
    let over = format!("{}0", usize::MAX);
    let texts = [
        "", "+", "-", "0", "+7", "007", "12a", " 1", "1 ", "-1", "++1", &max, &over,
        "18446744073709551615", "18446744073709551616", "18446744073709551620",
    ];
    for text in texts {
        assert_eq!(parse_usize(text.as_bytes()), text.parse::<usize>().ok());
    }
    for n in [0, 9, 10, 12_345, u64::MAX] {
        assert_eq!(Slot(n).text(), format!("{}", n));
        assert_eq!(parse_usize(Slot(n).text().as_bytes()), Some(n as usize));
    }
}
