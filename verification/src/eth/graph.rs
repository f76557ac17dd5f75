//! The graph of the network: which node connects to which.
//!
//! A graph file has one line per node, which holds the numbers of the nodes that the node connects
//! to, separated by single spaces. The number of a node is that of its line, starting with 0.
use crate::bytes::copy_range;
use crate::eth::ValidatorId;
use crate::text::{parse_usize, parsed};
use vstd::prelude::*;
use vstd::seq_lib::lemma_seq_contains_after_push;

verus! {

/// The address of the node 0: 1.0.0.1.
pub const BASE_IP_ADDRESS: u32 = 0x0100_0001;

/// The port that every node listens on.
pub const PORT: u16 = 9000;

/// The position of the first `byte` in `bytes`, or their length if there is none.
pub open spec fn position_of(bytes: Seq<u8>, byte: u8) -> int
    decreases bytes.len(),
{
    if bytes.len() == 0 {
        0
    } else if bytes[0] == byte {
        0
    } else {
        1 + position_of(bytes.drop_first(), byte)
    }
}

/// A line without the carriage return that belongs to its end.
pub open spec fn without_cr(line: Seq<u8>) -> Seq<u8> {
    if line.len() > 0 && line.last() == 0x0d {
        line.drop_last()
    } else {
        line
    }
}

/// The lines of `content`. A line ends with a line feed, or with a carriage return and a line feed,
/// which are not part of it. The last line may do without.
pub open spec fn lines(content: Seq<u8>) -> Seq<Seq<u8>>
    decreases content.len(),
{
    let end = position_of(content, 0x0a);
    if content.len() == 0 {
        Seq::empty()
    } else if end < 0 || end >= content.len() {
        seq![content]
    } else {
        seq![without_cr(content.take(end))] + lines(content.skip(end + 1))
    }
}

/// The parts of `line` between its spaces.
pub open spec fn words(line: Seq<u8>) -> Seq<Seq<u8>>
    decreases line.len(),
{
    let end = position_of(line, 0x20);
    if end < 0 || end >= line.len() {
        seq![line]
    } else {
        seq![line.take(end)] + words(line.skip(end + 1))
    }
}

/// The numbers that `words` stand for, if all of them stand for one.
pub open spec fn numbers(words: Seq<Seq<u8>>) -> Option<Seq<nat>>
    decreases words.len(),
{
    if words.len() == 0 {
        Some(Seq::empty())
    } else {
        match (numbers(words.drop_last()), parsed(words.last(), usize::MAX as nat)) {
            (Some(earlier), Some(n)) => Some(earlier.push(n)),
            _ => None,
        }
    }
}

/// The numbers in `ids` other than `id`.
pub open spec fn others(ids: Seq<nat>, id: nat) -> Seq<nat>
    decreases ids.len(),
{
    if ids.len() == 0 {
        Seq::empty()
    } else if ids.last() == id {
        others(ids.drop_last(), id)
    } else {
        others(ids.drop_last(), id).push(ids.last())
    }
}

/// The position of the first `byte` in `bytes` from `from` on, or their length if there is none.
fn find(bytes: &[u8], from: usize, byte: u8) -> (r: usize)
    requires
        from <= bytes@.len(),
    ensures
        from <= r <= bytes@.len(),
        r == from + position_of(bytes@.skip(from as int), byte),
{
    let mut i: usize = from;
    while i < bytes.len()
        invariant
            from <= i <= bytes@.len(),
            position_of(bytes@.skip(from as int), byte) == i - from + position_of(
                bytes@.skip(i as int),
                byte,
            ),
        decreases bytes.len() - i,
    {
        assert(bytes@.skip(i as int).drop_first() == bytes@.skip(i + 1));
        if bytes[i] == byte {
            return i;
        }
        i += 1;
    }
    i
}

/// What the lines of a file hold.
pub open spec fn contents(lines: Seq<Vec<u8>>) -> Seq<Seq<u8>> {
    Seq::new(lines.len(), |i: int| lines[i]@)
}

/// The lines of `content`.
pub fn split_lines(content: &[u8]) -> (r: Vec<Vec<u8>>)
    ensures
        contents(r@) == lines(content@),
{
    let mut out: Vec<Vec<u8>> = Vec::new();
    let mut start: usize = 0;
    assert(content@.skip(0) == content@);
    assert(contents(out@) + lines(content@) == lines(content@));
    while start < content.len()
        invariant
            start <= content@.len(),
            contents(out@) + lines(content@.skip(start as int)) == lines(content@),
        decreases content.len() - start,
    {
        let ghost rest = content@.skip(start as int);
        let ghost before = contents(out@);
        let end = find(content, start, 0x0a);
        if end == content.len() {
            let line = copy_range(content, start, end);
            assert(line@ == rest);
            out.push(line);
            assert(contents(out@) == before.push(rest));
            assert(content@.skip(end as int) == Seq::<u8>::empty());
            assert(before.push(rest) + Seq::<Seq<u8>>::empty() == before + seq![rest]);
            start = end;
        } else {
            let mut line = copy_range(content, start, end);
            assert(line@ == rest.take(end - start));
            if line.len() > 0 && line[line.len() - 1] == 0x0d {
                let _ = line.pop();
            }
            assert(line@ == without_cr(rest.take(end - start)));
            out.push(line);
            assert(contents(out@) == before.push(line@));
            assert(rest.skip(end - start + 1) == content@.skip(end + 1));
            assert(before.push(line@) + lines(content@.skip(end + 1)) == before + (seq![line@]
                + lines(content@.skip(end + 1))));
            start = end + 1;
        }
    }
    assert(content@.skip(start as int) == Seq::<u8>::empty());
    assert(contents(out@) + Seq::<Seq<u8>>::empty() == contents(out@));
    out
}

/// The parts of `line` between its spaces.
pub fn split_words(line: &[u8]) -> (r: Vec<Vec<u8>>)
    ensures
        contents(r@) == words(line@),
{
    let mut out: Vec<Vec<u8>> = Vec::new();
    let mut start: usize = 0;
    let mut end: usize = find(line, 0, 0x20);
    assert(line@.skip(0) == line@);
    assert(contents(out@) + words(line@) == words(line@));
    while end < line.len()
        invariant
            start <= end <= line@.len(),
            end == start + position_of(line@.skip(start as int), 0x20),
            contents(out@) + words(line@.skip(start as int)) == words(line@),
        decreases line.len() - start,
    {
        let ghost rest = line@.skip(start as int);
        let ghost before = contents(out@);
        let word = copy_range(line, start, end);
        assert(word@ == rest.take(end - start));
        out.push(word);
        assert(contents(out@) == before.push(word@));
        assert(rest.skip(end - start + 1) == line@.skip(end + 1));
        assert(before.push(word@) + words(line@.skip(end + 1)) == before + (seq![word@] + words(
            line@.skip(end + 1),
        )));
        start = end + 1;
        end = find(line, start, 0x20);
    }
    let ghost rest = line@.skip(start as int);
    let ghost before = contents(out@);
    let word = copy_range(line, start, line.len());
    assert(word@ == rest);
    out.push(word);
    assert(contents(out@) == before.push(rest));
    assert(before + seq![rest] == before.push(rest));
    out
}

/// What the numbers in a list are.
pub open spec fn values(ids: Seq<usize>) -> Seq<nat> {
    Seq::new(ids.len(), |i: int| ids[i] as nat)
}

/// The numbers that `words` stand for, if all of them stand for one.
pub fn parse_numbers(words: &Vec<Vec<u8>>) -> (r: Option<Vec<usize>>)
    ensures
        match r {
            Some(ids) => numbers(contents(words@)) == Some(values(ids@)),
            None => numbers(contents(words@)) is None,
        },
{
    let ghost all = contents(words@);
    let mut ids: Vec<usize> = Vec::new();
    let mut i: usize = 0;
    assert(all.take(0) == Seq::<Seq<u8>>::empty());
    assert(values(ids@) == Seq::<nat>::empty());
    while i < words.len()
        invariant
            i <= words@.len(),
            all == contents(words@),
            numbers(all.take(i as int)) == Some(values(ids@)),
        decreases words.len() - i,
    {
        proof {
            assert(all.take(i + 1).drop_last() == all.take(i as int));
            assert(all.take(i + 1).last() == words@[i as int]@);
        }
        match parse_usize(words[i].as_slice()) {
            Some(n) => {
                let ghost before = values(ids@);
                ids.push(n);
                assert(values(ids@) == before.push(n as nat));
            },
            None => {
                proof {
                    lemma_numbers_prefix(all, i + 1);
                }
                return None;
            },
        }
        i += 1;
    }
    assert(all.take(i as int) == all);
    Some(ids)
}

/// Where some of the first words are no numbers, not all words are.
proof fn lemma_numbers_prefix(words: Seq<Seq<u8>>, i: int)
    requires
        0 <= i <= words.len(),
        numbers(words.take(i)) is None,
    ensures
        numbers(words) is None,
    decreases words.len(),
{
    if i < words.len() {
        assert(words.drop_last().take(i) == words.take(i));
        lemma_numbers_prefix(words.drop_last(), i);
    } else {
        assert(words.take(i) == words);
    }
}

/// Why a node cannot connect to its peers.
#[derive(Clone, Copy, PartialEq, Eq, Structural, Debug)]
pub enum GraphError {
    /// The graph has no line for the node.
    NodeIdTooHigh,
    /// A peer is not given by its number.
    NonNumericPeerId,
    /// A peer has no address.
    NoAddress,
}

/// The address of a node, which may be too large to be one. Only the last 32 bits of the number of
/// the node count.
pub open spec fn node_address(id: nat) -> nat {
    (BASE_IP_ADDRESS + id % 0x1_0000_0000) as nat
}

/// The addresses that a node connects to: those of the nodes on its line, but for itself.
pub open spec fn connections(content: Seq<u8>, node_id: nat) -> Result<Seq<nat>, GraphError> {
    let lines = lines(content);
    if node_id >= lines.len() {
        Err(GraphError::NodeIdTooHigh)
    } else {
        match numbers(words(lines[node_id as int])) {
            None => Err(GraphError::NonNumericPeerId),
            Some(ids) => {
                let addresses = others(ids, node_id).map_values(|id: nat| node_address(id));
                if forall|i: int| 0 <= i < addresses.len() ==> #[trigger] addresses[i] <= u32::MAX {
                    Ok(addresses)
                } else {
                    Err(GraphError::NoAddress)
                }
            },
        }
    }
}

/// What a node has to know of the graph.
pub struct Connections {
    /// The addresses that the node connects to.
    pub addresses: Vec<u32>,
    /// The number of nodes of the network.
    pub num_validators: usize,
}

/// What the addresses in a list are.
pub open spec fn address_values(addresses: Seq<u32>) -> Seq<nat> {
    Seq::new(addresses.len(), |i: int| addresses[i] as nat)
}

/// The addresses of the nodes in `ids` other than `node_id`.
fn peer_addresses(ids: &Vec<usize>, node_id: ValidatorId) -> (r: Option<Vec<u32>>)
    ensures
        ({
            let addresses = others(values(ids@), node_id.0 as nat).map_values(
                |id: nat| node_address(id),
            );
            match r {
                Some(found) => address_values(found@) == addresses,
                None => exists|i: int|
                    0 <= i < addresses.len() && #[trigger] addresses[i] > u32::MAX,
            }
        }),
{
    let ghost all = values(ids@);
    let ghost address = |id: nat| node_address(id);
    let mut addresses: Vec<u32> = Vec::new();
    let mut i: usize = 0;
    assert(all.take(0) == Seq::<nat>::empty());
    assert(address_values(addresses@) == others(all.take(0), node_id.0 as nat).map_values(address));
    while i < ids.len()
        invariant
            i <= ids@.len(),
            all == values(ids@),
            address == (|id: nat| node_address(id)),
            address_values(addresses@) == others(
                all.take(i as int),
                node_id.0 as nat,
            ).map_values(address),
        decreases ids.len() - i,
    {
        let peer_id = ValidatorId::from(ids[i]);
        let ghost before = others(all.take(i as int), node_id.0 as nat);
        proof {
            assert(all.take(i + 1).drop_last() == all.take(i as int));
            assert(all.take(i + 1).last() == ids@[i as int]);
        }
        // don't connect to itself
        if node_id != peer_id {
            let number: u64 = usize::from(peer_id) as u64 % 0x1_0000_0000;
            let ghost after = before.push(peer_id.0 as nat).map_values(address);
            assert(after == before.map_values(address).push(node_address(peer_id.0 as nat)));
            if number > (u32::MAX - BASE_IP_ADDRESS) as u64 {
                proof {
                    assert(others(all.take(i + 1), node_id.0 as nat) == before.push(
                        peer_id.0 as nat,
                    ));
                    lemma_others_prefix(all, i + 1, node_id.0 as nat);
                    let peers = others(all, node_id.0 as nat);
                    let at = before.len() as int;
                    assert(peers.take(at + 1)[at] == peer_id.0);
                    assert(peers[at] == peer_id.0);
                    assert(peers.map_values(address)[at] == node_address(peer_id.0 as nat));
                }
                return None;
            }
            let ghost old_values = address_values(addresses@);
            addresses.push(BASE_IP_ADDRESS + number as u32);
            assert(address_values(addresses@) == old_values.push(node_address(peer_id.0 as nat)));
        }
        i += 1;
    }
    assert(all.take(i as int) == all);
    Some(addresses)
}

/// The other numbers among the first ones are the first other numbers.
proof fn lemma_others_prefix(ids: Seq<nat>, i: int, id: nat)
    requires
        0 <= i <= ids.len(),
    ensures
        others(ids.take(i), id).len() <= others(ids, id).len(),
        others(ids, id).take(others(ids.take(i), id).len() as int) == others(ids.take(i), id),
    decreases ids.len(),
{
    if i < ids.len() {
        assert(ids.drop_last().take(i) == ids.take(i));
        lemma_others_prefix(ids.drop_last(), i, id);
        let earlier = others(ids.drop_last(), id);
        let len = others(ids.take(i), id).len() as int;
        assert(others(ids, id).take(len) == earlier.take(len));
    } else {
        assert(ids.take(i) == ids);
        assert(others(ids, id).take(others(ids, id).len() as int) == others(ids, id));
    }
}

/// What the node `node_id` has to know of the graph in `content`.
pub fn read_graph(content: &[u8], node_id: ValidatorId) -> (r: Result<Connections, GraphError>)
    ensures
        match connections(content@, node_id.0 as nat) {
            Ok(addresses) => r matches Ok(found) && address_values(found.addresses@) == addresses
                && found.num_validators == lines(content@).len(),
            Err(error) => r == Err::<Connections, GraphError>(error),
        },
{
    let all = split_lines(content);
    let num_validators = all.len();
    assert(contents(all@).len() == all@.len());
    // read the graph and connect to the nodes to which it's supposed to connect
    if node_id.0 >= num_validators {
        return Err(GraphError::NodeIdTooHigh);
    }
    assert(contents(all@)[node_id.0 as int] == all@[node_id.0 as int]@);
    // the ids of nodes to which it's supposed to connect
    let words = split_words(all[node_id.0].as_slice());
    let ids = match parse_numbers(&words) {
        Some(ids) => ids,
        None => {
            return Err(GraphError::NonNumericPeerId);
        },
    };
    match peer_addresses(&ids, node_id) {
        Some(addresses) => {
            proof {
                let found = address_values(addresses@);
                assert forall|i: int| 0 <= i < found.len() implies #[trigger] found[i]
                    <= u32::MAX by {}
            }
            Ok(Connections { addresses, num_validators })
        },
        None => Err(GraphError::NoAddress),
    }
}

/// A node connects to all the nodes on its line, and never to itself.
pub proof fn law_not_to_itself(ids: Seq<nat>, id: nat)
    ensures
        forall|peer: nat| #[trigger]
            others(ids, id).contains(peer) <==> ids.contains(peer) && peer != id,
    decreases ids.len(),
{
    if ids.len() > 0 {
        let earlier = ids.drop_last();
        let last = ids.last();
        law_not_to_itself(earlier, id);
        assert forall|peer: nat| #[trigger] others(ids, id).contains(peer) <==> ids.contains(peer)
            && peer != id by {
            assert(ids == earlier.push(last));
            lemma_seq_contains_after_push(earlier, last, peer);
            lemma_seq_contains_after_push(others(earlier, id), last, peer);
        }
    }
}

/// What ends at the first separator holds none.
pub proof fn law_ends_at_first(bytes: Seq<u8>, separator: u8)
    ensures
        0 <= position_of(bytes, separator) <= bytes.len(),
        forall|i: int| 0 <= i < position_of(bytes, separator) ==> #[trigger] bytes[i] != separator,
        position_of(bytes, separator) < bytes.len() ==> bytes[position_of(bytes, separator)]
            == separator,
    decreases bytes.len(),
{
    if bytes.len() > 0 && bytes[0] != separator {
        let rest = bytes.drop_first();
        law_ends_at_first(rest, separator);
        assert forall|i: int| 0 <= i < position_of(bytes, separator) implies #[trigger] bytes[i]
            != separator by {
            if i > 0 {
                assert(rest[i - 1] == bytes[i]);
            }
        }
        if position_of(bytes, separator) < bytes.len() {
            assert(rest[position_of(rest, separator)] == bytes[position_of(bytes, separator)]);
        }
    }
}

/// How a file is split into lines: what comes before the first line feed is the first line, without
/// a carriage return at its end, and the rest is split in the same way. What is behind the last
/// line feed is a line as it is, unless it is empty.
pub proof fn law_lines(line: Seq<u8>, rest: Seq<u8>)
    requires
        forall|i: int| 0 <= i < line.len() ==> #[trigger] line[i] != 0x0a,
    ensures
        lines(Seq::empty()) == Seq::<Seq<u8>>::empty(),
        line.len() > 0 ==> lines(line) == seq![line],
        line.len() == 0 || line.last() != 0x0d ==> lines(line + seq![0x0a] + rest) == seq![line]
            + lines(rest),
        line.len() > 0 && line.last() == 0x0d ==> lines(line + seq![0x0a] + rest)
            == seq![line.drop_last()] + lines(rest),
{
    let content = line + seq![0x0au8] + rest;
    lemma_position(line, rest, 0x0a);
    assert(content.take(line.len() as int) == line);
    assert(content.skip(line.len() as int + 1) == rest);
}

/// How a line is split into words: at each single space, also where nothing is between two of them.
pub proof fn law_words(word: Seq<u8>, rest: Seq<u8>)
    requires
        forall|i: int| 0 <= i < word.len() ==> #[trigger] word[i] != 0x20,
    ensures
        words(word) == seq![word],
        words(word + seq![0x20] + rest) == seq![word] + words(rest),
{
    let line = word + seq![0x20u8] + rest;
    lemma_position(word, rest, 0x20);
    assert(line.take(word.len() as int) == word);
    assert(line.skip(word.len() as int + 1) == rest);
}

/// A separator behind bytes that hold none is the first one.
proof fn lemma_position(part: Seq<u8>, rest: Seq<u8>, separator: u8)
    requires
        forall|i: int| 0 <= i < part.len() ==> #[trigger] part[i] != separator,
    ensures
        position_of(part, separator) == part.len(),
        position_of(part + seq![separator] + rest, separator) == part.len(),
    decreases part.len(),
{
    let all = part + seq![separator] + rest;
    if part.len() > 0 {
        let tail = part.drop_first();
        assert forall|i: int| 0 <= i < tail.len() implies #[trigger] tail[i] != separator by {
            assert(tail[i] == part[i + 1]);
        }
        lemma_position(tail, rest, separator);
        assert(all.drop_first() == tail + seq![separator] + rest);
        assert(all[0] == part[0]);
    } else {
        assert(all[0] == separator);
    }
}

/// Words are numbers exactly if each of them is one, and then each stands for its own number, in
/// their order.
pub proof fn law_numbers(words: Seq<Seq<u8>>)
    ensures
        numbers(words) is Some <==> forall|i: int|
            0 <= i < words.len() ==> parsed(#[trigger] words[i], usize::MAX as nat) is Some,
        numbers(words) matches Some(ids) ==> ids.len() == words.len() && forall|i: int|
            0 <= i < words.len() ==> parsed(#[trigger] words[i], usize::MAX as nat) == Some(ids[i]),
    decreases words.len(),
{
    if words.len() > 0 {
        let earlier = words.drop_last();
        let last = words.last();
        law_numbers(earlier);
        assert(words[words.len() - 1] == last);
        assert forall|i: int| 0 <= i < earlier.len() implies #[trigger] words[i]
            == earlier[i] by {}
        if numbers(words) is Some {
            let ids = numbers(words)->Some_0;
            assert forall|i: int| 0 <= i < words.len() implies parsed(
                #[trigger] words[i],
                usize::MAX as nat,
            ) == Some(ids[i]) by {
                if i < earlier.len() {
                    assert(words[i] == earlier[i]);
                }
            }
        }
        if forall|i: int|
            0 <= i < words.len() ==> parsed(#[trigger] words[i], usize::MAX as nat) is Some {
            assert forall|i: int| 0 <= i < earlier.len() implies parsed(
                #[trigger] earlier[i],
                usize::MAX as nat,
            ) is Some by {
                assert(earlier[i] == words[i]);
            }
        }
    }
}

/// Which nodes are left without the node itself: each of the others, as often as it is there, in
/// the same order.
pub proof fn law_others(ids: Seq<nat>, last: nat, id: nat)
    ensures
        others(Seq::empty(), id) == Seq::<nat>::empty(),
        others(ids.push(last), id) == if last == id {
            others(ids, id)
        } else {
            others(ids, id).push(last)
        },
{
    assert(ids.push(last).drop_last() == ids);
}

/// Whom a node connects to. Without a line of its own in the graph it does not exist; if its line
/// holds something that is no number, that is an error; and otherwise the address of each other
/// node on its line is 1.0.0.1 plus its number, in the order of the line.
pub proof fn law_connections(content: Seq<u8>, node_id: nat)
    ensures
        node_id >= lines(content).len() ==> connections(content, node_id) == Err::<
            Seq<nat>,
            GraphError,
        >(GraphError::NodeIdTooHigh),
        node_id < lines(content).len() ==> match numbers(words(lines(content)[node_id as int])) {
            None => connections(content, node_id) == Err::<Seq<nat>, GraphError>(
                GraphError::NonNumericPeerId,
            ),
            Some(ids) => match connections(content, node_id) {
                Ok(addresses) => addresses.len() == others(ids, node_id).len() && forall|i: int|
                    0 <= i < addresses.len() ==> #[trigger] addresses[i] == 0x0100_0001 + others(
                        ids,
                        node_id,
                    )[i] % 0x1_0000_0000 && addresses[i] <= u32::MAX,
                Err(error) => error is NoAddress && exists|i: int|
                    0 <= i < others(ids, node_id).len() && 0x0100_0001 + #[trigger] others(
                        ids,
                        node_id,
                    )[i] % 0x1_0000_0000 > u32::MAX,
            },
        },
{
    if node_id < lines(content).len() {
        match numbers(words(lines(content)[node_id as int])) {
            None => {},
            Some(ids) => {
                let peers = others(ids, node_id);
                let addresses = peers.map_values(|id: nat| node_address(id));
                if connections(content, node_id) is Err {
                    let i = choose|i: int|
                        0 <= i < addresses.len() && #[trigger] addresses[i] > u32::MAX;
                    assert(0x0100_0001 + peers[i] % 0x1_0000_0000 > u32::MAX);
                }
            },
        }
    }
}

/// What lists hold, item by item.
pub proof fn law_items(lines: Seq<Vec<u8>>, ids: Seq<usize>, addresses: Seq<u32>)
    ensures
        contents(lines).len() == lines.len(),
        forall|i: int| 0 <= i < lines.len() ==> #[trigger] contents(lines)[i] == lines[i]@,
        values(ids).len() == ids.len(),
        forall|i: int| 0 <= i < ids.len() ==> #[trigger] values(ids)[i] == ids[i],
        address_values(addresses).len() == addresses.len(),
        forall|i: int|
            0 <= i < addresses.len() ==> #[trigger] address_values(addresses)[i] == addresses[i],
{
}

} // verus!
