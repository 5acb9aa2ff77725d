//! Bounded packet inboxes and the serial command-line assembler of the
//! firmware, kept in the fixed-capacity collections of `heapless`.
//!
//! Each collection is opaque here; what it holds is given by a named view
//! (`packet_bytes`, `line_bytes`, `rx_packets`, `node_packets`) that the
//! wrappers of the `heapless` methods describe.

use vstd::prelude::*;
use vstd::utf8::{decode_utf8, valid_utf8};

verus! {

#[verifier::external_type_specification]
#[verifier::external_body]
#[verifier::reject_recursive_types(T)]
pub struct ExHeaplessVec<T, const N: usize>(heapless::Vec<T, N>);

#[verifier::external_type_specification]
#[verifier::external_body]
#[verifier::reject_recursive_types(T)]
pub struct ExHeaplessDeque<T, const N: usize>(heapless::Deque<T, N>);

/// Most packets an inbox holds before further packets are dropped.
pub const MAX_PENDING: usize = 8;

/// Most bytes of one serial command line.
pub const LINE_CAPACITY: usize = 160;

// ---------------------------------------------------------------------------
// What the collections hold.
// ---------------------------------------------------------------------------

/// The bytes held by a packet buffer (capacity 250, the ESP-NOW maximum).
pub uninterp spec fn packet_bytes(p: heapless::Vec<u8, 250>) -> Seq<u8>;

/// The bytes held by the command-line buffer (capacity 160).
pub uninterp spec fn line_bytes(l: heapless::Vec<u8, 160>) -> Seq<u8>;

/// The packets queued in the gateway's receive inbox, front first.
pub uninterp spec fn rx_packets(d: heapless::Deque<heapless::Vec<u8, 250>, 8>) -> Seq<Seq<u8>>;

/// The (source MAC, packet) pairs queued in the node's inbox, front first.
pub uninterp spec fn node_packets(d: heapless::Deque<([u8; 6], heapless::Vec<u8, 250>), 8>) -> Seq<(Seq<u8>, Seq<u8>)>;

// ---------------------------------------------------------------------------
// Trusted wrappers of `heapless` and `core::str`.
// ---------------------------------------------------------------------------

/// `heapless::Vec::<u8, 250>::from_slice`: a buffer holding a copy of
/// `data`, or an error (and no buffer) when `data` exceeds the capacity.
#[verifier::external_body]
fn packet_from(data: &[u8]) -> (r: Option<heapless::Vec<u8, 250>>)
    ensures
        r.is_some() == (data@.len() <= 250),
        r matches Some(p) ==> packet_bytes(p) == data@,
{
    heapless::Vec::<u8, 250>::from_slice(data).ok()
}

/// `heapless::Vec::as_slice` of a packet buffer, copied out: exactly the
/// bytes it holds.
#[verifier::external_body]
fn packet_to_vec(p: &heapless::Vec<u8, 250>) -> (r: Vec<u8>)
    ensures
        r@ == packet_bytes(*p),
{
    p.as_slice().to_vec()
}

/// `heapless::Vec::<u8, 160>::new`: an empty line.
#[verifier::external_body]
pub fn line_new() -> (l: heapless::Vec<u8, 160>)
    ensures
        line_bytes(l) == Seq::<u8>::empty(),
{
    heapless::Vec::<u8, 160>::new()
}

/// `heapless::Vec::push` on the line: appends `b` while the line holds fewer
/// than 160 bytes; on a full line it returns the byte back and changes
/// nothing.
#[verifier::external_body]
fn line_push(l: &mut heapless::Vec<u8, 160>, b: u8) -> (pushed: bool)
    ensures
        pushed == (line_bytes(*old(l)).len() < 160),
        pushed ==> line_bytes(*final(l)) == line_bytes(*old(l)).push(b),
        !pushed ==> line_bytes(*final(l)) == line_bytes(*old(l)),
{
    l.push(b).is_ok()
}

/// `heapless::Vec::clear` on the line: it then holds nothing.
#[verifier::external_body]
fn line_clear(l: &mut heapless::Vec<u8, 160>)
    ensures
        line_bytes(*final(l)) == Seq::<u8>::empty(),
{
    l.clear()
}

/// `heapless::Vec::is_empty` on the line.
#[verifier::external_body]
fn line_is_empty(l: &heapless::Vec<u8, 160>) -> (r: bool)
    ensures
        r == (line_bytes(*l).len() == 0),
{
    l.is_empty()
}

/// `heapless::Vec::as_slice` of the line, copied out.
#[verifier::external_body]
fn line_to_vec(l: &heapless::Vec<u8, 160>) -> (r: Vec<u8>)
    ensures
        r@ == line_bytes(*l),
{
    l.as_slice().to_vec()
}

/// `core::str::from_utf8`, the result copied into a `String`: the decoded
/// text when the bytes are valid UTF-8, and nothing otherwise.
#[verifier::external_body]
fn utf8_text(bytes: &[u8]) -> (r: Option<String>)
    ensures
        r.is_some() == valid_utf8(bytes@),
        r matches Some(t) ==> t@ == decode_utf8(bytes@),
{
    match core::str::from_utf8(bytes) {
        Ok(t) => Some(t.to_string()),
        Err(_) => None,
    }
}

/// `heapless::Deque::new` for the gateway's receive inbox: empty.
#[verifier::external_body]
pub fn rx_inbox_new() -> (d: heapless::Deque<heapless::Vec<u8, 250>, 8>)
    ensures
        rx_packets(d) == Seq::<Seq<u8>>::empty(),
{
    heapless::Deque::new()
}

/// `heapless::Deque::push_back` on the receive inbox: queues `p` at the back
/// while fewer than 8 packets are queued; on a full inbox the packet is handed
/// back and dropped, and the inbox is unchanged.
#[verifier::external_body]
fn rx_push_back(d: &mut heapless::Deque<heapless::Vec<u8, 250>, 8>, p: heapless::Vec<u8, 250>) -> (queued: bool)
    ensures
        queued == (rx_packets(*old(d)).len() < 8),
        queued ==> rx_packets(*final(d)) == rx_packets(*old(d)).push(packet_bytes(p)),
        !queued ==> rx_packets(*final(d)) == rx_packets(*old(d)),
{
    d.push_back(p).is_ok()
}

/// `heapless::Deque::pop_front` on the receive inbox: the front packet,
/// removed, or nothing on an empty inbox.
#[verifier::external_body]
fn rx_pop_front(d: &mut heapless::Deque<heapless::Vec<u8, 250>, 8>) -> (r: Option<heapless::Vec<u8, 250>>)
    ensures
        r.is_some() == (rx_packets(*old(d)).len() > 0),
        r matches Some(p) ==> packet_bytes(p) == rx_packets(*old(d))[0]
            && rx_packets(*final(d)) == rx_packets(*old(d)).drop_first(),
        r is None ==> rx_packets(*final(d)) == rx_packets(*old(d)),
{
    d.pop_front()
}

/// `heapless::Deque::new` for the node's inbox: empty.
#[verifier::external_body]
pub fn node_inbox_new() -> (d: heapless::Deque<([u8; 6], heapless::Vec<u8, 250>), 8>)
    ensures
        node_packets(d) == Seq::<(Seq<u8>, Seq<u8>)>::empty(),
{
    heapless::Deque::new()
}

/// `heapless::Deque::push_back` on the node's inbox, as for the receive inbox.
#[verifier::external_body]
fn node_push_back(d: &mut heapless::Deque<([u8; 6], heapless::Vec<u8, 250>), 8>, src: [u8; 6], p: heapless::Vec<u8, 250>) -> (queued: bool)
    ensures
        queued == (node_packets(*old(d)).len() < 8),
        queued ==> node_packets(*final(d)) == node_packets(*old(d)).push((src@, packet_bytes(p))),
        !queued ==> node_packets(*final(d)) == node_packets(*old(d)),
{
    d.push_back((src, p)).is_ok()
}

/// `heapless::Deque::pop_front` on the node's inbox, as for the receive inbox.
#[verifier::external_body]
fn node_pop_front(d: &mut heapless::Deque<([u8; 6], heapless::Vec<u8, 250>), 8>) -> (r: Option<([u8; 6], heapless::Vec<u8, 250>)>)
    ensures
        r.is_some() == (node_packets(*old(d)).len() > 0),
        r matches Some(item) ==> (item.0@, packet_bytes(item.1)) == node_packets(*old(d))[0]
            && node_packets(*final(d)) == node_packets(*old(d)).drop_first(),
        r is None ==> node_packets(*final(d)) == node_packets(*old(d)),
{
    d.pop_front()
}

// ---------------------------------------------------------------------------
// Inboxes.
// ---------------------------------------------------------------------------

/// A received packet is queued when it fits a packet buffer and the inbox has
/// room; otherwise it is dropped.
pub open spec fn queued_after(q: Seq<Seq<u8>>, data: Seq<u8>) -> Seq<Seq<u8>> {
    if data.len() <= 250 && q.len() < 8 { q.push(data) } else { q }
}

/// Queues a packet received by the gateway, dropping it when it is larger
/// than an ESP-NOW payload or when the inbox is full.
pub fn enqueue_rx(inbox: &mut heapless::Deque<heapless::Vec<u8, 250>, 8>, data: &[u8])
    ensures
        rx_packets(*final(inbox)) == queued_after(rx_packets(*old(inbox)), data@),
{
    match packet_from(data) {
        Some(p) => {
            let _ = rx_push_back(inbox, p);
        },
        None => {},
    }
}

/// Takes the oldest queued packet of the gateway's inbox.
pub fn next_rx(inbox: &mut heapless::Deque<heapless::Vec<u8, 250>, 8>) -> (r: Option<Vec<u8>>)
    ensures
        match r {
            Some(p) => rx_packets(*old(inbox)).len() > 0 && p@ == rx_packets(*old(inbox))[0]
                && rx_packets(*final(inbox)) == rx_packets(*old(inbox)).drop_first(),
            None => rx_packets(*old(inbox)).len() == 0 && rx_packets(*final(inbox)) == rx_packets(*old(inbox)),
        },
{
    match rx_pop_front(inbox) {
        Some(p) => Some(packet_to_vec(&p)),
        None => None,
    }
}

/// Queues a packet received by the node from `src`, dropping it when it is
/// larger than an ESP-NOW payload or when the inbox is full.
pub fn enqueue(inbox: &mut heapless::Deque<([u8; 6], heapless::Vec<u8, 250>), 8>, src: [u8; 6], data: &[u8])
    ensures
        node_packets(*final(inbox)) == (if data@.len() <= 250 && node_packets(*old(inbox)).len() < 8 {
            node_packets(*old(inbox)).push((src@, data@))
        } else {
            node_packets(*old(inbox))
        }),
{
    match packet_from(data) {
        Some(p) => {
            let _ = node_push_back(inbox, src, p);
        },
        None => {},
    }
}

/// Takes the oldest queued (source MAC, packet) pair of the node's inbox.
pub fn next_node_packet(inbox: &mut heapless::Deque<([u8; 6], heapless::Vec<u8, 250>), 8>) -> (r: Option<([u8; 6], Vec<u8>)>)
    ensures
        match r {
            Some(item) => node_packets(*old(inbox)).len() > 0
                && (item.0@, item.1@) == node_packets(*old(inbox))[0]
                && node_packets(*final(inbox)) == node_packets(*old(inbox)).drop_first(),
            None => node_packets(*old(inbox)).len() == 0 && node_packets(*final(inbox)) == node_packets(*old(inbox)),
        },
{
    match node_pop_front(inbox) {
        Some(item) => {
            let bytes = packet_to_vec(&item.1);
            Some((item.0, bytes))
        },
        None => None,
    }
}

// ---------------------------------------------------------------------------
// Serial command lines.
// ---------------------------------------------------------------------------

/// One byte fed to the line being assembled: `\n` or `\r` closes a non-empty
/// line (an empty one stays open); any other byte is appended, and a byte that
/// does not fit discards the whole line.
pub open spec fn line_step(line: Seq<u8>, b: u8) -> (Seq<u8>, Option<Seq<u8>>) {
    if b == 10 || b == 13 {
        if line.len() > 0 {
            (Seq::empty(), Some(line))
        } else {
            (line, None)
        }
    } else if line.len() < LINE_CAPACITY {
        (line.push(b), None)
    } else {
        (Seq::empty(), None)
    }
}

/// The open line after feeding `bytes`, and the lines closed on the way, in
/// order.
pub open spec fn feed_lines(line: Seq<u8>, bytes: Seq<u8>) -> (Seq<u8>, Seq<Seq<u8>>)
    decreases bytes.len(),
{
    if bytes.len() == 0 {
        (line, Seq::empty())
    } else {
        let before = feed_lines(line, bytes.drop_last());
        let step = line_step(before.0, bytes.last());
        (step.0, match step.1 {
            Some(l) => before.1.push(l),
            None => before.1,
        })
    }
}

/// The closed lines that are valid UTF-8, decoded; the others are skipped.
pub open spec fn command_texts(lines: Seq<Seq<u8>>) -> Seq<Seq<char>>
    decreases lines.len(),
{
    if lines.len() == 0 {
        Seq::empty()
    } else {
        let before = command_texts(lines.drop_last());
        if valid_utf8(lines.last()) {
            before.push(decode_utf8(lines.last()))
        } else {
            before
        }
    }
}

/// Feeds bytes read from the serial port to the line being assembled and
/// returns the commands completed on the way, in order.
pub fn feed_command_bytes(line: &mut heapless::Vec<u8, 160>, bytes: &[u8]) -> (cmds: Vec<String>)
    ensures
        line_bytes(*final(line)) == feed_lines(line_bytes(*old(line)), bytes@).0,
        cmds@.map_values(|c: String| c@) == command_texts(feed_lines(line_bytes(*old(line)), bytes@).1),
{
    let ghost start = line_bytes(*line);
    let mut cmds: Vec<String> = Vec::new();
    let mut i: usize = 0;
    while i < bytes.len()
        invariant
            i <= bytes@.len(),
            line_bytes(*line) == feed_lines(start, bytes@.subrange(0, i as int)).0,
            cmds@.map_values(|c: String| c@) == command_texts(feed_lines(start, bytes@.subrange(0, i as int)).1),
        decreases bytes@.len() - i,
    {
        let b = bytes[i];
        let ghost prefix = bytes@.subrange(0, i as int);
        let ghost before = feed_lines(start, prefix);
        proof {
            assert(bytes@.subrange(0, i + 1).drop_last() =~= prefix);
        }
        if b == 10u8 || b == 13u8 {
            if !line_is_empty(line) {
                let raw = line_to_vec(line);
                let ghost closed = before.1.push(raw@);
                proof {
                    assert(closed.drop_last() =~= before.1);
                }
                let ghost texts_before = cmds@.map_values(|c: String| c@);
                match utf8_text(raw.as_slice()) {
                    Some(t) => {
                        cmds.push(t);
                        assert(cmds@.map_values(|c: String| c@) =~= texts_before.push(decode_utf8(raw@)));
                    },
                    None => {},
                }
                line_clear(line);
            }
        } else if !line_push(line, b) {
            line_clear(line);
        }
        i += 1;
    }
    proof {
        assert(bytes@.subrange(0, bytes@.len() as int) =~= bytes@);
    }
    cmds
}

/// Bytes without a line break, fed to an empty line, stay open as they are.
proof fn lemma_feed_unbroken(s: Seq<u8>)
    requires
        s.len() <= LINE_CAPACITY,
        forall|i: int| 0 <= i < s.len() ==> s[i] != 10 && s[i] != 13,
    ensures
        feed_lines(Seq::empty(), s) == (s, Seq::<Seq<u8>>::empty()),
    decreases s.len(),
{
    if s.len() > 0 {
        lemma_feed_unbroken(s.drop_last());
        assert(s.drop_last().push(s.last()) =~= s);
    }
}

/// A command of at most 160 bytes without line breaks, followed by `\n`,
/// comes out of an empty assembler as exactly one line, which is that command,
/// and leaves the assembler empty; it is handed on as text when it is valid
/// UTF-8.
pub proof fn law_line_roundtrip(s: Seq<u8>)
    requires
        0 < s.len() <= LINE_CAPACITY,
        forall|i: int| 0 <= i < s.len() ==> s[i] != 10 && s[i] != 13,
    ensures
        feed_lines(Seq::empty(), s.push(10)) == (Seq::<u8>::empty(), seq![s]),
        command_texts(seq![s]) == (if valid_utf8(s) { seq![decode_utf8(s)] } else { Seq::<Seq<char>>::empty() }),
{
    lemma_feed_unbroken(s);
    assert(s.push(10).drop_last() =~= s);
    assert(seq![s].drop_last() =~= Seq::<Seq<u8>>::empty());
    assert(seq![s].last() == s);
    assert(Seq::<Seq<u8>>::empty().push(s) =~= seq![s]);
    assert(Seq::<Seq<char>>::empty().push(decode_utf8(s)) =~= seq![decode_utf8(s)]);
    assert(command_texts(Seq::<Seq<u8>>::empty()) == Seq::<Seq<char>>::empty());
}

/// An inbox never holds more than eight packets.
pub proof fn law_inbox_bounded(q: Seq<Seq<u8>>, data: Seq<u8>)
    requires
        q.len() <= MAX_PENDING,
    ensures
        queued_after(q, data).len() <= MAX_PENDING,
{
}

/// Packets leave an inbox in the order they arrived: taking the oldest packet
/// and then queuing a new one gives what queuing first and taking after does,
/// as long as the inbox had room.
pub proof fn law_inbox_fifo(q: Seq<Seq<u8>>, data: Seq<u8>)
    requires
        0 < q.len() < MAX_PENDING,
    ensures
        queued_after(q, data)[0] == q[0],
        queued_after(q, data).drop_first() == queued_after(q.drop_first(), data),
{
    if data.len() <= 250 {
        assert(q.push(data).drop_first() =~= q.drop_first().push(data));
    }
}

} // verus!
