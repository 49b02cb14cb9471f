//! The framing codec: how bytes are laid out on the link.
//!
//! Everything here is a function on bytes. Short control payloads travel in
//! tagged groups of up to three bytes, bulk payloads in length-prefixed
//! frames, and every reply is announced by a four-byte length header.

use crate::constants::{
    GOOD_BLOCK, LENGTH_TAG, PACKET_SIZE, PIECEMEAL_CHUNK_RECV, PIECEMEAL_CHUNK_SEND,
    PIECEMEAL_DATA_CHUNK_SIZE, READY, SEND_CHUNK, SEND_CHUNK_SIZE, SPARE_KEPT, STATUS_END,
    STATUS_START,
};
use crate::error::{LibBBError, UsbError};
use crate::operation::{
    device_reply, empty_plan, lemma_reply_length_refused, lemma_reply_received, plan_view,
    push_step, Operation, OperationView, ReplyView, Shape, Step, StepView, Use,
};
use crate::usb::{ActionView, EventView};
use crate::BBPlayer;
use vstd::pervasive::unreached;
use vstd::prelude::*;

verus! {

/// The four bytes with which the device says that it is ready.
pub open spec fn ready_signal() -> Seq<u8> {
    seq![READY, 0u8, 0u8, 0u8]
}

/// A payload cut into groups of up to three bytes, each behind a tag byte
/// that is `base` plus the number of bytes in the group.
pub open spec fn piecemeal_encoding(data: Seq<u8>, base: u8) -> Seq<u8>
    decreases data.len(),
{
    if data.len() == 0 {
        Seq::empty()
    } else {
        let n = if data.len() < PIECEMEAL_DATA_CHUNK_SIZE {
            data.len() as int
        } else {
            PIECEMEAL_DATA_CHUNK_SIZE as int
        };
        seq![(base + n) as u8] + data.take(n) + piecemeal_encoding(data.skip(n), base)
    }
}

/// Number of bytes that `n` payload bytes take once they are grouped.
pub open spec fn piecemeal_len(n: nat) -> nat {
    n + (n + 2) / 3
}

/// What reading a body comes to.
pub enum Reading {
    /// The body holds this payload, of the declared length.
    Payload(Seq<u8>),
    /// The body cannot be read.
    Refused(LibBBError),
    /// The body does not hold the declared number of bytes: host and device
    /// no longer agree on where a reply ends.
    OutOfStep,
}

/// What reading tagged groups from `data` adds to `out`, until `expected`
/// bytes are there or the input ends. The group tags are `base` plus one
/// to `base` plus three.
///
/// A tag outside the three group tags is refused with `Io`, a group that
/// the input cuts short with `InvalidParam`. Ending with any other number
/// of bytes than `expected` is out of step.
pub open spec fn piecemeal_groups(data: Seq<u8>, out: Seq<u8>, expected: nat, base: u8) -> Reading
    decreases data.len(),
{
    if out.len() >= expected || data.len() == 0 {
        if out.len() == expected {
            Reading::Payload(out)
        } else {
            Reading::OutOfStep
        }
    } else {
        let tag = data[0];
        if base < tag <= base + PIECEMEAL_DATA_CHUNK_SIZE {
            let n = tag - base;
            if data.len() - 1 < n {
                Reading::Refused(LibBBError::USB(UsbError::InvalidParam))
            } else {
                piecemeal_groups(data.skip(1 + n), out + data.subrange(1, 1 + n), expected, base)
            }
        } else {
            Reading::Refused(LibBBError::USB(UsbError::Io))
        }
    }
}

/// What reading a received body of `expected` declared bytes comes to: its
/// groups read at the receive base.
pub open spec fn piecemeal_decoding(data: Seq<u8>, expected: nat) -> Reading {
    piecemeal_groups(data, Seq::empty(), expected, PIECEMEAL_CHUNK_RECV)
}

/// The value of four bytes read as a big-endian unsigned number.
pub open spec fn be_u32(b: Seq<u8>) -> u32
    recommends
        b.len() == 4,
{
    (b[0] * 0x100_0000 + b[1] * 0x1_0000 + b[2] * 0x100 + b[3]) as u32
}

/// The value of four bytes read as a big-endian number in two's complement.
pub open spec fn be_i32(b: Seq<u8>) -> i32
    recommends
        b.len() == 4,
{
    if be_u32(b) >= 0x8000_0000 {
        (be_u32(b) - 0x1_0000_0000) as i32
    } else {
        be_u32(b) as i32
    }
}

/// The four bytes of a number, most significant first.
pub open spec fn be_bytes(x: u32) -> Seq<u8> {
    seq![
        (x / 0x100_0000) as u8,
        (x / 0x1_0000 % 0x100) as u8,
        (x / 0x100 % 0x100) as u8,
        (x % 0x100) as u8,
    ]
}

/// The eight bytes of a request: the operation and its argument.
pub open spec fn command_bytes(opcode: u32, arg: u32) -> Seq<u8> {
    be_bytes(opcode) + be_bytes(arg)
}

/// The status word of a reply: its bytes four to seven as a signed number.
pub open spec fn reply_status(reply: Seq<u8>) -> i32
    recommends
        reply.len() >= STATUS_END,
{
    be_i32(reply.subrange(STATUS_START as int, STATUS_END as int))
}

/// The same four bytes of a reply as an unsigned number.
pub open spec fn reply_value(reply: Seq<u8>) -> u32
    recommends
        reply.len() >= STATUS_END,
{
    be_u32(reply.subrange(STATUS_START as int, STATUS_END as int))
}

/// Whether four bytes are a length header.
pub open spec fn is_length_header(header: Seq<u8>) -> bool {
    header.len() == 4 && header[0] == LENGTH_TAG
}

/// The body length that a length header declares: its low three bytes.
pub open spec fn declared_length(header: Seq<u8>) -> nat
    recommends
        header.len() == 4,
{
    (header[1] * 0x1_0000 + header[2] * 0x100 + header[3]) as nat
}

/// The header that declares a body of `len` bytes.
pub open spec fn length_header(len: nat) -> Seq<u8>
    recommends
        len <= 0xFF_FFFF,
{
    seq![LENGTH_TAG, (len / 0x1_0000) as u8, (len / 0x100 % 0x100) as u8, (len % 0x100) as u8]
}

/// A body cut into the packets in which it travels: full packets, then
/// one that is not full and may be empty.
pub open spec fn body_packets(body: Seq<u8>) -> Seq<Seq<u8>>
    decreases body.len(),
{
    if body.len() < PACKET_SIZE {
        seq![body]
    } else {
        seq![body.take(PACKET_SIZE as int)] + body_packets(body.skip(PACKET_SIZE as int))
    }
}

/// Room for the grouped form of a body of `expected` bytes.
pub open spec fn reply_room(expected: nat) -> nat {
    (expected + expected / 3 + (3 - expected % 3) % 3 + 1) as nat
}

/// A bulk payload cut into frames: a tag, the number of bytes, the bytes.
pub open spec fn chunk_frames(data: Seq<u8>) -> Seq<Seq<u8>>
    decreases data.len(),
{
    if data.len() == 0 {
        Seq::empty()
    } else {
        let n = if data.len() < SEND_CHUNK_SIZE - 2 {
            data.len() as int
        } else {
            SEND_CHUNK_SIZE - 2
        };
        seq![seq![SEND_CHUNK, n as u8] + data.take(n)] + chunk_frames(data.skip(n))
    }
}

/// The payload that a run of frames carries: what follows tag and length
/// byte in each, one after the other.
pub open spec fn framed_payload(frames: Seq<Seq<u8>>) -> Seq<u8>
    decreases frames.len(),
{
    if frames.len() == 0 {
        Seq::empty()
    } else {
        frames[0].skip(2) + framed_payload(frames.skip(1))
    }
}

/// The spare bytes that a write sends: the first three as they are, every
/// other byte of the spare area as `0xFF`.
pub open spec fn masked_spare(spare: Seq<u8>, spare_size: nat) -> Seq<u8>
    recommends
        spare.len() >= SPARE_KEPT,
        spare_size >= SPARE_KEPT,
{
    spare.take(SPARE_KEPT as int) + Seq::new(
        (spare_size - SPARE_KEPT) as nat,
        |i: int| GOOD_BLOCK,
    )
}

/// Grouping a payload adds one byte for every three, rounded up.
pub proof fn lemma_piecemeal_encoding_len(data: Seq<u8>, base: u8)
    ensures
        piecemeal_encoding(data, base).len() == piecemeal_len(data.len()),
    decreases data.len(),
{
    if data.len() != 0 {
        let n = if data.len() < 3 {
            data.len() as int
        } else {
            3
        };
        lemma_piecemeal_encoding_len(data.skip(n), base);
    }
}

/// The frames of a payload carry the payload and nothing else: each frame
/// opens with the tag and the number of its bytes, holds at most
/// `SEND_CHUNK_SIZE` bytes in all and at least one of the payload, and the
/// frames' bytes put together are the payload.
pub proof fn lemma_chunk_frames(data: Seq<u8>)
    ensures
        framed_payload(chunk_frames(data)) == data,
        forall|i: int|
            #![trigger chunk_frames(data)[i]]
            0 <= i < chunk_frames(data).len() ==> {
                let frame = chunk_frames(data)[i];
                &&& 2 < frame.len() <= SEND_CHUNK_SIZE
                &&& frame[0] == SEND_CHUNK
                &&& frame[1] == frame.len() - 2
            },
    decreases data.len(),
{
    if data.len() == 0 {
        assert(framed_payload(chunk_frames(data)) =~= data);
    } else {
        let n = if data.len() < SEND_CHUNK_SIZE - 2 {
            data.len() as int
        } else {
            SEND_CHUNK_SIZE - 2
        };
        let first = seq![SEND_CHUNK, n as u8] + data.take(n);
        let frames = chunk_frames(data);
        lemma_chunk_frames(data.skip(n));
        assert(frames == seq![first] + chunk_frames(data.skip(n)));
        assert(frames[0] == first);
        assert(frames.skip(1) =~= chunk_frames(data.skip(n)));
        assert(first.skip(2) =~= data.take(n));
        assert(data.take(n) + data.skip(n) =~= data);
        assert forall|i: int| 0 <= i < frames.len() implies {
            let frame = #[trigger] frames[i];
            &&& 2 < frame.len() <= SEND_CHUNK_SIZE
            &&& frame[0] == SEND_CHUNK
            &&& frame[1] == frame.len() - 2
        } by {
            if i > 0 {
                assert(frames[i] == chunk_frames(data.skip(n))[i - 1]);
            }
        }
    }
}

/// Reading groups undoes grouping at the same base, whatever was read
/// before.
pub proof fn lemma_piecemeal_groups_inverts(data: Seq<u8>, out: Seq<u8>, base: u8)
    requires
        base + PIECEMEAL_DATA_CHUNK_SIZE <= u8::MAX,
    ensures
        piecemeal_groups(piecemeal_encoding(data, base), out, out.len() + data.len(), base)
            == Reading::Payload(out + data),
    decreases data.len(),
{
    let enc = piecemeal_encoding(data, base);
    if data.len() == 0 {
        assert(out + data =~= out);
    } else {
        let n = if data.len() < 3 {
            data.len() as int
        } else {
            3
        };
        let rest = piecemeal_encoding(data.skip(n), base);
        assert(enc == seq![(base + n) as u8] + data.take(n) + rest);
        assert(enc[0] == base + n);
        assert(enc.skip(1 + n) =~= rest);
        assert(enc.subrange(1, 1 + n) =~= data.take(n));
        lemma_piecemeal_groups_inverts(data.skip(n), out + data.take(n), base);
        assert(out + data.take(n) + data.skip(n) =~= out + data);
    }
}

/// A payload of any length, grouped and then read back at the same base
/// with its own length as the expected one, is the payload again.
pub proof fn lemma_piecemeal_round_trip(data: Seq<u8>, base: u8)
    requires
        base + PIECEMEAL_DATA_CHUNK_SIZE <= u8::MAX,
    ensures
        piecemeal_groups(piecemeal_encoding(data, base), Seq::empty(), data.len(), base)
            == Reading::Payload(data),
{
    lemma_piecemeal_groups_inverts(data, Seq::empty(), base);
    assert(Seq::<u8>::empty() + data =~= data);
}

/// What the device groups at the receive base, `decode_piecemeal_data`
/// reads back; what `encode_piecemeal_data` groups at the send base it
/// reads back only where there is nothing to read, and refuses with `Io`
/// otherwise: the two directions of the link do not share their tags.
pub proof fn lemma_piecemeal_directions(data: Seq<u8>)
    ensures
        piecemeal_decoding(piecemeal_encoding(data, PIECEMEAL_CHUNK_RECV), data.len())
            == Reading::Payload(data),
        piecemeal_decoding(piecemeal_encoding(data, PIECEMEAL_CHUNK_SEND), data.len()) == if
            data.len() == 0 {
            Reading::Payload(data)
        } else {
            Reading::Refused(LibBBError::USB(UsbError::Io))
        },
{
    lemma_piecemeal_round_trip(data, PIECEMEAL_CHUNK_RECV);
    if data.len() == 0 {
        assert(data =~= Seq::<u8>::empty());
    }
}

/// Whatever is read as a payload has exactly the expected number of bytes.
pub proof fn lemma_piecemeal_groups_len(data: Seq<u8>, out: Seq<u8>, expected: nat, base: u8)
    ensures
        piecemeal_groups(data, out, expected, base) matches Reading::Payload(d) ==> d.len()
            == expected,
    decreases data.len(),
{
    if !(out.len() >= expected || data.len() == 0) {
        let tag = data[0];
        if base < tag <= base + 3 {
            let n = tag - base;
            if data.len() - 1 >= n {
                lemma_piecemeal_groups_len(
                    data.skip(1 + n),
                    out + data.subrange(1, 1 + n),
                    expected,
                    base,
                );
            }
        }
    }
}

/// Appends a copy of `part` to `buf`.
pub fn append_bytes(buf: &mut Vec<u8>, part: &[u8])
    ensures
        final(buf)@ == old(buf)@ + part@,
{
    let mut i: usize = 0;
    while i < part.len()
        invariant
            i <= part.len(),
            buf@ == old(buf)@ + part@.take(i as int),
        decreases part.len() - i,
    {
        buf.push(part[i]);
        i += 1;
        assert(part@.take(i as int) =~= part@.take(i - 1).push(part@[i - 1]));
    }
    assert(part@.take(part.len() as int) =~= part@);
}

/// A copy of `bytes`.
pub fn copy_bytes(bytes: &[u8]) -> (copy: Vec<u8>)
    ensures
        copy@ == bytes@,
{
    let mut copy: Vec<u8> = Vec::new();
    append_bytes(&mut copy, bytes);
    assert(copy@ =~= bytes@);
    copy
}

/// Whether `buf` is the ready signal.
pub fn is_ready_signal(buf: &[u8]) -> (r: bool)
    ensures
        r == (buf@ == ready_signal()),
{
    let r = buf.len() == 4 && buf[0] == READY && buf[1] == 0 && buf[2] == 0 && buf[3] == 0;
    assert(r ==> buf@ =~= ready_signal());
    r
}

/// Groups a payload for sending: tags `0x41` to `0x43`.
pub fn encode_piecemeal_data(data: &[u8]) -> (rv: Vec<u8>)
    ensures
        rv@ == piecemeal_encoding(data@, PIECEMEAL_CHUNK_SEND),
        rv@.len() == piecemeal_len(data@.len()),
{
    let mut rv: Vec<u8> = Vec::new();
    let mut i: usize = 0;
    proof {
        let whole = piecemeal_encoding(data@, PIECEMEAL_CHUNK_SEND);
        assert(data@.skip(0) =~= data@);
        assert(rv@ + whole =~= whole);
    }
    while i < data.len()
        invariant
            i <= data.len(),
            rv@ + piecemeal_encoding(data@.skip(i as int), PIECEMEAL_CHUNK_SEND)
                == piecemeal_encoding(data@, PIECEMEAL_CHUNK_SEND),
        decreases data.len() - i,
    {
        let left: usize = data.len() - i;
        let n: usize = if left < PIECEMEAL_DATA_CHUNK_SIZE {
            left
        } else {
            PIECEMEAL_DATA_CHUNK_SIZE
        };
        let ghost before = rv@;
        let ghost rest = data@.skip(i as int);
        rv.push(PIECEMEAL_CHUNK_SEND + n as u8);
        let mut j: usize = 0;
        while j < n
            invariant
                j <= n,
                i + n <= data.len(),
                rest == data@.skip(i as int),
                n <= PIECEMEAL_DATA_CHUNK_SIZE,
                rv@ == before.push((PIECEMEAL_CHUNK_SEND + n) as u8) + rest.take(j as int),
            decreases n - j,
        {
            rv.push(data[i + j]);
            j += 1;
            assert(rest.take(j as int) =~= rest.take(j - 1).push(rest[j - 1]));
        }
        proof {
            assert(rest.skip(n as int) =~= data@.skip(i + n));
            assert(before.push((PIECEMEAL_CHUNK_SEND + n) as u8) + rest.take(n as int)
                + piecemeal_encoding(rest.skip(n as int), PIECEMEAL_CHUNK_SEND) =~= before + (
            seq![(PIECEMEAL_CHUNK_SEND + n) as u8] + rest.take(n as int) + piecemeal_encoding(
                rest.skip(n as int),
                PIECEMEAL_CHUNK_SEND,
            )));
        }
        i += n;
    }
    proof {
        assert(piecemeal_encoding(data@.skip(i as int), PIECEMEAL_CHUNK_SEND) =~= Seq::<
            u8,
        >::empty());
        assert(rv@ + Seq::<u8>::empty() =~= rv@);
        lemma_piecemeal_encoding_len(data@, PIECEMEAL_CHUNK_SEND);
    }
    rv
}

/// Reads a received body: the payload of `expected_len` bytes, or the
/// refusal, or `None` where the body does not hold that many bytes.
fn read_groups(data: &[u8], expected_len: usize) -> (r: Option<Result<Vec<u8>, LibBBError>>)
    ensures
        match r {
            Some(Ok(buf)) => piecemeal_decoding(data@, expected_len as nat) == Reading::Payload(
                buf@,
            ) && buf@.len() == expected_len,
            Some(Err(e)) => piecemeal_decoding(data@, expected_len as nat) == Reading::Refused(e),
            None => piecemeal_decoding(data@, expected_len as nat) is OutOfStep,
        },
{
    let mut buf: Vec<u8> = Vec::new();
    let mut i: usize = 0;
    proof {
        assert(data@.skip(0) =~= data@);
        assert(buf@ =~= Seq::<u8>::empty());
    }
    while buf.len() < expected_len && i < data.len()
        invariant
            i <= data.len(),
            piecemeal_groups(data@.skip(i as int), buf@, expected_len as nat, PIECEMEAL_CHUNK_RECV)
                == piecemeal_decoding(data@, expected_len as nat),
        decreases data.len() - i,
    {
        let tag = data[i];
        let ghost rest = data@.skip(i as int);
        let ghost before = buf@;
        assert(rest[0] == tag);
        if tag <= PIECEMEAL_CHUNK_RECV || tag > PIECEMEAL_CHUNK_RECV + 3 {
            return Some(Err(LibBBError::USB(UsbError::Io)));
        }
        let n: usize = (tag - PIECEMEAL_CHUNK_RECV) as usize;
        if data.len() - i - 1 < n {
            return Some(Err(LibBBError::USB(UsbError::InvalidParam)));
        }
        let mut j: usize = 0;
        while j < n
            invariant
                j <= n,
                i + 1 + n <= data.len(),
                rest == data@.skip(i as int),
                buf@ == before + rest.subrange(1, 1 + j),
            decreases n - j,
        {
            buf.push(data[i + 1 + j]);
            j += 1;
            assert(rest.subrange(1, 1 + j) =~= rest.subrange(1, j as int).push(rest[j as int]));
        }
        proof {
            assert(rest.skip(1 + n) =~= data@.skip(i + 1 + n));
        }
        i += 1 + n;
    }
    if buf.len() == expected_len {
        Some(Ok(buf))
    } else {
        None
    }
}

/// Whether a received body holds the number of bytes that was declared
/// for it, as far as it can be read at all. Where it does not, host and
/// device are out of step and the body must not be decoded.
pub fn piecemeal_in_step(data: &[u8], expected_len: usize) -> (r: bool)
    ensures
        r == !(piecemeal_decoding(data@, expected_len as nat) is OutOfStep),
{
    read_groups(data, expected_len).is_some()
}

/// Reads the payload of `expected_len` bytes out of a received body that
/// holds that many. A foreign tag is `Io`, a group that the input cuts
/// short is `InvalidParam`.
pub fn decode_piecemeal_data(data: &[u8], expected_len: usize) -> (r: Result<Vec<u8>, LibBBError>)
    requires
        !(piecemeal_decoding(data@, expected_len as nat) is OutOfStep),
    ensures
        match r {
            Ok(buf) => piecemeal_decoding(data@, expected_len as nat) == Reading::Payload(buf@)
                && buf@.len() == expected_len,
            Err(e) => piecemeal_decoding(data@, expected_len as nat) == Reading::Refused(e),
        },
{
    match read_groups(data, expected_len) {
        Some(r) => r,
        None => unreached(),
    }
}

/// Reads four bytes as a big-endian unsigned number.
pub fn u32_from_arr(data: &[u8]) -> (x: u32)
    requires
        data@.len() == 4,
    ensures
        x == be_u32(data@),
{
    (data[0] as u32) * 0x100_0000 + (data[1] as u32) * 0x1_0000 + (data[2] as u32) * 0x100 + (
    data[3] as u32)
}

/// Reads four bytes as a big-endian number in two's complement.
pub fn i32_from_arr(data: &[u8]) -> (x: i32)
    requires
        data@.len() == 4,
    ensures
        x == be_i32(data@),
{
    let v = u32_from_arr(data);
    if v >= 0x8000_0000 {
        let low: i32 = (v - 0x8000_0000) as i32;
        low + i32::MIN
    } else {
        v as i32
    }
}

/// Writes a number as four bytes, most significant first.
pub fn u32_to_be(x: u32) -> (b: [u8; 4])
    ensures
        b@ == be_bytes(x),
{
    let b = [
        (x / 0x100_0000) as u8,
        (x / 0x1_0000 % 0x100) as u8,
        (x / 0x100 % 0x100) as u8,
        (x % 0x100) as u8,
    ];
    assert(b@ =~= be_bytes(x));
    b
}

/// The status word of a reply that has room for one.
pub fn command_ret(buf: &[u8]) -> (r: i32)
    requires
        buf@.len() >= STATUS_END,
    ensures
        r == reply_status(buf@),
{
    let word = [buf[4], buf[5], buf[6], buf[7]];
    assert(word@ =~= buf@.subrange(STATUS_START as int, STATUS_END as int));
    i32_from_arr(&word)
}

/// The same four bytes as an unsigned number.
pub fn command_value(buf: &[u8]) -> (r: u32)
    requires
        buf@.len() >= STATUS_END,
    ensures
        r == reply_value(buf@),
{
    let word = [buf[4], buf[5], buf[6], buf[7]];
    assert(word@ =~= buf@.subrange(STATUS_START as int, STATUS_END as int));
    u32_from_arr(&word)
}

/// The body length that a length header declares, or `None` where the four
/// bytes are no length header.
pub fn parse_length_header(header: &[u8]) -> (r: Option<usize>)
    ensures
        r == if is_length_header(header@) {
            Some(declared_length(header@) as usize)
        } else {
            None
        },
        r matches Some(n) ==> n == declared_length(header@) && n <= 0xFF_FFFF,
{
    if header.len() != 4 || header[0] != LENGTH_TAG {
        None
    } else {
        Some(
            (header[1] as usize) * 0x1_0000 + (header[2] as usize) * 0x100 + (header[3] as usize),
        )
    }
}

/// Room to set aside for the grouped form of a body.
pub fn room_for(expected_len: usize) -> (room: usize)
    requires
        expected_len <= 0xFF_FFFF,
    ensures
        room == reply_room(expected_len as nat),
{
    expected_len + expected_len / 3 + (3 - expected_len % 3) % 3 + 1
}

/// How many bytes to ask for in the next packet of a body.
pub fn packet_size(expected_len: usize, have: usize) -> (n: usize)
    requires
        expected_len <= 0xFF_FFFF,
        have <= reply_room(expected_len as nat),
    ensures
        n == next_packet(expected_len as nat, have as nat),
{
    let left = room_for(expected_len) - have;
    if left < PACKET_SIZE {
        left
    } else {
        PACKET_SIZE
    }
}

/// How many bytes the next packet of a body may bring.
pub open spec fn next_packet(expected: nat, have: nat) -> nat {
    if reply_room(expected) - have < PACKET_SIZE {
        (reply_room(expected) - have) as nat
    } else {
        PACKET_SIZE as nat
    }
}

/// The plan of a poll for the ready signal.
pub open spec fn ready_plan() -> Seq<StepView> {
    seq![StepView::Ready]
}

/// The plan of a piecemeal send: the grouped payload in one transfer.
pub open spec fn piecemeal_plan(data: Seq<u8>) -> Seq<StepView> {
    seq![StepView::Send(piecemeal_encoding(data, PIECEMEAL_CHUNK_SEND))]
}

/// The plan of a chunked send: one transfer for each frame.
pub open spec fn chunked_plan(data: Seq<u8>) -> Seq<StepView> {
    chunk_frames(data).map_values(|frame: Seq<u8>| StepView::Send(frame))
}

/// The plan of the receipt of one reply.
pub open spec fn reply_plan(max: nat, put: Use) -> Seq<StepView> {
    seq![StepView::Reply(max, put)]
}

/// The plan of a request: wait until the device is ready, then send the
/// operation and its argument as eight bytes, grouped.
pub open spec fn command_plan(opcode: u32, arg: u32) -> Seq<StepView> {
    ready_plan() + piecemeal_plan(command_bytes(opcode, arg))
}

/// Adds a poll for the ready signal to a plan.
pub fn push_ready(plan: &mut Vec<Step>)
    ensures
        plan_view(final(plan)@) == plan_view(old(plan)@) + ready_plan(),
{
    push_step(plan, Step::Ready);
    assert(plan_view(plan@) =~= plan_view(old(plan)@) + ready_plan());
}

/// Adds a piecemeal send to a plan.
pub fn push_piecemeal(plan: &mut Vec<Step>, data: &[u8])
    ensures
        plan_view(final(plan)@) == plan_view(old(plan)@) + piecemeal_plan(data@),
{
    push_step(plan, Step::Send(encode_piecemeal_data(data)));
    assert(plan_view(plan@) =~= plan_view(old(plan)@) + piecemeal_plan(data@));
}

/// Adds the receipt of a reply to a plan.
pub fn push_reply(plan: &mut Vec<Step>, max: usize, put: Use)
    ensures
        plan_view(final(plan)@) == plan_view(old(plan)@) + reply_plan(max as nat, put),
{
    push_step(plan, Step::Reply(max, put));
    assert(plan_view(plan@) =~= plan_view(old(plan)@) + reply_plan(max as nat, put));
}

/// Adds a request to a plan.
pub fn push_command(plan: &mut Vec<Step>, opcode: u32, arg: u32)
    ensures
        plan_view(final(plan)@) == plan_view(old(plan)@) + command_plan(opcode, arg),
{
    let op = u32_to_be(opcode);
    let ar = u32_to_be(arg);
    let mut message: Vec<u8> = Vec::new();
    append_bytes(&mut message, &op);
    append_bytes(&mut message, &ar);
    assert(message@ =~= command_bytes(opcode, arg));
    push_ready(plan);
    push_piecemeal(plan, message.as_slice());
    assert(plan_view(plan@) =~= plan_view(old(plan)@) + command_plan(opcode, arg));
}

/// The frames of a payload that is not empty: the first, then those of the rest.
proof fn lemma_chunked_plan_unfold(data: Seq<u8>)
    requires
        data.len() > 0,
    ensures
        ({
            let n = if data.len() < SEND_CHUNK_SIZE - 2 {
                data.len() as int
            } else {
                SEND_CHUNK_SIZE - 2
            };
            chunked_plan(data) == seq![
                StepView::Send(seq![SEND_CHUNK, n as u8] + data.take(n)),
            ] + chunked_plan(data.skip(n))
        }),
{
    let n = if data.len() < SEND_CHUNK_SIZE - 2 {
        data.len() as int
    } else {
        SEND_CHUNK_SIZE - 2
    };
    assert(chunked_plan(data) =~= seq![StepView::Send(seq![SEND_CHUNK, n as u8] + data.take(n))]
        + chunked_plan(data.skip(n)));
}

/// Adds a chunked send to a plan.
pub fn push_chunked(plan: &mut Vec<Step>, data: &[u8])
    ensures
        plan_view(final(plan)@) == plan_view(old(plan)@) + chunked_plan(data@),
{
    let mut i: usize = 0;
    proof {
        assert(data@.skip(0) =~= data@);
    }
    while i < data.len()
        invariant
            i <= data.len(),
            plan_view(plan@) + chunked_plan(data@.skip(i as int)) == plan_view(old(plan)@)
                + chunked_plan(data@),
        decreases data.len() - i,
    {
        let left: usize = data.len() - i;
        let n: usize = if left < SEND_CHUNK_SIZE - 2 {
            left
        } else {
            SEND_CHUNK_SIZE - 2
        };
        let ghost rest = data@.skip(i as int);
        let ghost before = plan_view(plan@);
        let mut frame: Vec<u8> = Vec::new();
        frame.push(SEND_CHUNK);
        frame.push(n as u8);
        let mut j: usize = 0;
        while j < n
            invariant
                j <= n,
                i + n <= data.len(),
                rest == data@.skip(i as int),
                frame@ == seq![SEND_CHUNK, n as u8] + rest.take(j as int),
            decreases n - j,
        {
            frame.push(data[i + j]);
            j += 1;
            assert(rest.take(j as int) =~= rest.take(j - 1).push(rest[j - 1]));
        }
        push_step(plan, Step::Send(frame));
        proof {
            lemma_chunked_plan_unfold(rest);
            assert(rest.skip(n as int) =~= data@.skip(i + n));
            assert(plan_view(plan@) + chunked_plan(data@.skip(i + n)) =~= before
                + chunked_plan(rest));
        }
        i += n;
    }
    assert(chunked_plan(data@.skip(i as int)) =~= Seq::<StepView>::empty());
    assert(plan_view(plan@) + Seq::<StepView>::empty() =~= plan_view(plan@));
}

impl BBPlayer {
    /// Polls until the device says that it is ready.
    pub fn wait_ready(&self) -> (op: Operation)
        ensures
            op@ == OperationView::start(ready_plan(), Shape::Nothing, None),
            op@.wf(),
    {
        let mut plan = empty_plan();
        push_ready(&mut plan);
        assert(plan_view(plan@) =~= ready_plan());
        Operation::new(plan, Shape::Nothing, None)
    }

    /// Sends a short payload in tagged groups, in one transfer.
    pub fn send_piecemeal_data(&self, data: &[u8]) -> (op: Operation)
        ensures
            op@ == OperationView::start(piecemeal_plan(data@), Shape::Nothing, None),
            op@.wf(),
    {
        let mut plan = empty_plan();
        push_piecemeal(&mut plan, data);
        assert(plan_view(plan@) =~= piecemeal_plan(data@));
        Operation::new(plan, Shape::Nothing, None)
    }

    /// Sends a bulk payload in frames, one transfer for each. An empty
    /// payload is sent at once: the operation has ended when it is made.
    pub fn send_chunked_data(&self, data: &[u8]) -> (op: Operation)
        ensures
            op@ == OperationView::start(chunked_plan(data@), Shape::Nothing, None),
            op@.wf(),
    {
        let mut plan = empty_plan();
        push_chunked(&mut plan, data);
        assert(plan_view(plan@) =~= chunked_plan(data@));
        Operation::new(plan, Shape::Nothing, None)
    }

    /// Receives one reply of at most `expected_len` bytes and hands back
    /// its payload.
    pub fn receive_reply(&self, expected_len: usize) -> (op: Operation)
        ensures
            op@ == reply_receipt(expected_len as nat),
            op@.wf(),
    {
        let mut plan = empty_plan();
        push_reply(&mut plan, expected_len, Use::Block);
        assert(plan_view(plan@) =~= reply_plan(expected_len as nat, Use::Block));
        Operation::new(plan, Shape::Bytes, None)
    }

    /// Waits until the device is ready, then sends a request.
    pub fn send_command(&self, opcode: u32, arg: u32) -> (op: Operation)
        ensures
            op@ == OperationView::start(command_plan(opcode, arg), Shape::Nothing, None),
            op@.wf(),
    {
        let mut plan = empty_plan();
        push_command(&mut plan, opcode, arg);
        assert(plan_view(plan@) =~= command_plan(opcode, arg));
        Operation::new(plan, Shape::Nothing, None)
    }
}

/// The receipt of a reply of at most `max` bytes.
pub open spec fn reply_receipt(max: nat) -> OperationView {
    OperationView::start(reply_plan(max, Use::Block), Shape::Bytes, None)
}

/// The receipt of a reply fails with `InvalidParam`, and asks for no body,
/// where the header declares no bytes or more than `max`.
pub proof fn lemma_receive_reply_refuses(max: nat, header: Seq<u8>)
    requires
        is_length_header(header),
        declared_length(header) == 0 || declared_length(header) > max,
    ensures
        reply_receipt(max).pending() == Some(ActionView::Receive(4)),
        reply_receipt(max).fed(EventView::Received(header)).outcome() == Some(
            Err::<ReplyView, LibBBError>(LibBBError::USB(UsbError::InvalidParam)),
        ),
        reply_receipt(max).fed(EventView::Received(header)).pending() is None,
{
    lemma_reply_length_refused(reply_receipt(max), header);
}

/// The receipt of a reply hands back the payload that a device which keeps
/// to the framing sent, whenever the payload is not empty and not longer
/// than `max`.
pub proof fn lemma_receive_reply_receives(max: nat, payload: Seq<u8>)
    requires
        0 < payload.len() <= max,
        payload.len() <= 0xFF_FFFF,
    ensures
        reply_receipt(max).takes_all(device_reply(payload)),
        reply_receipt(max).run(device_reply(payload)).outcome() == Some(
            Ok::<ReplyView, LibBBError>(ReplyView::Bytes(payload)),
        ),
{
    lemma_reply_received(reply_receipt(max), payload);
    assert(Seq::<u8>::empty() + payload =~= payload);
}

} // verus!
