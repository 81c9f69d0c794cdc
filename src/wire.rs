//! Framing of messages on the wire.
//!
//! A message travels as two packets: a length packet (tag `0x01` and the
//! payload's byte count as a little-endian `u64`), then a data packet (tag
//! `0x02` and the message's UTF-8 bytes).

use vstd::prelude::*;
use vstd::utf8::*;
use vstd::string::*;

verus! {

/// Tag byte that opens a length packet.
pub const LENGTH_TAG: u8 = 1;

/// Tag byte that opens a data packet.
pub const DATA_TAG: u8 = 2;

/// Bytes of a length packet: the tag and eight length bytes.
pub const LENGTH_PACKET_LEN: usize = 9;

/// Why a frame could not be decoded.
#[derive(Clone, Copy, Debug, PartialEq, Eq, Structural)]
pub enum ProtocolError {
    /// A packet began with a tag other than the one expected there.
    UnexpectedTag,
    /// The input ended before the frame was complete.
    Truncated,
    /// The payload is not valid UTF-8.
    InvalidUtf8,
}

/// The eight little-endian bytes of `n`.
pub open spec fn u64_le(n: u64) -> Seq<u8> {
    seq![
        n as u8,
        (n >> 8u64) as u8,
        (n >> 16u64) as u8,
        (n >> 24u64) as u8,
        (n >> 32u64) as u8,
        (n >> 40u64) as u8,
        (n >> 48u64) as u8,
        (n >> 56u64) as u8,
    ]
}

/// The `u64` whose little-endian bytes open `b`.
pub open spec fn le_u64(b: Seq<u8>) -> u64
    recommends
        b.len() >= 8,
{
    (b[0] as u64) | ((b[1] as u64) << 8u64) | ((b[2] as u64) << 16u64) | ((b[3] as u64)
        << 24u64) | ((b[4] as u64) << 32u64) | ((b[5] as u64) << 40u64) | ((b[6] as u64)
        << 48u64) | ((b[7] as u64) << 56u64)
}

/// The length packet that announces a payload of `n` bytes.
pub open spec fn length_packet(n: u64) -> Seq<u8> {
    seq![LENGTH_TAG] + u64_le(n)
}

/// The data packet that carries `payload`.
pub open spec fn data_packet(payload: Seq<u8>) -> Seq<u8> {
    seq![DATA_TAG] + payload
}

/// The whole frame of message `m`: its length packet, then its data packet.
pub open spec fn frame(m: Seq<char>) -> Seq<u8> {
    length_packet(encode_utf8(m).len() as u64) + data_packet(encode_utf8(m))
}

/// What decoding the frame at the start of `w` yields: the message and the
/// number of bytes the frame took, or the first fault met.
pub open spec fn decode_spec(w: Seq<u8>) -> Result<(Seq<char>, nat), ProtocolError> {
    if w.len() == 0 {
        Err(ProtocolError::Truncated)
    } else if w[0] != LENGTH_TAG {
        Err(ProtocolError::UnexpectedTag)
    } else if w.len() < 10 {
        Err(ProtocolError::Truncated)
    } else if w[9] != DATA_TAG {
        Err(ProtocolError::UnexpectedTag)
    } else {
        let n = le_u64(w.subrange(1, 9)) as int;
        if w.len() - 10 < n {
            Err(ProtocolError::Truncated)
        } else {
            let payload = w.subrange(10, 10 + n);
            if valid_utf8(payload) {
                Ok((decode_utf8(payload), (10 + n) as nat))
            } else {
                Err(ProtocolError::InvalidUtf8)
            }
        }
    }
}

/// Reading back the little-endian bytes of `n` gives `n`.
pub proof fn lemma_le_round_trip(n: u64)
    ensures
        le_u64(u64_le(n)) == n,
{
    let b = u64_le(n);
    assert(((n as u8) as u64) | ((((n >> 8u64) as u8) as u64) << 8u64) | ((((n >> 16u64) as u8)
        as u64) << 16u64) | ((((n >> 24u64) as u8) as u64) << 24u64) | ((((n >> 32u64) as u8)
        as u64) << 32u64) | ((((n >> 40u64) as u8) as u64) << 40u64) | ((((n >> 48u64) as u8)
        as u64) << 48u64) | ((((n >> 56u64) as u8) as u64) << 56u64) == n) by (bit_vector);
}

/// Relies on `u64::to_le_bytes`: the eight bytes of `n`, least significant first.
#[verifier::external_body]
fn le_bytes(n: u64) -> (r: [u8; 8])
    ensures
        r@ == u64_le(n),
{
    n.to_le_bytes()
}

/// Relies on `byteorder::LittleEndian::read_u64`: the `u64` stored little-endian
/// in the first eight bytes of `b` (it panics on fewer).
#[verifier::external_body]
fn read_le_u64(b: &[u8]) -> (r: u64)
    requires
        b@.len() >= 8,
    ensures
        r == le_u64(b@),
{
    <byteorder::LittleEndian as byteorder::ByteOrder>::read_u64(b)
}

/// Relies on `String::from_utf8`: it accepts exactly the valid UTF-8 byte
/// sequences and then holds the characters they encode.
#[verifier::external_body]
fn string_from_utf8(v: Vec<u8>) -> (r: Option<String>)
    ensures
        r is Some <==> valid_utf8(v@),
        r matches Some(s) ==> s@ == decode_utf8(v@),
{
    String::from_utf8(v).ok()
}

/// The length packet for a payload of `len` bytes.
pub fn encode_length_packet(len: u64) -> (r: Vec<u8>)
    ensures
        r@ == length_packet(len),
{
    let bytes = le_bytes(len);
    let mut r: Vec<u8> = Vec::new();
    r.push(LENGTH_TAG);
    let mut i: usize = 0;
    while i < 8
        invariant
            0 <= i <= 8,
            bytes@ == u64_le(len),
            r@ == seq![LENGTH_TAG] + bytes@.subrange(0, i as int),
        decreases 8 - i,
    {
        r.push(bytes[i]);
        i = i + 1;
        assert(r@ == seq![LENGTH_TAG] + bytes@.subrange(0, i as int));
    }
    assert(bytes@.subrange(0, 8) == bytes@);
    r
}

/// The data packet that carries `message`'s UTF-8 bytes.
pub fn encode_data_packet(message: &str) -> (r: Vec<u8>)
    ensures
        r@ == data_packet(encode_utf8(message@)),
{
    let bytes = message.as_bytes();
    let mut r: Vec<u8> = Vec::new();
    r.push(DATA_TAG);
    let mut i: usize = 0;
    while i < bytes.len()
        invariant
            0 <= i <= bytes@.len(),
            bytes@ == encode_utf8(message@),
            r@ == seq![DATA_TAG] + bytes@.subrange(0, i as int),
        decreases bytes@.len() - i,
    {
        r.push(bytes[i]);
        i = i + 1;
        assert(r@ == seq![DATA_TAG] + bytes@.subrange(0, i as int));
    }
    assert(bytes@.subrange(0, bytes@.len() as int) == bytes@);
    r
}

/// The two packets that carry `message`, in the order they are written.
pub fn encode(message: &str) -> (r: (Vec<u8>, Vec<u8>))
    ensures
        r.0@ == length_packet(encode_utf8(message@).len() as u64),
        r.1@ == data_packet(encode_utf8(message@)),
        r.0@ + r.1@ == frame(message@),
{
    let len = message.as_bytes().len() as u64;
    let head = encode_length_packet(len);
    let body = encode_data_packet(message);
    (head, body)
}

/// A copy of `w[start..end]`.
fn copy_range(w: &[u8], start: usize, end: usize) -> (r: Vec<u8>)
    requires
        start <= end <= w@.len(),
    ensures
        r@ == w@.subrange(start as int, end as int),
{
    let mut r: Vec<u8> = Vec::new();
    let mut i: usize = start;
    while i < end
        invariant
            start <= i <= end <= w@.len(),
            r@ == w@.subrange(start as int, i as int),
        decreases end - i,
    {
        r.push(w[i]);
        i = i + 1;
        assert(r@ == w@.subrange(start as int, i as int));
    }
    r
}

/// Decodes the frame at the start of `wire`: the message and the number of
/// bytes the frame took.
pub fn decode(wire: &[u8]) -> (r: Result<(String, usize), ProtocolError>)
    ensures
        match r {
            Ok((s, k)) => decode_spec(wire@) == Ok::<(Seq<char>, nat), ProtocolError>(
                (s@, k as nat),
            ),
            Err(e) => decode_spec(wire@) == Err::<(Seq<char>, nat), ProtocolError>(e),
        },
{
    if wire.len() == 0 {
        return Err(ProtocolError::Truncated);
    }
    if wire[0] != LENGTH_TAG {
        return Err(ProtocolError::UnexpectedTag);
    }
    if wire.len() < 10 {
        return Err(ProtocolError::Truncated);
    }
    let header = copy_range(wire, 1, LENGTH_PACKET_LEN);
    let n = read_le_u64(header.as_slice());
    if wire[9] != DATA_TAG {
        return Err(ProtocolError::UnexpectedTag);
    }
    let rest = wire.len() - 10;
    if (rest as u64) < n {
        return Err(ProtocolError::Truncated);
    }
    let end = 10 + n as usize;
    let payload = copy_range(wire, 10, end);
    match string_from_utf8(payload) {
        Some(s) => Ok((s, end)),
        None => Err(ProtocolError::InvalidUtf8),
    }
}

/// A frame, followed by anything, decodes to its own message and takes
/// exactly its own bytes: frames sent back to back come out one by one, in
/// the order they were sent, and decoding an encoded message gives it back.
pub proof fn lemma_frame_decodes(m: Seq<char>, rest: Seq<u8>)
    requires
        encode_utf8(m).len() <= u64::MAX,
    ensures
        decode_spec(frame(m) + rest) == Ok::<(Seq<char>, nat), ProtocolError>(
            (m, frame(m).len()),
        ),
{
    let p = encode_utf8(m);
    let n = p.len() as u64;
    let w = frame(m) + rest;
    lemma_le_round_trip(n);
    assert(w.subrange(1, 9) == u64_le(n));
    assert(w[9] == DATA_TAG);
    assert(w.subrange(10, 10 + n) == p);
    encode_utf8_valid_utf8(m);
    encode_utf8_decode_utf8(m);
}

/// Decoding a lone encoded message gives it back.
pub proof fn lemma_round_trip(m: Seq<char>)
    requires
        encode_utf8(m).len() <= u64::MAX,
    ensures
        decode_spec(frame(m)) == Ok::<(Seq<char>, nat), ProtocolError>((m, frame(m).len())),
{
    lemma_frame_decodes(m, seq![]);
    assert(frame(m) + seq![] == frame(m));
}

/// A first byte other than the length tag, or a byte after the eight length
/// bytes other than the data tag, is refused as an unexpected tag.
pub proof fn lemma_bad_tag_refused(w: Seq<u8>)
    requires
        w.len() > 0,
        w[0] != LENGTH_TAG || (w.len() >= 10 && w[9] != DATA_TAG),
    ensures
        decode_spec(w) == Err::<(Seq<char>, nat), ProtocolError>(ProtocolError::UnexpectedTag),
{
}

/// Any proper prefix of a frame is refused as truncated, never taken for a
/// shorter message.
pub proof fn lemma_cut_frame_truncated(m: Seq<char>, k: int)
    requires
        encode_utf8(m).len() <= u64::MAX,
        0 <= k < frame(m).len(),
    ensures
        decode_spec(frame(m).subrange(0, k)) == Err::<(Seq<char>, nat), ProtocolError>(
            ProtocolError::Truncated,
        ),
{
    let p = encode_utf8(m);
    let n = p.len() as u64;
    let w = frame(m).subrange(0, k);
    lemma_le_round_trip(n);
    if k >= 10 {
        assert(w.subrange(1, 9) == u64_le(n));
        assert(w[0] == LENGTH_TAG);
        assert(w[9] == DATA_TAG);
    } else if k > 0 {
        assert(w[0] == LENGTH_TAG);
    }
}

/// The frames of `ms`, one after another.
pub open spec fn frames(ms: Seq<Seq<char>>) -> Seq<u8>
    decreases ms.len(),
{
    if ms.len() == 0 {
        seq![]
    } else {
        frame(ms[0]) + frames(ms.drop_first())
    }
}

/// Messages framed back to back are decoded in the order they were framed:
/// the first decode yields the first message, and what it leaves is exactly
/// the frames of the others.
pub proof fn lemma_frames_decode_in_order(ms: Seq<Seq<char>>, rest: Seq<u8>)
    requires
        ms.len() > 0,
        forall|i: int| 0 <= i < ms.len() ==> #[trigger] encode_utf8(ms[i]).len() <= u64::MAX,
    ensures
        decode_spec(frames(ms) + rest) == Ok::<(Seq<char>, nat), ProtocolError>(
            (ms[0], frame(ms[0]).len()),
        ),
        (frames(ms) + rest).skip(frame(ms[0]).len() as int) == frames(ms.drop_first()) + rest,
{
    let tail = frames(ms.drop_first()) + rest;
    assert(encode_utf8(ms[0]).len() <= u64::MAX);
    lemma_frame_decodes(ms[0], tail);
    assert(frames(ms) + rest == frame(ms[0]) + tail);
    assert((frame(ms[0]) + tail).skip(frame(ms[0]).len() as int) == tail);
}

/// How many more bytes the frame begun by `w` needs before anything more
/// can be decided: its first byte, then the rest of the two headers, then
/// the rest of the payload.
pub open spec fn wanted_spec(w: Seq<u8>) -> int {
    if w.len() == 0 {
        1
    } else if w.len() < 10 {
        10 - w.len()
    } else {
        10 + le_u64(w.subrange(1, 9)) - w.len()
    }
}

/// Where a frame read from a stream stands after some bytes were fed.
#[derive(Debug)]
pub enum Progress {
    /// No fault so far; more bytes are needed.
    Pending,
    /// The frame is complete and holds this message.
    Done(String),
    /// The bytes fed break the framing.
    Failed(ProtocolError),
}

/// Reads one frame from a stream, a chunk at a time, never asking for a byte
/// past the frame's end.
pub struct FrameReader {
    got: Vec<u8>,
}

impl View for FrameReader {
    type V = Seq<u8>;

    closed spec fn view(&self) -> Seq<u8> {
        self.got@
    }
}

impl FrameReader {
    /// The bytes fed so far begin a frame and show no fault yet.
    pub open spec fn wf(&self) -> bool {
        decode_spec(self@) == Err::<(Seq<char>, nat), ProtocolError>(ProtocolError::Truncated)
    }

    /// A reader that has been fed nothing.
    pub fn new() -> (r: FrameReader)
        ensures
            r.wf(),
            r@ == Seq::<u8>::empty(),
    {
        FrameReader { got: Vec::new() }
    }

    /// How many more bytes to read before the next decision; never zero.
    pub fn wanted(&self) -> (r: u64)
        requires
            self.wf(),
        ensures
            r == wanted_spec(self@),
            r > 0,
    {
        let len = self.got.len();
        if len == 0 {
            1
        } else if len < 10 {
            (10 - len) as u64
        } else {
            let header = copy_range(self.got.as_slice(), 1, LENGTH_PACKET_LEN);
            let n = read_le_u64(header.as_slice());
            n - (len - 10) as u64
        }
    }

    /// Whether the payload is being read (both headers are in).
    pub fn in_payload(&self) -> (r: bool)
        ensures
            r == (self@.len() >= 10),
    {
        self.got.len() >= 10
    }

    /// Takes the next `bytes` of the stream, no more than are wanted, and
    /// says what the frame now amounts to.
    pub fn feed(&mut self, bytes: &[u8]) -> (r: Progress)
        requires
            old(self).wf(),
            bytes@.len() <= wanted_spec(old(self)@),
        ensures
            final(self)@ == old(self)@ + bytes@,
            match decode_spec(old(self)@ + bytes@) {
                Ok((m, k)) => k == final(self)@.len() && (r matches Progress::Done(s) && s@ == m),
                Err(ProtocolError::Truncated) => r is Pending && final(self).wf(),
                Err(e) => r == Progress::Failed(e),
            },
    {
        let ghost before = self@;
        let mut i: usize = 0;
        while i < bytes.len()
            invariant
                0 <= i <= bytes@.len(),
                self@ == before + bytes@.subrange(0, i as int),
            decreases bytes@.len() - i,
        {
            self.got.push(bytes[i]);
            i = i + 1;
            assert(self@ == before + bytes@.subrange(0, i as int));
        }
        assert(bytes@.subrange(0, bytes@.len() as int) == bytes@);
        let len = self.got.len();
        if len == 0 {
            return Progress::Pending;
        }
        if self.got[0] != LENGTH_TAG {
            return Progress::Failed(ProtocolError::UnexpectedTag);
        }
        if len < 10 {
            return Progress::Pending;
        }
        if self.got[9] != DATA_TAG {
            return Progress::Failed(ProtocolError::UnexpectedTag);
        }
        let header = copy_range(self.got.as_slice(), 1, LENGTH_PACKET_LEN);
        let n = read_le_u64(header.as_slice());
        if ((len - 10) as u64) < n {
            return Progress::Pending;
        }
        proof {
            if before.len() >= 10 {
                assert(before.subrange(1, 9) == self@.subrange(1, 9));
            }
        }
        match decode(self.got.as_slice()) {
            Ok((m, _)) => Progress::Done(m),
            Err(e) => Progress::Failed(e),
        }
    }
}

} // verus!
