//! Framing of the binary codec: every payload travels as
//! `magic (6 bytes) || length (4 bytes, little endian) || payload`.
use vstd::prelude::*;
use vstd::bytes::{
    lemma_auto_spec_u32_to_from_le_bytes, spec_u32_from_le_bytes, spec_u32_to_le_bytes,
    u32_from_le_bytes, u32_to_le_bytes,
};

use crate::error::{RPCError, RPCErrorKind};

verus! {

/// Number of bytes of the magic tag.
pub const MAGIC_LEN: usize = 6;

/// Number of bytes of a frame header: the magic tag and the length.
pub const HEADER_LEN: usize = 10;

/// The fixed tag with which every frame starts (`ESSRPC` in ASCII).
pub open spec fn frame_magic() -> Seq<u8> {
    seq![0x45u8, 0x53u8, 0x53u8, 0x52u8, 0x50u8, 0x43u8]
}

/// The bytes of the frame that carries `payload`.
pub open spec fn frame_bytes(payload: Seq<u8>) -> Seq<u8>
    recommends
        payload.len() <= u32::MAX,
{
    frame_magic() + spec_u32_to_le_bytes(payload.len() as u32) + payload
}

/// Every byte that `input` has of the magic tag's positions matches the tag.
pub open spec fn magic_agrees(input: Seq<u8>) -> bool {
    forall|i: int| 0 <= i < input.len() && i < MAGIC_LEN ==> input[i] == #[trigger] frame_magic()[i]
}

/// The payload length that a complete header declares.
pub open spec fn declared_len(input: Seq<u8>) -> nat
    recommends
        input.len() >= HEADER_LEN,
{
    spec_u32_from_le_bytes(input.subrange(MAGIC_LEN as int, HEADER_LEN as int)) as nat
}

/// Why the frame at the start of `input` cannot be read, if it cannot: a
/// foreign or desynchronised tag is a serialization error; input that ends
/// before the header or the payload is complete is an end of stream.
pub open spec fn frame_error(input: Seq<u8>) -> Option<RPCErrorKind> {
    if !magic_agrees(input) {
        Some(RPCErrorKind::SerializationError)
    } else if input.len() < HEADER_LEN || input.len() < HEADER_LEN + declared_len(input) {
        Some(RPCErrorKind::TransportEOF)
    } else {
        None
    }
}

/// Number of bytes that the frame at the start of `input` occupies.
pub open spec fn frame_size(input: Seq<u8>) -> nat {
    (HEADER_LEN + declared_len(input)) as nat
}

/// The payload of the frame at the start of `input`.
pub open spec fn frame_payload(input: Seq<u8>) -> Seq<u8> {
    input.subrange(HEADER_LEN as int, frame_size(input) as int)
}

/// The error reported for a frame that cannot be read.
fn frame_failure(kind: RPCErrorKind) -> (r: RPCError)
    ensures
        r.spec_kind() == kind,
{
    match kind {
        RPCErrorKind::TransportEOF => RPCError::new(kind, "EOF while reading a frame"),
        _ => RPCError::new(kind, "input is not a frame: wrong magic tag"),
    }
}

/// Wraps `payload` in a frame. A payload whose length does not fit the
/// 4-byte length field is refused.
pub fn encode_frame(payload: &[u8]) -> (r: Result<Vec<u8>, RPCError>)
    ensures
        payload@.len() <= u32::MAX ==> (r matches Ok(f) && f@ == frame_bytes(payload@)),
        payload@.len() > u32::MAX ==> (r matches Err(e) && e.spec_kind()
            == RPCErrorKind::SerializationError),
{
    if payload.len() > 0xffff_ffffusize {
        return Err(RPCError::new(RPCErrorKind::SerializationError, "payload too large for a frame"));
    }
    let mut out: Vec<u8> = vec![0x45u8, 0x53u8, 0x53u8, 0x52u8, 0x50u8, 0x43u8];
    let mut len_bytes = u32_to_le_bytes(payload.len() as u32);
    out.append(&mut len_bytes);
    let ghost head = out@;
    let mut i: usize = 0;
    while i < payload.len()
        invariant
            i <= payload@.len(),
            out@ == head + payload@.subrange(0, i as int),
        decreases payload@.len() - i,
    {
        out.push(payload[i]);
        i = i + 1;
        assert(out@ =~= head + payload@.subrange(0, i as int));
    }
    assert(payload@.subrange(0, i as int) =~= payload@);
    assert(head =~= frame_magic() + spec_u32_to_le_bytes(payload@.len() as u32));
    Ok(out)
}

/// Checks the magic tag against the first bytes of `input`, as many as it has.
fn magic_matches(input: &[u8]) -> (r: bool)
    ensures
        r == magic_agrees(input@),
{
    let magic: Vec<u8> = vec![0x45u8, 0x53u8, 0x53u8, 0x52u8, 0x50u8, 0x43u8];
    assert(magic@ =~= frame_magic());
    let n: usize = if input.len() < MAGIC_LEN {
        input.len()
    } else {
        MAGIC_LEN
    };
    let mut i: usize = 0;
    while i < n
        invariant
            n <= input@.len(),
            n <= MAGIC_LEN,
            n == input@.len() || n == MAGIC_LEN,
            i <= n,
            magic@ == frame_magic(),
            forall|j: int| 0 <= j < i ==> input@[j] == #[trigger] frame_magic()[j],
        decreases n - i,
    {
        if input[i] != magic[i] {
            return false;
        }
        i = i + 1;
    }
    true
}

/// Reads the payload length declared by a frame header. `header` holds
/// the bytes received so far, at most the header's.
pub fn decode_header(header: &[u8]) -> (r: Result<usize, RPCError>)
    ensures
        !magic_agrees(header@) ==> (r matches Err(e) && e.spec_kind()
            == RPCErrorKind::SerializationError),
        magic_agrees(header@) && header@.len() < HEADER_LEN ==> (r matches Err(e)
            && e.spec_kind() == RPCErrorKind::TransportEOF),
        magic_agrees(header@) && header@.len() >= HEADER_LEN ==> r == Ok::<usize, RPCError>(
            declared_len(header@) as usize,
        ),
{
    if !magic_matches(header) {
        return Err(frame_failure(RPCErrorKind::SerializationError));
    }
    if header.len() < HEADER_LEN {
        return Err(frame_failure(RPCErrorKind::TransportEOF));
    }
    let mut len_bytes: Vec<u8> = Vec::new();
    let mut i: usize = MAGIC_LEN;
    while i < HEADER_LEN
        invariant
            MAGIC_LEN <= i <= HEADER_LEN,
            header@.len() >= HEADER_LEN,
            len_bytes@ == header@.subrange(MAGIC_LEN as int, i as int),
        decreases HEADER_LEN - i,
    {
        len_bytes.push(header[i]);
        i = i + 1;
        assert(len_bytes@ =~= header@.subrange(MAGIC_LEN as int, i as int));
    }
    let len = u32_from_le_bytes(len_bytes.as_slice());
    Ok(len as usize)
}

/// Reads the frame at the start of `input`. On success returns its payload
/// and the number of bytes the frame occupies; bytes after it are left alone.
pub fn decode_frame(input: &[u8]) -> (r: Result<(Vec<u8>, usize), RPCError>)
    ensures
        frame_error(input@) matches Some(k) ==> (r matches Err(e) && e.spec_kind() == k),
        frame_error(input@) is None ==> (r matches Ok((p, n)) && p@ == frame_payload(input@)
            && n == frame_size(input@)),
{
    let len = match decode_header(input) {
        Ok(len) => len,
        Err(e) => {
            return Err(e);
        },
    };
    if input.len() - HEADER_LEN < len {
        return Err(frame_failure(RPCErrorKind::TransportEOF));
    }
    let end: usize = HEADER_LEN + len;
    let mut payload: Vec<u8> = Vec::new();
    let mut i: usize = HEADER_LEN;
    while i < end
        invariant
            HEADER_LEN <= i <= end,
            end <= input@.len(),
            payload@ == input@.subrange(HEADER_LEN as int, i as int),
        decreases end - i,
    {
        payload.push(input[i]);
        i = i + 1;
        assert(payload@ =~= input@.subrange(HEADER_LEN as int, i as int));
    }
    Ok((payload, end))
}

/// How many more bytes the frame whose first bytes are `input` needs
/// before it is complete; none once it is.
pub open spec fn frame_needed(input: Seq<u8>) -> nat {
    if input.len() < HEADER_LEN {
        (HEADER_LEN - input.len()) as nat
    } else if input.len() < frame_size(input) {
        (frame_size(input) - input.len()) as nat
    } else {
        0
    }
}

/// Collects one frame from a byte stream: it says how many bytes to read
/// next, so that a reader never takes bytes of the frame after it.
pub struct FrameReader {
    buf: Vec<u8>,
}

impl FrameReader {
    /// The bytes of the frame received so far.
    pub closed spec fn spec_received(&self) -> Seq<u8> {
        self.buf@
    }

    /// A reader that has received nothing yet.
    pub fn new() -> (r: Self)
        ensures
            r.spec_received() == Seq::<u8>::empty(),
    {
        FrameReader { buf: Vec::new() }
    }

    /// How many more bytes the frame needs; zero once it is complete. Bytes
    /// that cannot start a frame are refused as soon as they are seen.
    pub fn needed(&self) -> (r: Result<usize, RPCError>)
        ensures
            !magic_agrees(self.spec_received()) ==> (r matches Err(e) && e.spec_kind()
                == RPCErrorKind::SerializationError),
            magic_agrees(self.spec_received()) ==> (r matches Ok(n) && n == frame_needed(
                self.spec_received(),
            )),
    {
        if !magic_matches(self.buf.as_slice()) {
            return Err(frame_failure(RPCErrorKind::SerializationError));
        }
        let have = self.buf.len();
        if have < HEADER_LEN {
            return Ok(HEADER_LEN - have);
        }
        let len = match decode_header(self.buf.as_slice()) {
            Ok(len) => len,
            Err(e) => {
                return Err(e);
            },
        };
        if have - HEADER_LEN < len {
            Ok(len - (have - HEADER_LEN))
        } else {
            Ok(0)
        }
    }

    /// Records bytes read from the stream.
    pub fn push(&mut self, bytes: &[u8])
        ensures
            final(self).spec_received() == old(self).spec_received() + bytes@,
    {
        let ghost start = self.buf@;
        let mut i: usize = 0;
        while i < bytes.len()
            invariant
                i <= bytes@.len(),
                self.buf@ == start + bytes@.subrange(0, i as int),
            decreases bytes@.len() - i,
        {
            self.buf.push(bytes[i]);
            i = i + 1;
            assert(self.buf@ =~= start + bytes@.subrange(0, i as int));
        }
        assert(bytes@.subrange(0, i as int) =~= bytes@);
    }

    /// The payload of the frame received, or why there is none: a stream
    /// that ended early is an end of stream.
    pub fn finish(&self) -> (r: Result<Vec<u8>, RPCError>)
        ensures
            frame_error(self.spec_received()) matches Some(k) ==> (r matches Err(e)
                && e.spec_kind() == k),
            frame_error(self.spec_received()) is None ==> (r matches Ok(p) && p@ == frame_payload(
                self.spec_received(),
            )),
    {
        match decode_frame(self.buf.as_slice()) {
            Ok((payload, _n)) => Ok(payload),
            Err(e) => Err(e),
        }
    }

    /// The bytes received, to be taken apart by a transport.
    pub fn received(&self) -> (r: &[u8])
        ensures
            r@ == self.spec_received(),
    {
        self.buf.as_slice()
    }
}

/// Reading exactly as many bytes as a frame reader asks for, starting from
/// nothing, collects exactly one frame: it asks for the rest of the header,
/// then for the rest of the payload, and once all are in it asks for none.
pub proof fn lemma_reader_stops_at_frame(payload: Seq<u8>, k: nat)
    requires
        payload.len() <= u32::MAX,
        k <= frame_bytes(payload).len(),
    ensures
        magic_agrees(frame_bytes(payload).take(k as int)),
        k < HEADER_LEN ==> frame_needed(frame_bytes(payload).take(k as int)) == HEADER_LEN - k,
        k >= HEADER_LEN ==> frame_needed(frame_bytes(payload).take(k as int))
            == frame_bytes(payload).len() - k,
{
    lemma_frame_header(payload, Seq::empty());
    let f = frame_bytes(payload);
    assert(f + Seq::<u8>::empty() =~= f);
    let t = f.take(k as int);
    assert forall|i: int| 0 <= i < t.len() && i < MAGIC_LEN implies t[i]
        == #[trigger] frame_magic()[i] by {
        assert(t[i] == f[i]);
        assert(f[i] == frame_magic()[i]);
    }
    if t.len() >= HEADER_LEN {
        assert(t.subrange(MAGIC_LEN as int, HEADER_LEN as int) =~= f.subrange(
            MAGIC_LEN as int,
            HEADER_LEN as int,
        ));
    }
}

/// A frame's header declares exactly its payload's length.
proof fn lemma_frame_header(payload: Seq<u8>, rest: Seq<u8>)
    requires
        payload.len() <= u32::MAX,
    ensures
        (frame_bytes(payload) + rest).len() == HEADER_LEN + payload.len() + rest.len(),
        magic_agrees(frame_bytes(payload) + rest),
        declared_len(frame_bytes(payload) + rest) == payload.len(),
{
    lemma_auto_spec_u32_to_from_le_bytes();
    let s = frame_bytes(payload) + rest;
    let l = spec_u32_to_le_bytes(payload.len() as u32);
    assert(s.subrange(MAGIC_LEN as int, HEADER_LEN as int) =~= l);
    assert forall|i: int| 0 <= i < s.len() && i < MAGIC_LEN implies s[i]
        == #[trigger] frame_magic()[i] by {
        assert(s[i] == frame_magic()[i]);
    }
}

/// Decoding a frame gives back exactly the payload that was encoded, for a
/// payload of any length that the frame can declare, and leaves whatever
/// follows the frame untouched.
pub proof fn lemma_frame_round_trip(payload: Seq<u8>, rest: Seq<u8>)
    requires
        payload.len() <= u32::MAX,
    ensures
        frame_error(frame_bytes(payload) + rest) is None,
        frame_payload(frame_bytes(payload) + rest) == payload,
        frame_size(frame_bytes(payload) + rest) == frame_bytes(payload).len(),
        (frame_bytes(payload) + rest).skip(frame_size(frame_bytes(payload) + rest) as int) == rest,
{
    lemma_frame_header(payload, rest);
    let s = frame_bytes(payload) + rest;
    assert(frame_payload(s) =~= payload);
    assert(s.skip(frame_size(s) as int) =~= rest);
}

/// A frame cut short anywhere, down to no bytes at all, reads as an end of
/// stream and never as malformed data.
pub proof fn lemma_truncated_frame_is_eof(payload: Seq<u8>, cut: nat)
    requires
        payload.len() <= u32::MAX,
        cut < frame_bytes(payload).len(),
    ensures
        frame_error(frame_bytes(payload).take(cut as int)) == Some(RPCErrorKind::TransportEOF),
{
    lemma_frame_header(payload, Seq::empty());
    let f = frame_bytes(payload);
    assert(f + Seq::<u8>::empty() =~= f);
    let t = f.take(cut as int);
    assert forall|i: int| 0 <= i < t.len() && i < MAGIC_LEN implies t[i]
        == #[trigger] frame_magic()[i] by {
        assert(t[i] == f[i]);
        assert(f[i] == frame_magic()[i]);
    }
    if t.len() >= HEADER_LEN {
        assert(t.subrange(MAGIC_LEN as int, HEADER_LEN as int) =~= f.subrange(
            MAGIC_LEN as int,
            HEADER_LEN as int,
        ));
    }
}

/// The bytes of a sequence of frames sent one after the other.
pub open spec fn frame_stream(payloads: Seq<Seq<u8>>) -> Seq<u8>
    decreases payloads.len(),
{
    if payloads.len() == 0 {
        Seq::empty()
    } else {
        frame_bytes(payloads[0]) + frame_stream(payloads.drop_first())
    }
}

/// Frames sent one after the other on one connection are read back one at
/// a time, each giving its own payload and leaving exactly the frames after
/// it; once all have been read the stream reports an end of stream.
pub proof fn lemma_frame_stream(payloads: Seq<Seq<u8>>)
    requires
        forall|i: int| 0 <= i < payloads.len() ==> (#[trigger] payloads[i]).len() <= u32::MAX,
    ensures
        payloads.len() == 0 ==> frame_error(frame_stream(payloads)) == Some(
            RPCErrorKind::TransportEOF,
        ),
        payloads.len() > 0 ==> {
            let s = frame_stream(payloads);
            &&& frame_error(s) is None
            &&& frame_payload(s) == payloads[0]
            &&& s.skip(frame_size(s) as int) == frame_stream(payloads.drop_first())
        },
{
    if payloads.len() == 0 {
        lemma_truncated_frame_is_eof(Seq::empty(), 0);
        lemma_frame_header(Seq::empty(), Seq::empty());
        assert(frame_bytes(Seq::<u8>::empty()).take(0) =~= frame_stream(payloads));
    } else {
        let p = payloads[0];
        assert(p.len() <= u32::MAX);
        lemma_frame_round_trip(p, frame_stream(payloads.drop_first()));
    }
}

} // verus!
