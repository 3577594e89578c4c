//! The binary codec: a call's payload is the bincode encoding of the method
//! index followed by the encodings of its parameters in declared order; a
//! response's payload is the encoding of the result. Both travel framed
//! (see [`crate::frame`]).
//!
//! Parameter and result values are encoded and decoded by the caller with
//! bincode; this module assembles, frames and takes apart the payloads.
use vstd::prelude::*;
use vstd::bytes::{
    lemma_auto_spec_u32_to_from_le_bytes, spec_u32_from_le_bytes, spec_u32_to_le_bytes,
};
use vstd::slice::slice_subrange;

use crate::error::{DecodeFailure, GenericSerializableError, RPCError, RPCErrorKind};
use crate::frame::{
    decode_frame, encode_frame, frame_bytes, frame_error, frame_payload, lemma_frame_round_trip,
};
use crate::method::{dispatch_index, MethodId, PartialMethodId};

verus! {

/// Relies on `bincode::serialize`: with its options (fixed-width integers,
/// little endian, no size limit) a `u32` is encoded as its four
/// little-endian bytes, written into a new `Vec`, which cannot fail.
#[verifier::external_body]
fn bincode_encode_u32(v: u32) -> (r: Result<Vec<u8>, String>)
    ensures
        r is Ok && r->Ok_0@ == spec_u32_to_le_bytes(v),
{
    match bincode::serialize(&v) {
        Ok(b) => Ok(b),
        Err(e) => Err(e.to_string()),
    }
}

/// Relies on `bincode::deserialize` (fixed-width integers, little endian,
/// trailing bytes allowed): a `u32` is read from the first four bytes, and
/// fewer bytes end in an I/O error of kind `UnexpectedEof`.
#[verifier::external_body]
fn bincode_decode_u32(b: &[u8]) -> (r: Result<u32, DecodeFailure>)
    ensures
        b@.len() >= 4 ==> (r is Ok && r->Ok_0 == spec_u32_from_le_bytes(b@.take(4))),
        b@.len() < 4 ==> (r is Err && r->Err_0 is Eof),
{
    match bincode::deserialize::<u32>(b) {
        Ok(v) => Ok(v),
        Err(e) => match *e {
            bincode::ErrorKind::Io(ref io) if io.kind() == std::io::ErrorKind::UnexpectedEof => Err(
                DecodeFailure::Eof,
            ),
            ref other => Err(DecodeFailure::Invalid(other.to_string())),
        },
    }
}

/// The error for a value that bincode could not encode; keeps bincode's
/// description as the cause.
pub fn encode_error(description: String) -> (r: RPCError)
    ensures
        r.spec_kind() == RPCErrorKind::SerializationError,
        r.spec_message() == "bincode serialization failure"@,
        r.spec_cause() matches Some(c) && c.spec_chain() == seq![description@],
{
    let cause = GenericSerializableError::new(description, None);
    proof {
        cause.lemma_chain_shape();
    }
    RPCError::with_cause(RPCErrorKind::SerializationError, "bincode serialization failure", cause)
}

/// The error for a value that bincode could not decode: input that ended
/// too soon is an end of stream, anything else a serialization error that
/// keeps bincode's description as the cause.
pub fn decode_error(failure: DecodeFailure) -> (r: RPCError)
    ensures
        failure is Eof ==> r.spec_kind() == RPCErrorKind::TransportEOF && r.spec_message()
            == "EOF during bincode deserialization"@ && r.spec_cause() is None,
        failure matches DecodeFailure::Invalid(d) ==> (r.spec_kind()
            == RPCErrorKind::SerializationError && r.spec_message()
            == "bincode deserialization failure"@ && (r.spec_cause() matches Some(c)
            && c.spec_chain() == seq![d@])),
{
    match failure {
        DecodeFailure::Eof => RPCError::new(
            RPCErrorKind::TransportEOF,
            "EOF during bincode deserialization",
        ),
        DecodeFailure::Invalid(d) => {
            let cause = GenericSerializableError::new(d, None);
            proof {
                cause.lemma_chain_shape();
            }
            RPCError::with_cause(
                RPCErrorKind::SerializationError,
                "bincode deserialization failure",
                cause,
            )
        },
    }
}

/// The payload of a call: the method index, then the parameters' encodings.
pub open spec fn call_payload(num: u32, params: Seq<u8>) -> Seq<u8> {
    spec_u32_to_le_bytes(num) + params
}

/// What a server reads from the start of `input`: the method index and the
/// parameters' bytes, or why it cannot. A complete frame whose payload is
/// too short to hold a method index carries no decodable method identifier:
/// a serialization error, not an end of stream.
pub open spec fn call_header(input: Seq<u8>) -> Result<(u32, Seq<u8>), RPCErrorKind> {
    match frame_error(input) {
        Some(k) => Err(k),
        None => {
            let p = frame_payload(input);
            if p.len() < 4 {
                Err(RPCErrorKind::SerializationError)
            } else {
                Ok((spec_u32_from_le_bytes(p.take(4)), p.skip(4)))
            }
        },
    }
}

/// Cursor over the bytes of a received call's parameters, which are read
/// in declared order.
pub struct VecReader {
    v: Vec<u8>,
    pos: usize,
}

impl VecReader {
    /// The bytes not yet read.
    pub closed spec fn spec_remaining(&self) -> Seq<u8> {
        self.v@.skip(self.pos as int)
    }

    /// The cursor lies within the buffer.
    pub closed spec fn wf(&self) -> bool {
        self.pos <= self.v@.len()
    }

    /// Cursor at the start of `v`.
    pub fn new(v: Vec<u8>) -> (r: Self)
        ensures
            r.wf(),
            r.spec_remaining() == v@,
    {
        let r = VecReader { v, pos: 0 };
        assert(r.v@.skip(0) =~= r.v@);
        r
    }

    /// The bytes not yet read.
    pub fn remaining(&self) -> (r: &[u8])
        requires
            self.wf(),
        ensures
            r@ == self.spec_remaining(),
    {
        let r = slice_subrange(self.v.as_slice(), self.pos, self.v.len());
        assert(r@ =~= self.spec_remaining());
        r
    }

    /// Marks the next `n` bytes as read.
    pub fn advance(&mut self, n: usize)
        requires
            old(self).wf(),
            n <= old(self).spec_remaining().len(),
        ensures
            final(self).wf(),
            final(self).spec_remaining() == old(self).spec_remaining().skip(n as int),
    {
        let limit = self.v.len();
        assert(self.pos + n <= limit);
        self.pos = self.pos + n;
        assert(self.spec_remaining() =~= old(self).spec_remaining().skip(n as int));
    }

    /// Reads up to `wanted` bytes: as many as are wanted, or all that are
    /// left if fewer; none once the input is exhausted.
    pub fn read(&mut self, wanted: usize) -> (r: Vec<u8>)
        requires
            old(self).wf(),
        ensures
            final(self).wf(),
            r@.len() == if wanted <= old(self).spec_remaining().len() {
                wanted as nat
            } else {
                old(self).spec_remaining().len()
            },
            r@ == old(self).spec_remaining().take(r@.len() as int),
            final(self).spec_remaining() == old(self).spec_remaining().skip(r@.len() as int),
    {
        let avail = self.v.len() - self.pos;
        let n = if wanted < avail {
            wanted
        } else {
            avail
        };
        let mut out: Vec<u8> = Vec::new();
        let start = self.pos;
        let mut i: usize = 0;
        while i < n
            invariant
                start == self.pos,
                self.wf(),
                self.v@.len() <= usize::MAX,
                n <= self.v@.len() - start,
                i <= n,
                out@ == self.v@.subrange(start as int, start + i),
            decreases n - i,
        {
            out.push(self.v[start + i]);
            i = i + 1;
            assert(out@ =~= self.v@.subrange(start as int, start + i));
        }
        self.pos = start + n;
        assert(out@ =~= old(self).spec_remaining().take(n as int));
        assert(self.spec_remaining() =~= old(self).spec_remaining().skip(n as int));
        out
    }
}

/// Transport over a byte channel with bincode encoding and explicit framing.
/// The transport holds the channel, which its user drives; its methods build
/// the bytes to send and take apart the bytes received.
pub struct BincodeTransport<C> {
    channel: C,
}

impl<C> BincodeTransport<C> {
    /// The underlying channel.
    pub closed spec fn spec_channel(&self) -> C {
        self.channel
    }

    /// Transport over `channel`.
    pub fn new(channel: C) -> (r: Self)
        ensures
            r.spec_channel() == channel,
    {
        BincodeTransport { channel }
    }

    /// Get the underlying read/write channel.
    pub fn channel(&self) -> (r: &C)
        ensures
            *r == self.spec_channel(),
    {
        &self.channel
    }

    /// Get the underlying channel for reading and writing.
    pub fn channel_mut(&mut self) -> (r: &mut C)
        ensures
            *r == old(self).spec_channel(),
            final(self).spec_channel() == *final(r),
    {
        &mut self.channel
    }

    /// Begins a call of `method`: the call's payload so far, its index.
    pub fn tx_begin_call(&self, method: &MethodId) -> (r: Result<Vec<u8>, RPCError>)
        ensures
            r matches Ok(s) && s@ == call_payload(method.num, Seq::empty()),
    {
        match bincode_encode_u32(method.num) {
            Ok(state) => {
                assert(state@ =~= call_payload(method.num, Seq::empty()));
                Ok(state)
            },
            Err(d) => Err(encode_error(d)),
        }
    }

    /// Adds a parameter, given as its bincode encoding, to a call begun with
    /// [`Self::tx_begin_call`]. Parameters go positionally: the name is not
    /// sent.
    pub fn tx_add_param(&self, name: &str, encoded: &[u8], state: &mut Vec<u8>)
        ensures
            final(state)@ == old(state)@ + encoded@,
    {
        let ghost start = state@;
        let mut i: usize = 0;
        while i < encoded.len()
            invariant
                i <= encoded@.len(),
                state@ == start + encoded@.subrange(0, i as int),
            decreases encoded@.len() - i,
        {
            state.push(encoded[i]);
            i = i + 1;
            assert(state@ =~= start + encoded@.subrange(0, i as int));
        }
        assert(encoded@.subrange(0, i as int) =~= encoded@);
    }

    /// Finishes a call: the bytes to write to the channel, the payload framed.
    pub fn tx_finalize(&self, state: Vec<u8>) -> (r: Result<Vec<u8>, RPCError>)
        ensures
            state@.len() <= u32::MAX ==> (r matches Ok(f) && f@ == frame_bytes(state@)),
            state@.len() > u32::MAX ==> (r matches Err(e) && e.spec_kind()
                == RPCErrorKind::SerializationError),
    {
        encode_frame(state.as_slice())
    }

    /// Takes apart a response read from the channel: the bincode encoding of
    /// the result, which is the frame's payload.
    pub fn rx_response(&self, input: &[u8]) -> (r: Result<Vec<u8>, RPCError>)
        ensures
            frame_error(input@) matches Some(k) ==> (r matches Err(e) && e.spec_kind() == k),
            frame_error(input@) is None ==> (r matches Ok(p) && p@ == frame_payload(input@)),
    {
        match decode_frame(input) {
            Ok((payload, _n)) => Ok(payload),
            Err(e) => Err(e),
        }
    }

    /// Begins reading a call from the bytes read from the channel: the
    /// method's index and a cursor over the parameters' bytes.
    pub fn rx_begin_call(&self, input: &[u8]) -> (r: Result<(PartialMethodId, VecReader), RPCError>)
        ensures
            call_header(input@) matches Err(k) ==> (r matches Err(e) && e.spec_kind() == k),
            call_header(input@) matches Ok((n, rest)) ==> (r matches Ok((id, rd)) && id
                == PartialMethodId::Num(n) && rd.wf() && rd.spec_remaining() == rest),
    {
        let payload = match decode_frame(input) {
            Ok((payload, _n)) => payload,
            Err(e) => {
                return Err(e);
            },
        };
        let num = match bincode_decode_u32(payload.as_slice()) {
            Ok(num) => num,
            Err(DecodeFailure::Eof) => {
                return Err(
                    RPCError::new(
                        RPCErrorKind::SerializationError,
                        "call payload too short for a method index",
                    ),
                );
            },
            Err(f) => {
                return Err(decode_error(f));
            },
        };
        let mut reader = VecReader::new(payload);
        reader.advance(4);
        Ok((PartialMethodId::Num(num), reader))
    }

    /// Frames a response, given as the bincode encoding of the result: the
    /// bytes to write to the channel.
    pub fn tx_response(&self, encoded: &[u8]) -> (r: Result<Vec<u8>, RPCError>)
        ensures
            encoded@.len() <= u32::MAX ==> (r matches Ok(f) && f@ == frame_bytes(encoded@)),
            encoded@.len() > u32::MAX ==> (r matches Err(e) && e.spec_kind()
                == RPCErrorKind::SerializationError),
    {
        encode_frame(encoded)
    }
}

/// A call read back by the server gives the method index and the
/// parameters' bytes exactly as the client wrote them.
pub proof fn lemma_call_round_trip(num: u32, params: Seq<u8>)
    requires
        call_payload(num, params).len() <= u32::MAX,
    ensures
        call_header(frame_bytes(call_payload(num, params))) == Ok::<
            (u32, Seq<u8>),
            RPCErrorKind,
        >((num, params)),
{
    lemma_auto_spec_u32_to_from_le_bytes();
    let p = call_payload(num, params);
    let f = frame_bytes(p);
    lemma_frame_round_trip(p, Seq::empty());
    assert(f + Seq::<u8>::empty() =~= f);
    assert(p.take(4) =~= spec_u32_to_le_bytes(num));
    assert(p.skip(4) =~= params);
}

/// A response reaches the client as exactly the bytes the server encoded,
/// whether they encode a success or an application's error: the payload is
/// not looked into.
pub proof fn lemma_response_round_trip(encoded: Seq<u8>)
    requires
        encoded.len() <= u32::MAX,
    ensures
        frame_error(frame_bytes(encoded)) is None,
        frame_payload(frame_bytes(encoded)) == encoded,
{
    lemma_frame_round_trip(encoded, Seq::empty());
    assert(frame_bytes(encoded) + Seq::<u8>::empty() =~= frame_bytes(encoded));
}

/// A well-formed call whose method index no declared method has is read
/// without fault and then refused as an unknown method, never taken for
/// malformed data.
pub proof fn lemma_unknown_index(names: Seq<Seq<char>>, num: u32, params: Seq<u8>)
    requires
        call_payload(num, params).len() <= u32::MAX,
        num >= names.len(),
    ensures
        call_header(frame_bytes(call_payload(num, params))) matches Ok((n, _)) && n == num
            && dispatch_index(names, PartialMethodId::Num(n)) is None,
{
    lemma_call_round_trip(num, params);
}

} // verus!
