//! Framing: one byte of flags, the length of the payload in four bytes, most
//! significant first, and the payload.
use crate::client::CursorClient;
use crate::error::CursorError;
use crate::gzip::{gzip_decoded, gzip_encoded};
use vstd::prelude::*;
use vstd::slice::*;

verus! {

/// The flag of a payload that is compressed.
pub const COMPRESSED_FLAG: u8 = 0x01;

/// The flag of the last message of a stream.
pub const END_OF_STREAM_FLAG: u8 = 0x02;

/// A message cut off the front of a stream, and what is left of the stream.
#[verifier::ext_equal]
pub struct FrameView {
    pub flags: u8,
    pub payload: Seq<u8>,
    pub rest: Seq<u8>,
}

/// The number that four bytes spell, most significant first.
pub open spec fn be_number(b: Seq<u8>) -> nat {
    (b[0] * 0x100_0000 + b[1] * 0x1_0000 + b[2] * 0x100 + b[3]) as nat
}

/// The low 32 bits of a length, most significant byte first.
pub open spec fn length_prefix(n: nat) -> Seq<u8> {
    seq![
        (n / 0x100_0000 % 0x100) as u8,
        (n / 0x1_0000 % 0x100) as u8,
        (n / 0x100 % 0x100) as u8,
        (n % 0x100) as u8,
    ]
}

/// A payload behind its flags and its length.
pub open spec fn framed(flags: u8, payload: Seq<u8>) -> Seq<u8> {
    seq![flags] + length_prefix(payload.len()) + payload
}

/// The first message of a stream, where the stream holds all of it.
pub open spec fn first_frame(data: Seq<u8>) -> Option<FrameView> {
    if data.len() < 5 {
        None
    } else {
        let n = be_number(data.subrange(1, 5));
        if data.len() < 5 + n {
            None
        } else {
            Some(
                FrameView {
                    flags: data[0],
                    payload: data.subrange(5, 5 + n as int),
                    rest: data.skip(5 + n as int),
                },
            )
        }
    }
}

/// Whether the flags say that the payload is compressed.
pub open spec fn is_compressed(flags: u8) -> bool {
    flags & COMPRESSED_FLAG != 0
}

/// Whether the flags mark the end of the stream.
pub open spec fn is_end_marker(flags: u8) -> bool {
    flags & END_OF_STREAM_FLAG != 0
}

/// The message in a payload: decompressed where the flags ask for it; `None` where
/// that fails.
pub open spec fn message_bytes(flags: u8, payload: Seq<u8>) -> Option<Seq<u8>> {
    if is_compressed(flags) {
        gzip_decoded(payload)
    } else {
        Some(payload)
    }
}

/// Reading a length back from its prefix.
proof fn lemma_length_prefix(n: nat)
    requires
        n <= u32::MAX,
    ensures
        be_number(length_prefix(n)) == n,
        length_prefix(n).len() == 4,
{
}

/// The prefix of the number that four bytes spell is those four bytes.
proof fn lemma_be_number(b: Seq<u8>)
    requires
        b.len() == 4,
    ensures
        length_prefix(be_number(b)) == b,
        be_number(b) <= u32::MAX,
{
    let n = be_number(b);
    assert(n / 0x100_0000 == b[0]);
    assert(n / 0x1_0000 == b[0] * 0x100 + b[1]);
    assert(n / 0x100 == b[0] * 0x1_0000 + b[1] * 0x100 + b[2]);
    assert((b[0] * 0x100 + b[1]) % 0x100 == b[1]);
    assert((b[0] * 0x1_0000 + b[1] * 0x100 + b[2]) % 0x100 == b[2]);
    assert(n % 0x100 == b[3]);
    assert(length_prefix(n) =~= b);
}

/// A framed payload of less than 4 GiB, whatever follows it, is read back as it was
/// framed: the flags, the payload, and what follows.
pub proof fn law_frame_round_trip(flags: u8, payload: Seq<u8>, rest: Seq<u8>)
    requires
        payload.len() <= u32::MAX,
    ensures
        first_frame(framed(flags, payload) + rest) == Some(FrameView { flags, payload, rest }),
{
    let data = framed(flags, payload) + rest;
    lemma_length_prefix(payload.len());
    assert(data.subrange(1, 5) =~= length_prefix(payload.len()));
    assert(data.subrange(5, 5 + payload.len() as int) =~= payload);
    assert(data.skip(5 + payload.len() as int) =~= rest);
}

/// A message cut off a stream is the stream's front: framed again and put before
/// what is left, it gives the stream back.
pub proof fn law_frame_reassembles(data: Seq<u8>)
    ensures
        first_frame(data) matches Some(frame) ==> {
            &&& frame.payload.len() <= u32::MAX
            &&& framed(frame.flags, frame.payload) + frame.rest == data
            &&& frame.rest.len() + 5 + frame.payload.len() == data.len()
        },
{
    if first_frame(data) is Some {
        let frame = first_frame(data)->0;
        let b = data.subrange(1, 5);
        lemma_be_number(b);
        assert(framed(frame.flags, frame.payload) + frame.rest =~= data);
    }
}

/// The four bytes of a prefix spell the low 32 bits of the length.
proof fn lemma_low_bits(n: nat)
    ensures
        (n / 0x100_0000 % 0x100) * 0x100_0000 + (n / 0x1_0000 % 0x100) * 0x1_0000 + (n / 0x100
            % 0x100) * 0x100 + n % 0x100 == n % 0x1_0000_0000,
{
    let one = n / 0x100;
    let two = one / 0x100;
    let three = two / 0x100;
    let four = three / 0x100;
    assert(n / 0x1_0000 == two);
    assert(n / 0x100_0000 == three);
    let low = (three % 0x100) * 0x100_0000 + (two % 0x100) * 0x1_0000 + (one % 0x100) * 0x100 + n
        % 0x100;
    assert(n == four * 0x1_0000_0000 + low);
    assert(0 <= low < 0x1_0000_0000);
    assert(n % 0x1_0000_0000 == low);
}

/// A frame opens with the flags, then spells the low 32 bits of the length of the payload
/// in four bytes, most significant first, and then holds the payload.
pub proof fn law_frame_bytes(flags: u8, payload: Seq<u8>)
    ensures
        ({
            let f = framed(flags, payload);
            &&& f.len() == 5 + payload.len()
            &&& f[0] == flags
            &&& f[1] * 0x100_0000 + f[2] * 0x1_0000 + f[3] * 0x100 + f[4] == payload.len()
                % 0x1_0000_0000
            &&& forall|i: int| 0 <= i < payload.len() ==> #[trigger] f[5 + i] == payload[i]
            &&& f.skip(5) == payload
        }),
{
    let f = framed(flags, payload);
    lemma_low_bits(payload.len());
    assert(length_prefix(payload.len()).len() == 4);
    assert(f.skip(5) =~= payload);
    assert(f[1] == length_prefix(payload.len())[0]);
    assert(f[2] == length_prefix(payload.len())[1]);
    assert(f[3] == length_prefix(payload.len())[2]);
    assert(f[4] == length_prefix(payload.len())[3]);
}

/// A stream of less than five bytes, or of fewer than its second to fifth byte announce,
/// holds no message; else its first byte is the flags, the payload is what was announced,
/// and the rest is left.
pub proof fn law_first_frame(data: Seq<u8>)
    ensures
        data.len() < 5 ==> first_frame(data) is None,
        data.len() >= 5 ==> {
            let n = data[1] * 0x100_0000 + data[2] * 0x1_0000 + data[3] * 0x100 + data[4];
            &&& first_frame(data) is Some <==> data.len() >= 5 + n
            &&& first_frame(data) matches Some(frame) ==> {
                &&& frame.flags == data[0]
                &&& frame.payload == data.subrange(5, 5 + n)
                &&& frame.rest == data.skip(5 + n)
            }
        },
{
    if data.len() >= 5 {
        let b = data.subrange(1, 5);
        assert(b[0] == data[1] && b[1] == data[2] && b[2] == data[3] && b[3] == data[4]);
    }
}

/// The lowest bit of the flags says whether a payload is compressed, and no other bit has
/// a say in it.
pub proof fn law_message_bytes(flags: u8, payload: Seq<u8>)
    ensures
        flags & 0x01 == 0 ==> message_bytes(flags, payload) == Some(payload),
        flags & 0x01 != 0 ==> message_bytes(flags, payload) == gzip_decoded(payload),
        is_end_marker(flags) <==> flags & 0x02 != 0,
{
}

/// The flags of a request's envelope say that it is compressed and do not mark an
/// end.
proof fn lemma_request_flags()
    ensures
        is_compressed(COMPRESSED_FLAG),
        !is_end_marker(COMPRESSED_FLAG),
{
    assert(0x01u8 & 0x01u8 != 0 && 0x01u8 & 0x02u8 == 0) by (bit_vector);
}

/// Puts a payload behind its flags and its length.
pub fn frame(flags: u8, payload: &[u8]) -> (envelope: Vec<u8>)
    ensures
        envelope@ == framed(flags, payload@),
        envelope@.len() == 5 + payload@.len(),
        envelope@[0] == flags,
        envelope@[1] * 0x100_0000 + envelope@[2] * 0x1_0000 + envelope@[3] * 0x100 + envelope@[4]
            == payload@.len() % 0x1_0000_0000,
        envelope@.skip(5) == payload@,
{
    proof {
        law_frame_bytes(flags, payload@);
    }
    let n: usize = payload.len();
    let mut envelope: Vec<u8> = Vec::new();
    envelope.push(flags);
    envelope.push((n / 0x100_0000 % 0x100) as u8);
    envelope.push((n / 0x1_0000 % 0x100) as u8);
    envelope.push((n / 0x100 % 0x100) as u8);
    envelope.push((n % 0x100) as u8);
    let ghost head = envelope@;
    assert(head =~= seq![flags] + length_prefix(payload@.len()));
    envelope.extend_from_slice(payload);
    assert(envelope@ =~= head + payload@);
    envelope
}

/// Cuts the first message off a stream: its flags, its payload, and what is left.
/// `None` where the stream does not hold all of it.
pub fn split_frame<'a>(data: &'a [u8]) -> (result: Option<(u8, &'a [u8], &'a [u8])>)
    ensures
        match result {
            Some((flags, payload, rest)) => first_frame(data@) == Some(
                FrameView { flags, payload: payload@, rest: rest@ },
            ),
            None => first_frame(data@) is None,
        },
{
    if data.len() < 5 {
        return None;
    }
    let flags: u8 = data[0];
    let n: u32 = data[1] as u32 * 0x100_0000 + data[2] as u32 * 0x1_0000 + data[3] as u32 * 0x100
        + data[4] as u32;
    let n: usize = n as usize;
    proof {
        let b = data@.subrange(1, 5);
        assert(b[0] == data@[1] && b[1] == data@[2] && b[2] == data@[3] && b[3] == data@[4]);
        assert(n == be_number(b));
    }
    if data.len() - 5 < n {
        return None;
    }
    let payload: &'a [u8] = slice_subrange(data, 5, 5 + n);
    let rest: &'a [u8] = slice_subrange(data, 5 + n, data.len());
    assert(rest@ =~= data@.skip(5 + n as int));
    Some((flags, payload, rest))
}

/// The message in a payload, decompressed where the flags ask for it.
pub fn open_payload(flags: u8, payload: &[u8]) -> (result: Result<Vec<u8>, CursorError>)
    ensures
        match result {
            Ok(bytes) => message_bytes(flags, payload@) == Some(bytes@),
            Err(error) => message_bytes(flags, payload@) is None && error is Decompress,
        },
{
    if flags & COMPRESSED_FLAG != 0 {
        CursorClient::decompress_protobuf(payload)
    } else {
        Ok(slice_to_vec(payload))
    }
}

/// Compresses an encoded message and frames it for the wire. An envelope whose
/// payload is shorter than 4 GiB holds, read as a stream, just this message.
pub fn seal(serialized: &[u8]) -> (result: Result<Vec<u8>, CursorError>)
    ensures
        result matches Ok(envelope) && {
            &&& envelope@ == framed(COMPRESSED_FLAG, gzip_encoded(serialized@))
            &&& envelope@[0] == 0x01
            &&& envelope@.skip(5) == gzip_encoded(serialized@)
            &&& envelope@.len() <= 5 + u32::MAX ==> {
                &&& first_frame(envelope@) matches Some(frame)
                &&& frame.rest.len() == 0
                &&& message_bytes(frame.flags, frame.payload) == Some(serialized@)
            }
        },
{
    let compressed = match CursorClient::compress_protobuf(serialized) {
        Ok(compressed) => compressed,
        Err(error) => {
            return Err(error);
        },
    };
    let envelope = frame(COMPRESSED_FLAG, compressed.as_slice());
    proof {
        lemma_request_flags();
        law_frame_bytes(COMPRESSED_FLAG, compressed@);
        if envelope@.len() <= 5 + u32::MAX {
            law_frame_round_trip(COMPRESSED_FLAG, compressed@, Seq::empty());
            assert(framed(COMPRESSED_FLAG, compressed@) + Seq::<u8>::empty() =~= envelope@);
        }
    }
    Ok(envelope)
}

} // verus!
