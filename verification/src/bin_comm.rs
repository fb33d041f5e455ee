//! Frames of the binary protocol: a length of four bytes, most significant
//! first, and then that many bytes of payload.

use vstd::prelude::*;
use vstd::slice::{slice_subrange, slice_to_vec};
use crate::wire::Wire;

verus! {

/// Why a frame could not be written or read.
#[derive(Debug, Clone, Copy, PartialEq, Eq, Structural)]
pub enum FrameError {
    /// The stream ends before the four bytes of the length.
    ShortLength,
    /// The stream ends before the payload that the length announces.
    ShortPayload,
    /// The payload is longer than a length of four bytes can say.
    TooLong,
    /// The payload is no encoding of the message that is expected.
    Malformed,
}

/// The four bytes that write `n`, most significant first.
pub open spec fn be32(n: int) -> Seq<u8> {
    seq![
        (n / 0x1000000) as u8,
        ((n / 0x10000) % 0x100) as u8,
        ((n / 0x100) % 0x100) as u8,
        (n % 0x100) as u8,
    ]
}

/// The number that the first four bytes of `b` write, most significant first.
pub open spec fn be32_value(b: Seq<u8>) -> int {
    b[0] * 0x1000000 + b[1] * 0x10000 + b[2] * 0x100 + b[3]
}

/// A payload as it stands on the wire.
pub open spec fn framed(payload: Seq<u8>) -> Seq<u8> {
    be32(payload.len() as int) + payload
}

/// The payload of the frame that `stream` starts with, and the number of
/// bytes that the frame takes.
pub open spec fn unframed(stream: Seq<u8>) -> Result<(Seq<u8>, int), FrameError> {
    if stream.len() < 4 {
        Err(FrameError::ShortLength)
    } else if stream.len() < 4 + be32_value(stream) {
        Err(FrameError::ShortPayload)
    } else {
        Ok((stream.subrange(4, 4 + be32_value(stream)), 4 + be32_value(stream)))
    }
}

/// Reading the length that was written gives the number back.
pub proof fn lemma_be32_round_trip(n: int)
    requires
        0 <= n <= 0xffff_ffff,
    ensures
        be32(n).len() == 4,
        be32_value(be32(n)) == n,
{
}

/// A frame that was written is read back as it was, whatever follows it on
/// the stream.
pub proof fn lemma_frame_round_trip(payload: Seq<u8>, rest: Seq<u8>)
    requires
        payload.len() <= 0xffff_ffff,
    ensures
        unframed(framed(payload) + rest) == Ok::<(Seq<u8>, int), FrameError>(
            (payload, 4 + payload.len() as int),
        ),
{
    let n = payload.len() as int;
    let s = framed(payload) + rest;
    lemma_be32_round_trip(n);
    assert(s[0] == be32(n)[0]);
    assert(s[1] == be32(n)[1]);
    assert(s[2] == be32(n)[2]);
    assert(s[3] == be32(n)[3]);
    assert(be32_value(s) == n);
    assert(s.subrange(4, 4 + n) =~= payload);
}

/// Writes `buf` to `stream` as one frame.
///
/// Fails, and leaves the stream as it is, where `buf` is too long for a
/// length of four bytes.
pub fn write_length_prefix(stream: &mut Vec<u8>, buf: &[u8]) -> (r: Result<(), FrameError>)
    ensures
        match r {
            Ok(_) => buf@.len() <= 0xffff_ffff && final(stream)@ == old(stream)@ + framed(buf@),
            Err(e) => e == FrameError::TooLong && buf@.len() > 0xffff_ffff
                && final(stream)@ == old(stream)@,
        },
{
    let n = buf.len();
    if n > 0xffff_ffff {
        return Err(FrameError::TooLong);
    }
    let ghost before = stream@;
    stream.push((n / 0x1000000) as u8);
    stream.push(((n / 0x10000) % 0x100) as u8);
    stream.push(((n / 0x100) % 0x100) as u8);
    stream.push((n % 0x100) as u8);
    assert(stream@ =~= before + be32(n as int));
    stream.extend_from_slice(buf);
    assert(stream@ =~= before + framed(buf@));
    Ok(())
}

/// Reads the frame that `stream` starts with: its payload, and the number of
/// bytes that the frame takes.
///
/// Fails where the stream ends inside the length or inside the payload.
pub fn receive_length_prefix(stream: &[u8]) -> (r: Result<(Vec<u8>, usize), FrameError>)
    ensures
        match unframed(stream@) {
            Ok((payload, taken)) => r matches Ok((buf, n)) && buf@ == payload && n == taken,
            Err(e) => r matches Err(err) && err == e,
        },
{
    if stream.len() < 4 {
        return Err(FrameError::ShortLength);
    }
    let length: u64 = (stream[0] as u64) * 0x1000000 + (stream[1] as u64) * 0x10000 + (
    stream[2] as u64) * 0x100 + (stream[3] as u64);
    if ((stream.len() - 4) as u64) < length {
        return Err(FrameError::ShortPayload);
    }
    let end: usize = 4 + length as usize;
    let buf = slice_to_vec(slice_subrange(stream, 4, end));
    Ok((buf, end))
}

/// What reading a message from `stream` gives: the message that the payload
/// of its first frame says and the number of bytes that the frame takes, or
/// the reason why there is none.
pub open spec fn struct_read<T: Wire>(stream: Seq<u8>) -> Result<(T::V, int), FrameError> {
    match unframed(stream) {
        Err(e) => Err(e),
        Ok((payload, taken)) => match T::decoded(payload) {
            Some(v) => Ok((v, taken)),
            None => Err(FrameError::Malformed),
        },
    }
}

/// Writes `data` to `stream` as one frame.
///
/// Fails, and leaves the stream as it is, where the encoding of `data` is too
/// long for a frame.
pub fn write_struct<T: Wire>(stream: &mut Vec<u8>, data: &T) -> (r: Result<(), FrameError>)
    ensures
        match r {
            Ok(_) => T::encoded(data@).len() <= 0xffff_ffff && final(stream)@ == old(stream)@
                + framed(T::encoded(data@)),
            Err(e) => e == FrameError::TooLong && T::encoded(data@).len() > 0xffff_ffff
                && final(stream)@ == old(stream)@,
        },
{
    let payload = data.encode();
    write_length_prefix(stream, payload.as_slice())
}

/// Reads the message that `stream` starts with, and says how many bytes it
/// took.
///
/// Fails where the stream ends inside the frame, and where the payload of
/// the frame is no encoding of a message of this type.
pub fn read_struct<T: Wire>(stream: &[u8]) -> (r: Result<(T, usize), FrameError>)
    ensures
        match struct_read::<T>(stream@) {
            Ok((v, taken)) => r matches Ok((m, n)) && m@ == v && n == taken,
            Err(e) => r matches Err(err) && err == e,
        },
{
    let (payload, taken) = match receive_length_prefix(stream) {
        Ok(f) => f,
        Err(e) => {
            return Err(e);
        },
    };
    match T::decode(payload.as_slice()) {
        Some(m) => Ok((m, taken)),
        None => Err(FrameError::Malformed),
    }
}

/// A message that was written to a stream is read back exactly as it was,
/// whatever follows it on the stream. This holds of every kind of message of
/// both directions, as long as its encoding fits a frame.
pub proof fn lemma_struct_round_trip<T: Wire>(v: T::V, rest: Seq<u8>)
    requires
        T::encoded(v).len() <= 0xffff_ffff,
    ensures
        struct_read::<T>(framed(T::encoded(v)) + rest) == Ok::<(T::V, int), FrameError>(
            (v, 4 + T::encoded(v).len() as int),
        ),
{
    lemma_frame_round_trip(T::encoded(v), rest);
    T::round_trip(v);
}

} // verus!
