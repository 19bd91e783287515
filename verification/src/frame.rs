//! One text payload per message, behind a length prefix.
//!
//! A frame is the payload's length as a prefix, then the payload's bytes.
//! A payload is UTF-8 text of at most [`MAX_PAYLOAD`] bytes. An empty
//! payload can be written but is never read back: a reader takes it for a
//! stream that ended before the message.

use crate::varint::{
    encode_length, lemma_prefix_of_varint, lemma_prefix_stable, read_prefix, spec_prefix, varint,
    Prefix,
};
use vstd::prelude::*;
use vstd::string::StringSliceAdditionalSpecFns;
use vstd::utf8::{decode_utf8, encode_utf8, encode_utf8_decode_utf8, encode_utf8_valid_utf8, valid_utf8};

verus! {

/// Largest payload, in bytes, that a frame may carry.
pub const MAX_PAYLOAD: usize = 1_000_000;

/// Why a frame could not be written or read.
#[derive(Debug, Clone, Copy, PartialEq, Eq, Structural)]
pub enum FrameError {
    /// The stream ended before the frame did, or the frame was empty.
    UnexpectedEof,
    /// The length prefix ran past ten bytes.
    LengthOverflow,
    /// The payload is longer than [`MAX_PAYLOAD`].
    TooLarge,
    /// The payload is not UTF-8 text.
    InvalidUtf8,
}

/// The frame that carries `text`, or `TooLarge`.
pub open spec fn spec_encode(text: Seq<char>) -> Result<Seq<u8>, FrameError> {
    let payload = encode_utf8(text);
    if payload.len() > MAX_PAYLOAD {
        Err(FrameError::TooLarge)
    } else {
        Ok(varint(payload.len()) + payload)
    }
}

/// The payload bytes of the frame at the head of `input`.
///
/// The checks come in the order in which a reader meets them: the prefix,
/// the size bound, the bytes that the prefix announces, and whether there
/// are any.
pub open spec fn spec_payload(input: Seq<u8>) -> Result<Seq<u8>, FrameError> {
    match spec_prefix(input) {
        Prefix::Incomplete => Err(FrameError::UnexpectedEof),
        Prefix::Overflow => Err(FrameError::LengthOverflow),
        Prefix::Complete { value, width } => {
            if value > MAX_PAYLOAD {
                Err(FrameError::TooLarge)
            } else if input.len() - width < value {
                Err(FrameError::UnexpectedEof)
            } else if value == 0 {
                Err(FrameError::UnexpectedEof)
            } else {
                Ok(input.subrange(width as int, width + value))
            }
        },
    }
}

/// The text of the frame at the head of `input`.
pub open spec fn spec_decode(input: Seq<u8>) -> Result<Seq<char>, FrameError> {
    match spec_payload(input) {
        Err(e) => Err(e),
        Ok(payload) => {
            if valid_utf8(payload) {
                Ok(decode_utf8(payload))
            } else {
                Err(FrameError::InvalidUtf8)
            }
        },
    }
}

/// `String::from_utf8` of std: the bytes become a string exactly when they
/// are well-formed UTF-8, and the string then consists of those bytes.
#[verifier::external_body]
fn string_from_utf8(bytes: Vec<u8>) -> (r: Option<String>)
    ensures
        r is Some <==> valid_utf8(bytes@),
        r matches Some(s) ==> encode_utf8(s@) == bytes@,
{
    match String::from_utf8(bytes) {
        Ok(s) => Some(s),
        Err(_) => None,
    }
}

/// Appends `src` to `out`.
fn append_bytes(out: &mut Vec<u8>, src: &[u8])
    ensures
        final(out)@ == old(out)@ + src@,
{
    let mut i: usize = 0;
    while i < src.len()
        invariant
            i <= src.len(),
            out@ == old(out)@ + src@.subrange(0, i as int),
        decreases src.len() - i,
    {
        proof {
            assert(src@.subrange(0, i + 1) =~= src@.subrange(0, i as int).push(src@[i as int]));
        }
        out.push(src[i]);
        i = i + 1;
    }
    proof {
        assert(src@.subrange(0, i as int) =~= src@);
    }
}

/// Copies `input[from..to]` into a vector of its own.
fn copy_range(input: &[u8], from: usize, to: usize) -> (out: Vec<u8>)
    requires
        from <= to <= input.len(),
    ensures
        out@ == input@.subrange(from as int, to as int),
{
    let mut out: Vec<u8> = Vec::new();
    let mut i: usize = from;
    while i < to
        invariant
            from <= i <= to,
            to <= input.len(),
            out@ == input@.subrange(from as int, i as int),
        decreases to - i,
    {
        proof {
            assert(input@.subrange(from as int, i + 1) =~= input@.subrange(
                from as int,
                i as int,
            ).push(input@[i as int]));
        }
        out.push(input[i]);
        i = i + 1;
    }
    out
}

/// Writes the frame that carries `text`.
///
/// Fails with `TooLarge`, and writes nothing, exactly when the text takes
/// more than [`MAX_PAYLOAD`] bytes.
pub fn encode_frame(text: &str) -> (r: Result<Vec<u8>, FrameError>)
    ensures
        match r {
            Ok(frame) => spec_encode(text@) == Ok::<Seq<u8>, FrameError>(frame@),
            Err(e) => spec_encode(text@) == Err::<Seq<u8>, FrameError>(e),
        },
{
    let payload = text.as_bytes();
    if payload.len() > MAX_PAYLOAD {
        return Err(FrameError::TooLarge);
    }
    let mut frame = encode_length(payload.len());
    append_bytes(&mut frame, payload);
    Ok(frame)
}

/// Reads the payload bytes of the frame at the head of `input`. Bytes after
/// the frame are left alone.
pub fn decode_payload(input: &[u8]) -> (r: Result<Vec<u8>, FrameError>)
    ensures
        match r {
            Ok(payload) => spec_payload(input@) == Ok::<Seq<u8>, FrameError>(payload@),
            Err(e) => spec_payload(input@) == Err::<Seq<u8>, FrameError>(e),
        },
{
    match read_prefix(input) {
        Prefix::Incomplete => Err(FrameError::UnexpectedEof),
        Prefix::Overflow => Err(FrameError::LengthOverflow),
        Prefix::Complete { value, width } => {
            if value > MAX_PAYLOAD as u64 {
                return Err(FrameError::TooLarge);
            }
            let len: usize = value as usize;
            if input.len() - width < len {
                return Err(FrameError::UnexpectedEof);
            }
            if len == 0 {
                return Err(FrameError::UnexpectedEof);
            }
            Ok(copy_range(input, width, width + len))
        },
    }
}

/// Turns payload bytes into text, or fails with `InvalidUtf8`.
pub fn decode_text(payload: Vec<u8>) -> (r: Result<String, FrameError>)
    ensures
        match r {
            Ok(text) => valid_utf8(payload@) && text@ == decode_utf8(payload@),
            Err(e) => !valid_utf8(payload@) && e == FrameError::InvalidUtf8,
        },
{
    match string_from_utf8(payload) {
        Some(text) => {
            proof {
                encode_utf8_decode_utf8(text@);
            }
            Ok(text)
        },
        None => Err(FrameError::InvalidUtf8),
    }
}

/// Reads the text of the frame at the head of `input`.
pub fn decode_frame(input: &[u8]) -> (r: Result<String, FrameError>)
    ensures
        match r {
            Ok(text) => spec_decode(input@) == Ok::<Seq<char>, FrameError>(text@),
            Err(e) => spec_decode(input@) == Err::<Seq<char>, FrameError>(e),
        },
{
    match decode_payload(input) {
        Ok(payload) => decode_text(payload),
        Err(e) => Err(e),
    }
}

/// How many further bytes a reader must get before the frame at the head of
/// `input` can be decided: one while the prefix is open, then what is still
/// missing of a payload within the bound, else none.
pub open spec fn spec_wanted(input: Seq<u8>) -> nat {
    match spec_prefix(input) {
        Prefix::Incomplete => 1,
        Prefix::Overflow => 0,
        Prefix::Complete { value, width } => {
            if value <= MAX_PAYLOAD && input.len() < width + value {
                (width + value - input.len()) as nat
            } else {
                0
            }
        },
    }
}

/// Tells a reader how many bytes to fetch next. At zero the frame is
/// decided; where the stream ends before that, the frame is cut short.
pub fn bytes_wanted(input: &[u8]) -> (n: usize)
    ensures
        n == spec_wanted(input@),
{
    match read_prefix(input) {
        Prefix::Incomplete => 1,
        Prefix::Overflow => 0,
        Prefix::Complete { value, width } => {
            if value <= MAX_PAYLOAD as u64 && input.len() - width < value as usize {
                width + value as usize - input.len()
            } else {
                0
            }
        },
    }
}

/// A reader that still wants bytes and gets none has a frame cut short.
pub proof fn lemma_wanting_is_eof(input: Seq<u8>)
    requires
        spec_wanted(input) > 0,
    ensures
        spec_decode(input) == Err::<Seq<char>, FrameError>(FrameError::UnexpectedEof),
{
}

/// A reader that wants no more bytes has decided: what arrives later does
/// not change the outcome.
pub proof fn lemma_decided_is_stable(input: Seq<u8>, more: Seq<u8>)
    requires
        spec_wanted(input) == 0,
    ensures
        spec_decode(input + more) == spec_decode(input),
{
    match spec_prefix(input) {
        Prefix::Incomplete => {},
        Prefix::Overflow => {
            crate::varint::lemma_overflow_stable(input, more);
        },
        Prefix::Complete { value, width } => {
            lemma_prefix_stable(input, more);
            if value <= MAX_PAYLOAD {
                assert((input + more).subrange(width as int, width + value) =~= input.subrange(
                    width as int,
                    width + value,
                ));
            }
        },
    }
}

/// Round trip: a text that is not empty and fits a frame is read back as it
/// was written, whatever follows the frame in the stream.
pub proof fn lemma_round_trip(text: Seq<char>, rest: Seq<u8>)
    requires
        0 < encode_utf8(text).len() <= MAX_PAYLOAD,
    ensures
        spec_encode(text) is Ok,
        spec_decode(spec_encode(text)->Ok_0 + rest) == Ok::<Seq<char>, FrameError>(text),
{
    let payload = encode_utf8(text);
    let head = varint(payload.len());
    let input = head + payload + rest;
    assert(input =~= head + (payload + rest));
    lemma_prefix_of_varint(payload.len(), payload + rest);
    assert(input.subrange(head.len() as int, (head.len() + payload.len()) as int) =~= payload);
    encode_utf8_valid_utf8(text);
    encode_utf8_decode_utf8(text);
}

/// Size bound, writing: a text over the bound is refused, and nothing of it
/// is written.
pub proof fn lemma_oversize_not_written(text: Seq<char>)
    requires
        encode_utf8(text).len() > MAX_PAYLOAD,
    ensures
        spec_encode(text) == Err::<Seq<u8>, FrameError>(FrameError::TooLarge),
{
}

/// Size bound, reading: a frame that announces more than the bound is
/// refused, whatever bytes follow the prefix.
pub proof fn lemma_oversize_rejected(n: nat, rest: Seq<u8>)
    requires
        MAX_PAYLOAD < n <= u64::MAX,
    ensures
        spec_decode(varint(n) + rest) == Err::<Seq<char>, FrameError>(FrameError::TooLarge),
{
    lemma_prefix_of_varint(n, rest);
}

/// Nothing is cut short: a text that was read has between one byte and the
/// bound, and its bytes are the whole payload that the prefix announced.
pub proof fn lemma_decoded_is_whole(input: Seq<u8>)
    requires
        spec_decode(input) is Ok,
    ensures
        spec_payload(input) == Ok::<Seq<u8>, FrameError>(encode_utf8(spec_decode(input)->Ok_0)),
        0 < encode_utf8(spec_decode(input)->Ok_0).len() <= MAX_PAYLOAD,
{
    let payload = spec_payload(input)->Ok_0;
    vstd::utf8::decode_utf8_encode_utf8(payload);
}

/// A frame that the stream cut short, in its prefix or in its payload, is
/// read as a premature end.
pub proof fn lemma_truncated_is_eof(text: Seq<char>, kept: int)
    requires
        0 < encode_utf8(text).len() <= MAX_PAYLOAD,
        0 <= kept < spec_encode(text)->Ok_0.len(),
    ensures
        spec_decode(spec_encode(text)->Ok_0.subrange(0, kept)) == Err::<Seq<char>, FrameError>(
            FrameError::UnexpectedEof,
        ),
{
    let payload = encode_utf8(text);
    let head = varint(payload.len());
    let frame = head + payload;
    let cut = frame.subrange(0, kept);
    lemma_prefix_of_varint(payload.len(), payload);
    crate::varint::lemma_varint_shape(payload.len());
    if kept < head.len() {
        assert forall|i: int| 0 <= i < cut.len() implies cut[i] >= 128 by {
            assert(cut[i] == head[i]);
        }
        crate::varint::lemma_first_final_none(cut, 0);
    } else {
        let tail = payload.subrange(0, kept - head.len());
        assert(cut =~= head + tail);
        lemma_prefix_of_varint(payload.len(), tail);
    }
}

/// Bytes that follow a frame do not change what is read from it.
pub proof fn lemma_trailing_ignored(input: Seq<u8>, more: Seq<u8>)
    requires
        spec_decode(input) is Ok,
    ensures
        spec_decode(input + more) == spec_decode(input),
{
    lemma_prefix_stable(input, more);
    let p = spec_prefix(input);
    let width = p->width as int;
    let value = p->value as int;
    assert((input + more).subrange(width, width + value) =~= input.subrange(width, width + value));
}

} // verus!
