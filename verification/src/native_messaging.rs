//! The pipe transport: frames of a length header and a body.
//!
//! A frame is four bytes that hold the length of the body as an unsigned
//! number, in the byte order of the host, and then the body. Reading and
//! writing the pipe, and reading JSON out of a body, are the caller's part.

use crate::tracker::text_of;
use crate::websocket_server::ActivityMessage;
use vstd::prelude::*;
use vstd::slice::slice_subrange;
use vstd::string::StringSliceAdditionalSpecFns;

verus! {

/// One report of browsing activity as the pipe carries it.
#[derive(Debug, Clone, PartialEq, Eq)]
pub struct TabUpdateMessage {
    pub msg_type: String,
    pub url: String,
    pub title: String,
    pub domain: Option<String>,
    pub timestamp: i64,
}

/// The answer to one frame.
#[derive(Debug, Clone, PartialEq, Eq)]
pub struct NativeResponse {
    pub success: bool,
    pub message: Option<String>,
}

impl TabUpdateMessage {
    /// The report in the form that every transport hands to the tracker.
    pub fn into_activity(self) -> (r: crate::websocket_server::TabUpdateMessage)
        ensures
            r@ == (ActivityMessage {
                url: self.url@,
                title: self.title@,
                domain: text_of(self.domain),
                category: None,
            }),
    {
        crate::websocket_server::TabUpdateMessage {
            url: self.url,
            title: self.title,
            domain: self.domain,
            category: None,
        }
    }
}

/// The order in which the four bytes of a header hold the length.
#[derive(Debug, Clone, Copy, PartialEq, Eq, Structural)]
pub enum ByteOrder {
    /// The least significant byte comes first.
    LittleEndian,
    /// The most significant byte comes first.
    BigEndian,
}

/// Why a frame could not be read or written.
#[derive(Debug, Clone, Copy, PartialEq, Eq, Structural)]
pub enum FrameError {
    /// The input ends inside the header.
    TruncatedHeader,
    /// The input ends before the body is complete.
    TruncatedBody,
    /// The body is longer than a header can say.
    BodyTooLong,
}

/// The four bytes that hold `length` in the order `order`.
pub open spec fn header_bytes(length: u32, order: ByteOrder) -> Seq<u8> {
    let b0 = (length % 256) as u8;
    let b1 = (length / 256 % 256) as u8;
    let b2 = (length / 65536 % 256) as u8;
    let b3 = (length / 16777216) as u8;
    match order {
        ByteOrder::LittleEndian => seq![b0, b1, b2, b3],
        ByteOrder::BigEndian => seq![b3, b2, b1, b0],
    }
}

/// The length that the first four bytes of `bytes` hold in the order `order`.
pub open spec fn header_value(bytes: Seq<u8>, order: ByteOrder) -> nat {
    match order {
        ByteOrder::LittleEndian => (bytes[0] + 256 * bytes[1] + 65536 * bytes[2] + 16777216
            * bytes[3]) as nat,
        ByteOrder::BigEndian => (bytes[3] + 256 * bytes[2] + 65536 * bytes[1] + 16777216
            * bytes[0]) as nat,
    }
}

/// The frame that carries `body`.
pub open spec fn encoded(body: Seq<u8>, order: ByteOrder) -> Seq<u8>
    recommends
        body.len() <= u32::MAX,
{
    header_bytes(body.len() as u32, order) + body
}

/// What the start of `input` holds: nothing where `input` is empty, which
/// ends the session; else the body of the first frame, or the reason why
/// there is none.
pub open spec fn decoded(input: Seq<u8>, order: ByteOrder) -> Result<Option<Seq<u8>>, FrameError> {
    if input.len() == 0 {
        Ok(None)
    } else if input.len() < 4 {
        Err(FrameError::TruncatedHeader)
    } else if input.len() - 4 < header_value(input, order) {
        Err(FrameError::TruncatedBody)
    } else {
        Ok(Some(input.subrange(4, 4 + header_value(input, order) as int)))
    }
}

/// The bodies of a result, as mathematical values.
pub open spec fn body_view(r: Result<Option<Vec<u8>>, FrameError>) -> Result<
    Option<Seq<u8>>,
    FrameError,
> {
    match r {
        Ok(Some(body)) => Ok(Some(body@)),
        Ok(None) => Ok(None),
        Err(e) => Err(e),
    }
}

/// The frame of a result, as a mathematical value.
pub open spec fn frame_view(r: Result<Vec<u8>, FrameError>) -> Result<Seq<u8>, FrameError> {
    match r {
        Ok(frame) => Ok(frame@),
        Err(e) => Err(e),
    }
}

/// `u32::to_ne_bytes` returns the memory representation of the number in the
/// byte order of the host, which is the little-endian or the big-endian one.
/// Which of the two it is depends on the machine, and is not claimed.
#[verifier::external_body]
fn native_bytes(value: u32) -> (r: [u8; 4])
    ensures
        r@ == header_bytes(value, ByteOrder::LittleEndian) || r@ == header_bytes(
            value,
            ByteOrder::BigEndian,
        ),
{
    value.to_ne_bytes()
}

/// The byte order that wrote the number one as `probe`: the first byte is
/// one in the little-endian order and zero in the big-endian order.
pub fn byte_order_of(probe: &[u8; 4]) -> (r: ByteOrder)
    ensures
        r == if probe@[0] == 1 {
            ByteOrder::LittleEndian
        } else {
            ByteOrder::BigEndian
        },
        forall|order: ByteOrder| probe@ == header_bytes(1, order) ==> r == order,
{
    if probe[0] == 1 {
        ByteOrder::LittleEndian
    } else {
        ByteOrder::BigEndian
    }
}

/// The byte order of the machine that runs the program. Which of the two it
/// is depends on the machine alone, so nothing is promised of it here:
/// `byte_order_of` says how it is read from the bytes of the number one.
pub fn native_byte_order() -> ByteOrder {
    let one = native_bytes(1);
    byte_order_of(&one)
}

/// The four bytes that hold `length` in the order `order`.
pub fn encode_header(length: u32, order: ByteOrder) -> (r: [u8; 4])
    ensures
        r@ == header_bytes(length, order),
{
    let b0 = (length % 256) as u8;
    let b1 = (length / 256 % 256) as u8;
    let b2 = (length / 65536 % 256) as u8;
    let b3 = (length / 16777216) as u8;
    let r = match order {
        ByteOrder::LittleEndian => [b0, b1, b2, b3],
        ByteOrder::BigEndian => [b3, b2, b1, b0],
    };
    assert(r@ =~= header_bytes(length, order));
    r
}

/// The length that the first four bytes of `bytes` hold in the order `order`.
pub fn decode_header(bytes: &[u8], order: ByteOrder) -> (r: u32)
    requires
        bytes@.len() >= 4,
    ensures
        r == header_value(bytes@, order),
{
    let (low, second, third, high) = match order {
        ByteOrder::LittleEndian => (bytes[0], bytes[1], bytes[2], bytes[3]),
        ByteOrder::BigEndian => (bytes[3], bytes[2], bytes[1], bytes[0]),
    };
    low as u32 + 256 * (second as u32) + 65536 * (third as u32) + 16777216 * (high as u32)
}

/// What a header announces, given the bytes that could be read for it:
/// nothing where there were none, which ends the session; the length of the
/// body where there were four; an error where the input ended in between.
pub fn announced_length(header: &[u8], order: ByteOrder) -> (r: Result<Option<u32>, FrameError>)
    ensures
        header@.len() == 0 ==> r == Ok::<Option<u32>, FrameError>(None),
        0 < header@.len() < 4 ==> r == Err::<Option<u32>, FrameError>(
            FrameError::TruncatedHeader,
        ),
        header@.len() >= 4 ==> r == Ok::<Option<u32>, FrameError>(
            Some(header_value(header@, order) as u32),
        ),
{
    if header.len() == 0 {
        Ok(None)
    } else if header.len() < 4 {
        Err(FrameError::TruncatedHeader)
    } else {
        Ok(Some(decode_header(header, order)))
    }
}

/// The frame that carries `body`: its length in four bytes, then `body`.
/// Fails where the length of `body` does not fit in four bytes.
pub fn encode_frame(body: &[u8], order: ByteOrder) -> (r: Result<Vec<u8>, FrameError>)
    ensures
        body@.len() <= u32::MAX ==> frame_view(r) == Ok::<Seq<u8>, FrameError>(
            encoded(body@, order),
        ),
        body@.len() > u32::MAX ==> r == Err::<Vec<u8>, FrameError>(FrameError::BodyTooLong),
{
    if body.len() > u32::MAX as usize {
        return Err(FrameError::BodyTooLong);
    }
    let header = encode_header(body.len() as u32, order);
    let mut frame: Vec<u8> = Vec::new();
    frame.push(header[0]);
    frame.push(header[1]);
    frame.push(header[2]);
    frame.push(header[3]);
    let mut i: usize = 0;
    while i < body.len()
        invariant
            i <= body.len(),
            frame@ == header@ + body@.take(i as int),
        decreases body.len() - i,
    {
        frame.push(body[i]);
        assert(body@.take(i + 1) =~= body@.take(i as int).push(body@[i as int]));
        i = i + 1;
    }
    assert(body@.take(body.len() as int) =~= body@);
    Ok(frame)
}

/// Reads the first frame at the start of `input`. An empty input ends the
/// session and gives `None`. An input that ends inside the header or before
/// the announced length of the body is an error. What follows the frame is
/// not looked at.
pub fn decode_frame(input: &[u8], order: ByteOrder) -> (r: Result<Option<Vec<u8>>, FrameError>)
    ensures
        body_view(r) == decoded(input@, order),
{
    if input.len() == 0 {
        return Ok(None);
    }
    if input.len() < 4 {
        return Err(FrameError::TruncatedHeader);
    }
    let length = decode_header(input, order);
    if ((input.len() - 4) as u64) < length as u64 {
        return Err(FrameError::TruncatedBody);
    }
    let end: usize = 4 + length as usize;
    let body = slice_subrange(input, 4, end);
    Ok(Some(vstd::slice::slice_to_vec(body)))
}

/// Reads the first frame at the start of `input`, with the header in the
/// byte order of the host: the result is the one of `decode_frame` for that
/// order, whichever of the two the host has.
pub fn read_message(input: &[u8]) -> (r: Result<Option<Vec<u8>>, FrameError>)
    ensures
        body_view(r) == decoded(input@, ByteOrder::LittleEndian) || body_view(r) == decoded(
            input@,
            ByteOrder::BigEndian,
        ),
{
    decode_frame(input, native_byte_order())
}

/// The frame that carries the text `json`, with the header in the byte order
/// of the host: the result is the one of `encode_frame` for that order,
/// whichever of the two the host has.
pub fn write_response(json: &str) -> (r: Result<Vec<u8>, FrameError>)
    ensures
        json.spec_bytes().len() <= u32::MAX ==> (frame_view(r) == Ok::<Seq<u8>, FrameError>(
            encoded(json.spec_bytes(), ByteOrder::LittleEndian),
        ) || frame_view(r) == Ok::<Seq<u8>, FrameError>(
            encoded(json.spec_bytes(), ByteOrder::BigEndian),
        )),
        json.spec_bytes().len() > u32::MAX ==> r == Err::<Vec<u8>, FrameError>(
            FrameError::BodyTooLong,
        ),
{
    encode_frame(json.as_bytes(), native_byte_order())
}

/// A header read back in the order it was written in gives the length that
/// was written.
pub proof fn lemma_header_round_trip(length: u32, order: ByteOrder)
    ensures
        header_bytes(length, order).len() == 4,
        header_value(header_bytes(length, order), order) == length,
{
}

/// A frame read back in the order it was written in shows the header that
/// was written and gives the body that was written, byte for byte.
pub proof fn lemma_frame_round_trip(body: Seq<u8>, order: ByteOrder)
    requires
        body.len() <= u32::MAX,
    ensures
        encoded(body, order).take(4) == header_bytes(body.len() as u32, order),
        decoded(encoded(body, order), order) == Ok::<Option<Seq<u8>>, FrameError>(Some(body)),
{
    let header = header_bytes(body.len() as u32, order);
    let frame = encoded(body, order);
    lemma_header_round_trip(body.len() as u32, order);
    assert(frame.take(4) =~= header);
    assert(frame[0] == header[0] && frame[1] == header[1] && frame[2] == header[2] && frame[3]
        == header[3]);
    assert(header_value(frame, order) == body.len());
    assert(frame.subrange(4, 4 + body.len() as int) =~= body);
}

/// A frame followed by anything is read as the frame alone.
pub proof fn lemma_frame_ignores_rest(body: Seq<u8>, rest: Seq<u8>, order: ByteOrder)
    requires
        body.len() <= u32::MAX,
    ensures
        decoded(encoded(body, order) + rest, order) == Ok::<Option<Seq<u8>>, FrameError>(
            Some(body),
        ),
{
    let header = header_bytes(body.len() as u32, order);
    let input = encoded(body, order) + rest;
    lemma_header_round_trip(body.len() as u32, order);
    assert(input[0] == header[0] && input[1] == header[1] && input[2] == header[2] && input[3]
        == header[3]);
    assert(header_value(input, order) == body.len());
    assert(input.subrange(4, 4 + body.len() as int) =~= body);
}

} // verus!
