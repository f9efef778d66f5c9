//! The frame codec: the four kinds of frame a connection deals in, and how
//! they are written to and read from the bytes on the wire.

use vstd::prelude::*;
use vstd::slice::slice_to_vec;
use vstd::utf8::encode_utf8;

verus! {

/// A frame of the viewer protocol.
#[derive(Debug, PartialEq, Eq)]
pub enum Frame {
    /// A data frame that carries content as UTF-8 text.
    Text(Vec<u8>),
    /// A keep-alive request; the payload comes back in the pong.
    Ping(Vec<u8>),
    /// The answer to a ping.
    Pong(Vec<u8>),
    /// The request, or the agreement, to close the connection.
    Close,
}

/// A frame as a mathematical value.
pub enum FrameView {
    Text(Seq<u8>),
    Ping(Seq<u8>),
    Pong(Seq<u8>),
    Close,
}

impl View for Frame {
    type V = FrameView;

    open spec fn view(&self) -> FrameView {
        match self {
            Frame::Text(payload) => FrameView::Text(payload@),
            Frame::Ping(payload) => FrameView::Ping(payload@),
            Frame::Pong(payload) => FrameView::Pong(payload@),
            Frame::Close => FrameView::Close,
        }
    }
}

/// The opcode of text frames.
pub const OPCODE_TEXT: u8 = 1;

/// The opcode of close frames.
pub const OPCODE_CLOSE: u8 = 8;

/// The opcode of ping frames.
pub const OPCODE_PING: u8 = 9;

/// The opcode of pong frames.
pub const OPCODE_PONG: u8 = 10;

/// The longest payload a control frame (close, ping, pong) may carry.
pub const MAX_CONTROL_PAYLOAD: usize = 125;

impl FrameView {
    /// The opcode that stands for this kind of frame on the wire.
    pub open spec fn opcode(self) -> u8 {
        match self {
            FrameView::Text(_) => OPCODE_TEXT,
            FrameView::Ping(_) => OPCODE_PING,
            FrameView::Pong(_) => OPCODE_PONG,
            FrameView::Close => OPCODE_CLOSE,
        }
    }

    /// The payload of the frame; a close frame has none.
    pub open spec fn payload(self) -> Seq<u8> {
        match self {
            FrameView::Text(payload) => payload,
            FrameView::Ping(payload) => payload,
            FrameView::Pong(payload) => payload,
            FrameView::Close => Seq::empty(),
        }
    }

    /// Whether the frame can be put on the wire: a control frame with a
    /// payload over the limit cannot.
    pub open spec fn encodable(self) -> bool {
        self is Text || self.payload().len() <= MAX_CONTROL_PAYLOAD
    }
}

/// The `width` low bytes of `value`, most significant first.
pub open spec fn big_endian(value: nat, width: nat) -> Seq<u8>
    decreases width,
{
    if width == 0 {
        Seq::empty()
    } else {
        big_endian(value / 256, (width - 1) as nat).push((value % 256) as u8)
    }
}

/// The length field of an unmasked frame whose payload has `len` bytes.
pub open spec fn length_field(len: nat) -> Seq<u8> {
    if len <= 125 {
        seq![len as u8]
    } else if len <= 65535 {
        seq![126u8] + big_endian(len, 2)
    } else {
        seq![127u8] + big_endian(len, 8)
    }
}

/// The bytes of a final, unmasked frame with the given opcode and payload.
pub open spec fn wire_bytes(opcode: u8, payload: Seq<u8>) -> Seq<u8> {
    seq![(128 + opcode) as u8] + length_field(payload.len()) + payload
}

/// A frame as the wire parser hands it over, before it is classified.
#[derive(Debug, PartialEq, Eq)]
pub struct RawFrame {
    /// Whether this frame ends its message.
    pub finished: bool,
    /// The three reserved bits of the header.
    pub rsv1: bool,
    pub rsv2: bool,
    pub rsv3: bool,
    /// The opcode, below 16.
    pub opcode: u8,
    /// The payload, unmasked.
    pub payload: Vec<u8>,
}

/// A raw frame as a mathematical value.
pub struct RawFrameView {
    pub finished: bool,
    pub rsv1: bool,
    pub rsv2: bool,
    pub rsv3: bool,
    pub opcode: u8,
    pub payload: Seq<u8>,
}

impl View for RawFrame {
    type V = RawFrameView;

    open spec fn view(&self) -> RawFrameView {
        RawFrameView {
            finished: self.finished,
            rsv1: self.rsv1,
            rsv2: self.rsv2,
            rsv3: self.rsv3,
            opcode: self.opcode,
            payload: self.payload@,
        }
    }
}

/// Why the wire parser gave no frame.
#[derive(Clone, Copy, Debug, PartialEq, Eq, Structural)]
pub enum RawError {
    /// The bytes end before the frame does.
    Incomplete,
    /// The header announces a payload over the limit.
    TooLong,
    /// The bytes are not a frame that a client may send.
    Invalid,
}

/// Why a frame was not decoded.
#[derive(Clone, Copy, Debug, PartialEq, Eq, Structural)]
pub enum DecodeError {
    /// The bytes are not a frame that a client may send.
    Malformed,
    /// The header announces a payload over the limit.
    Oversized,
    /// A reserved bit is set, and no extension was agreed on.
    ReservedBits,
    /// The frame is one fragment of a longer message.
    Fragmented,
    /// The opcode is none of text, close, ping and pong.
    Unrecognized(u8),
}

/// What the parser of the websocket crate makes of `bytes`, read as one
/// masked frame with a payload of at most `limit` bytes: the frame and the
/// number of bytes left behind it, or the reason why there is none.
pub uninterp spec fn wire_parse(bytes: Seq<u8>, limit: nat) -> Result<(RawFrameView, nat), RawError>;

/// The outcome of a parse with the unread rest given by its length.
pub open spec fn parse_view(outcome: Result<(RawFrame, &[u8]), RawError>) -> Result<
    (RawFrameView, nat),
    RawError,
> {
    match outcome {
        Ok((raw, rest)) => Ok((raw@, rest@.len())),
        Err(e) => Err(e),
    }
}

/// Calls `websocket::dataframe::DataFrame::read_dataframe_with_limit` on
/// `bytes`, asking for a masked frame.
///
/// Trusted: the outcome is a function of the bytes and the limit, named
/// `wire_parse`. The parser's errors are told apart by their kind: no data
/// available stands for bytes that end too early; an input/output error,
/// which a slice gives rise to only through the check of the limit, for a
/// payload that is too long; every other error for bytes that are no
/// frame. Of a frame that is handed over, the source of the parser shows:
/// the opcode is the low half of the first byte; the payload is not longer
/// than the limit; a control frame is final and carries at most 125 bytes;
/// and the reader has moved past two header bytes, the four bytes of the
/// masking key and the payload at least, so that the rest is the tail of
/// `bytes` behind the frame. The limit is kept within `isize::MAX`, since
/// the parser reserves room for the payload that the header announces.
#[verifier::external_body]
fn read_wire_frame<'a>(bytes: &'a [u8], limit: usize) -> (outcome: Result<
    (RawFrame, &'a [u8]),
    RawError,
>)
    requires
        limit <= isize::MAX,
    ensures
        parse_view(outcome) == wire_parse(bytes@, limit as nat),
        outcome matches Ok((raw, rest)) ==> ({
            &&& raw.opcode < 16
            &&& raw.payload@.len() <= limit
            &&& raw.opcode >= 8 ==> raw.finished && raw.payload@.len() <= MAX_CONTROL_PAYLOAD
            &&& rest@.len() + 6 + raw.payload@.len() <= bytes@.len()
            &&& rest@ == bytes@.skip(bytes@.len() - rest@.len())
        }),
{
    let mut rest: &'a [u8] = bytes;
    match websocket::dataframe::DataFrame::read_dataframe_with_limit(&mut rest, true, limit) {
        Ok(frame) => {
            let (finished, [rsv1, rsv2, rsv3]) = (frame.finished, frame.reserved);
            let opcode = frame.opcode as u8;
            Ok((RawFrame { finished, rsv1, rsv2, rsv3, opcode, payload: frame.data }, rest))
        },
        Err(websocket::WebSocketError::NoDataAvailable) => Err(RawError::Incomplete),
        Err(websocket::WebSocketError::IoError(_)) => Err(RawError::TooLong),
        Err(_) => Err(RawError::Invalid),
    }
}

/// Calls `websocket::ws::dataframe::DataFrame::write_to`, without masking,
/// on the final frame that `websocket::dataframe::DataFrame::new` builds
/// from the opcode and the payload.
///
/// Trusted: the writer refuses an opcode over 15 and a control frame with
/// more than 125 bytes of payload, and nothing else; what it writes is the
/// first byte with the final bit and the opcode, the length field, and the
/// payload, as `wire_bytes` states them.
#[verifier::external_body]
fn write_wire_frame(opcode: u8, payload: &[u8]) -> (bytes: Option<Vec<u8>>)
    ensures
        bytes.is_some() == (opcode < 8 || (opcode < 16 && payload@.len()
            <= MAX_CONTROL_PAYLOAD)),
        bytes matches Some(written) ==> written@ == wire_bytes(opcode, payload@),
{
    let kind = websocket::dataframe::Opcode::new(opcode)?;
    let frame = websocket::dataframe::DataFrame::new(true, kind, payload.to_vec());
    let mut written: Vec<u8> = Vec::new();
    match websocket::ws::dataframe::DataFrame::write_to(&frame, &mut written, false) {
        Ok(()) => Some(written),
        Err(_) => None,
    }
}

/// The frame that a raw frame stands for, or the reason why it stands for
/// none. Reserved bits are refused first, then an opcode outside the four
/// kinds, then a frame that is not final.
pub open spec fn classified(raw: RawFrameView) -> Result<FrameView, DecodeError> {
    if raw.rsv1 || raw.rsv2 || raw.rsv3 {
        Err(DecodeError::ReservedBits)
    } else if raw.opcode != OPCODE_TEXT && raw.opcode != OPCODE_CLOSE && raw.opcode != OPCODE_PING
        && raw.opcode != OPCODE_PONG {
        Err(DecodeError::Unrecognized(raw.opcode))
    } else if !raw.finished {
        Err(DecodeError::Fragmented)
    } else if raw.opcode == OPCODE_TEXT {
        Ok(FrameView::Text(raw.payload))
    } else if raw.opcode == OPCODE_PING {
        Ok(FrameView::Ping(raw.payload))
    } else if raw.opcode == OPCODE_PONG {
        Ok(FrameView::Pong(raw.payload))
    } else {
        Ok(FrameView::Close)
    }
}

/// The view of a classification.
pub open spec fn classification_view(outcome: Result<Frame, DecodeError>) -> Result<
    FrameView,
    DecodeError,
> {
    match outcome {
        Ok(frame) => Ok(frame@),
        Err(e) => Err(e),
    }
}

/// Sorts a raw frame into one of the four kinds, or refuses it.
pub fn classify(raw: RawFrame) -> (outcome: Result<Frame, DecodeError>)
    ensures
        classification_view(outcome) == classified(raw@),
{
    if raw.rsv1 || raw.rsv2 || raw.rsv3 {
        Err(DecodeError::ReservedBits)
    } else if raw.opcode != OPCODE_TEXT && raw.opcode != OPCODE_CLOSE && raw.opcode != OPCODE_PING
        && raw.opcode != OPCODE_PONG {
        Err(DecodeError::Unrecognized(raw.opcode))
    } else if !raw.finished {
        Err(DecodeError::Fragmented)
    } else if raw.opcode == OPCODE_TEXT {
        Ok(Frame::Text(raw.payload))
    } else if raw.opcode == OPCODE_PING {
        Ok(Frame::Ping(raw.payload))
    } else if raw.opcode == OPCODE_PONG {
        Ok(Frame::Pong(raw.payload))
    } else {
        Ok(Frame::Close)
    }
}

/// What decoding makes of a parse of `len` bytes: a frame and the number of
/// bytes it took, `None` where the bytes end before the frame does, or the
/// reason why the bytes are refused.
pub open spec fn decoded(parsed: Result<(RawFrameView, nat), RawError>, len: nat) -> Result<
    Option<(FrameView, nat)>,
    DecodeError,
> {
    match parsed {
        Ok((raw, rest)) => match classified(raw) {
            Ok(frame) => Ok(Some((frame, (len - rest) as nat))),
            Err(e) => Err(e),
        },
        Err(RawError::Incomplete) => Ok(None),
        Err(RawError::TooLong) => Err(DecodeError::Oversized),
        Err(RawError::Invalid) => Err(DecodeError::Malformed),
    }
}

/// The view of a decoding.
pub open spec fn decoding_view(outcome: Result<Option<(Frame, usize)>, DecodeError>) -> Result<
    Option<(FrameView, nat)>,
    DecodeError,
> {
    match outcome {
        Ok(Some((frame, taken))) => Ok(Some((frame@, taken as nat))),
        Ok(None) => Ok(None),
        Err(e) => Err(e),
    }
}

/// The largest payload limit that `decode` can be asked to apply.
pub open spec fn max_limit() -> nat {
    isize::MAX as nat
}

/// Decodes the frame at the front of `bytes`, which a client has sent, with
/// a payload of at most `limit` bytes.
///
/// Gives the frame and the number of bytes it took, `None` where `bytes`
/// ends before the frame does, or the reason why the bytes are refused. A
/// frame that comes back is encodable, and took at least six bytes.
pub fn decode(bytes: &[u8], limit: usize) -> (outcome: Result<Option<(Frame, usize)>, DecodeError>)
    requires
        limit <= max_limit(),
    ensures
        decoding_view(outcome) == decoded(wire_parse(bytes@, limit as nat), bytes@.len()),
        outcome matches Ok(Some((frame, taken))) ==> ({
            &&& frame@.encodable()
            &&& frame@.payload().len() <= limit
            &&& 6 + frame@.payload().len() <= taken <= bytes@.len()
        }),
{
    match read_wire_frame(bytes, limit) {
        Ok((raw, rest)) => {
            let taken = bytes.len() - rest.len();
            match classify(raw) {
                Ok(frame) => Ok(Some((frame, taken))),
                Err(e) => Err(e),
            }
        },
        Err(RawError::Incomplete) => Ok(None),
        Err(RawError::TooLong) => Err(DecodeError::Oversized),
        Err(RawError::Invalid) => Err(DecodeError::Malformed),
    }
}

impl Frame {
    /// The text frame that carries `content`.
    pub fn text(content: &str) -> (frame: Frame)
        ensures
            frame@ == FrameView::Text(encode_utf8(content@)),
    {
        let bytes = content.as_bytes();
        Frame::Text(slice_to_vec(bytes))
    }

    /// The bytes of this frame on the wire, final and unmasked, as a server
    /// sends it; `None` for a control frame whose payload is too long.
    pub fn encode(&self) -> (bytes: Option<Vec<u8>>)
        ensures
            bytes.is_some() == self@.encodable(),
            bytes matches Some(written) ==> written@ == wire_bytes(
                self@.opcode(),
                self@.payload(),
            ),
    {
        match self {
            Frame::Text(payload) => write_wire_frame(OPCODE_TEXT, payload.as_slice()),
            Frame::Ping(payload) => write_wire_frame(OPCODE_PING, payload.as_slice()),
            Frame::Pong(payload) => write_wire_frame(OPCODE_PONG, payload.as_slice()),
            Frame::Close => {
                let empty: Vec<u8> = Vec::new();
                write_wire_frame(OPCODE_CLOSE, empty.as_slice())
            },
        }
    }
}

} // verus!
