//! Whole frames: a header and the payload it announces.

use crate::error::Error;
use crate::header::declared_header_len;
use crate::header::lemma_parse_inverts_format;
use crate::header::lemma_wire_declares;
use crate::header::parse_outcome;
use crate::header::push_all;
use crate::header::FrameHeader;
use crate::mask::apply_mask;
use crate::mask::lemma_mask_involution;
use crate::mask::masked;
use crate::opcode::Data;
use crate::opcode::OpCode;
use vstd::prelude::*;
use vstd::slice::slice_subrange;
use vstd::slice::slice_to_vec;

verus! {

/// A frame: its header and its payload, unmasked.
#[derive(Debug, Clone, Eq, PartialEq)]
pub struct Frame {
    header: FrameHeader,
    payload: Vec<u8>,
}

/// What a frame holds.
pub struct FrameView {
    pub header: FrameHeader,
    pub payload: Seq<u8>,
}

/// A payload as it travels: masked where there is a key, else as it is.
/// The same step takes a travelling payload back.
pub open spec fn payload_on_wire(mask: Option<[u8; 4]>, payload: Seq<u8>) -> Seq<u8> {
    match mask {
        Some(key) => masked(payload, key),
        None => payload,
    }
}

/// A frame on the wire: the header for the payload's length, then the
/// payload, masked where the header holds a key.
pub open spec fn frame_bytes(header: FrameHeader, payload: Seq<u8>) -> Seq<u8> {
    header.wire(payload.len() as u64) + payload_on_wire(header.mask, payload)
}

/// What parsing one frame from the start of `input` gives: the header's
/// error, nothing while header or payload are incomplete, else the frame
/// with its payload unmasked and the number of bytes it took.
pub open spec fn frame_outcome(input: Seq<u8>) -> Result<Option<(FrameView, nat)>, Error> {
    match parse_outcome(input) {
        Err(e) => Err(e),
        Ok(None) => Ok(None),
        Ok(Some((header, length))) => {
            let start = declared_header_len(input[1]);
            if input.len() - start < length {
                Ok(None)
            } else {
                let raw = input.subrange(start as int, start + length);
                Ok(
                    Some(
                        (
                            FrameView { header, payload: payload_on_wire(header.mask, raw) },
                            start + length as nat,
                        ),
                    ),
                )
            }
        },
    }
}

impl View for Frame {
    type V = FrameView;

    closed spec fn view(&self) -> FrameView {
        FrameView { header: self.header, payload: self.payload@ }
    }
}

impl Frame {
    /// A frame of the given header and payload.
    pub fn new(header: FrameHeader, payload: Vec<u8>) -> (r: Frame)
        ensures
            r@ == (FrameView { header, payload: payload@ }),
    {
        Frame { header, payload }
    }

    /// A final, unmasked frame with no reserved bit set, around the given
    /// payload and opcode.
    pub fn message(payload: Vec<u8>, opcode: OpCode) -> (r: Frame)
        ensures
            r@ == (FrameView { header: message_header(opcode), payload: payload@ }),
    {
        Frame {
            header: FrameHeader {
                is_final: true,
                opcode,
                rsv1: false,
                rsv2: false,
                rsv3: false,
                mask: None,
            },
            payload,
        }
    }

    /// The frame's header.
    pub fn header(&self) -> (r: &FrameHeader)
        ensures
            *r == self@.header,
    {
        &self.header
    }

    /// The frame's payload.
    pub fn payload(&self) -> (r: &Vec<u8>)
        ensures
            r@ == self@.payload,
    {
        &self.payload
    }

    /// Masks the payload with the header's key and drops the key, so that a
    /// second call changes nothing. Without a key nothing changes.
    pub fn apply_mask(&mut self)
        ensures
            final(self)@.payload == payload_on_wire(old(self)@.header.mask, old(self)@.payload),
            final(self)@.header == (FrameHeader { mask: None, ..old(self)@.header }),
    {
        if let Some(mask) = self.header.mask.take() {
            apply_mask(self.payload.as_mut_slice(), mask)
        }
    }

    /// Appends the frame to `output`: the header for the payload's length,
    /// then the payload, masked where the header holds a key.
    pub fn format(self, output: &mut Vec<u8>)
        ensures
            final(output)@ == old(output)@ + frame_bytes(self@.header, self@.payload),
    {
        let ghost before = output@;
        let mut frame = self;
        let ghost wire = frame.header.wire(frame.payload@.len() as u64);
        frame.header.format(frame.payload.len() as u64, output);
        frame.apply_mask();
        push_all(output, frame.payload.as_slice());
        assert(output@ =~= before + (wire + frame.payload@));
    }

    /// The number of bytes of the frame on the wire, header and payload.
    pub fn len(&self) -> (r: usize)
        requires
            self@.payload.len() + 14 <= usize::MAX,
        ensures
            r == self@.header.spec_len(self@.payload.len() as u64) + self@.payload.len(),
            r == frame_bytes(self@.header, self@.payload).len(),
    {
        let payload_length = self.payload.len();
        let header_length = self.header.len(payload_length as u64);
        proof {
            if self.header.mask is Some {
                assert(masked(self.payload@, self.header.mask->Some_0).len() == payload_length);
            }
        }
        header_length + payload_length
    }

    /// Reads one frame from the start of `input`. Gives the header's error if
    /// it has one, `None` while the header or the payload is incomplete, and
    /// else the frame, its payload unmasked, with the number of bytes read.
    pub fn parse(input: &[u8]) -> (r: Result<Option<(Frame, usize)>, Error>)
        ensures
            match r {
                Ok(Some((frame, used))) => frame_outcome(input@) == Ok::<_, Error>(
                    Some((frame@, used as nat)),
                ),
                Ok(None) => frame_outcome(input@) == Ok::<Option<(FrameView, nat)>, Error>(None),
                Err(e) => frame_outcome(input@) == Err::<Option<(FrameView, nat)>, _>(e),
            },
    {
        match FrameHeader::parse(input) {
            Err(e) => Err(e),
            Ok(None) => Ok(None),
            Ok(Some((header, length))) => {
                let start: usize = FrameHeader::encoded_len(input[1]);
                if ((input.len() - start) as u64) < length {
                    return Ok(None);
                }
                let end: usize = start + length as usize;
                let mut payload: Vec<u8> = slice_to_vec(slice_subrange(input, start, end));
                if let Some(mask) = header.mask {
                    apply_mask(payload.as_mut_slice(), mask);
                }
                Ok(Some((Frame { header, payload }, end)))
            },
        }
    }
}

/// The header of a final, unmasked frame with no reserved bit set.
pub open spec fn message_header(opcode: OpCode) -> FrameHeader {
    FrameHeader { is_final: true, rsv1: false, rsv2: false, rsv3: false, opcode, mask: None }
}

/// What an echo server answers to the bytes it received: the payload of the
/// frame at their start, unmasked, in a final unmasked text frame. While the
/// frame is incomplete there is no answer, and the header's error is passed
/// on.
pub fn echo_reply(input: &[u8]) -> (r: Result<Option<Vec<u8>>, Error>)
    ensures
        match frame_outcome(input@) {
            Err(e) => r == Err::<Option<Vec<u8>>, _>(e),
            Ok(None) => r == Ok::<Option<Vec<u8>>, Error>(None),
            Ok(Some((frame, _))) => (r matches Ok(Some(out)) && out@ == frame_bytes(
                message_header(OpCode::Data(Data::Text)),
                frame.payload,
            )),
        },
{
    match Frame::parse(input) {
        Err(e) => Err(e),
        Ok(None) => Ok(None),
        Ok(Some((frame, _))) => {
            let reply = Frame::message(frame.payload, OpCode::Data(Data::Text));
            let mut out: Vec<u8> = Vec::new();
            reply.format(&mut out);
            assert(out@ =~= frame_bytes(message_header(OpCode::Data(Data::Text)), reply@.payload));
            Ok(Some(out))
        },
    }
}

/// What went over the wire comes back by the same step: masking with one
/// key twice, or not at all, leaves the payload as it was.
pub proof fn lemma_payload_on_wire_involution(mask: Option<[u8; 4]>, payload: Seq<u8>)
    ensures
        payload_on_wire(mask, payload_on_wire(mask, payload)) == payload,
        payload_on_wire(mask, payload).len() == payload.len(),
{
    if let Some(key) = mask {
        lemma_mask_involution(payload, key);
    }
}

/// Round trip: a frame written out and parsed again, whatever bytes follow
/// it, gives the same header, masking key included, declaring the payload's
/// length; the bytes after the header, as many as declared and unmasked with
/// the header's key, are the payload; and the whole frame parses to what was
/// written, taking exactly its own bytes. The opcode must be canonical and
/// the payload's length must fit the 64-bit length field.
pub proof fn lemma_frame_round_trip(header: FrameHeader, payload: Seq<u8>, rest: Seq<u8>)
    requires
        header.opcode.is_canonical(),
        payload.len() <= u64::MAX,
    ensures
        parse_outcome(frame_bytes(header, payload) + rest) == Ok::<_, Error>(
            Some((header, payload.len() as u64)),
        ),
        payload_on_wire(
            header.mask,
            (frame_bytes(header, payload) + rest).subrange(
                header.spec_len(payload.len() as u64) as int,
                (header.spec_len(payload.len() as u64) + payload.len()) as int,
            ),
        ) == payload,
        frame_outcome(frame_bytes(header, payload) + rest) == Ok::<_, Error>(
            Some((FrameView { header, payload }, frame_bytes(header, payload).len())),
        ),
{
    let length = payload.len() as u64;
    let wire = header.wire(length);
    let sent = payload_on_wire(header.mask, payload);
    let input = frame_bytes(header, payload) + rest;
    assert(input =~= wire + (sent + rest));
    lemma_parse_inverts_format(header, length, sent + rest);
    lemma_wire_declares(header, length, sent + rest);
    lemma_payload_on_wire_involution(header.mask, payload);
    let start = header.spec_len(length) as int;
    assert(input.subrange(start, start + payload.len()) =~= sent);
}

} // verus!
