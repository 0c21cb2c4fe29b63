//! The three ways in which a frame header states the payload's length.

use vstd::prelude::*;

verus! {

/// How a payload length is written in a header.
#[derive(Debug, PartialEq, Eq, Clone, Copy, Structural)]
pub enum LengthFormat {
    /// The length itself, below 126, in the seven-bit field.
    U8(u8),
    /// The field holds 126 and two more bytes hold the length.
    U16,
    /// The field holds 127 and eight more bytes hold the length.
    U64,
}

/// The format in which a length is written: the shortest that holds it.
pub open spec fn format_for_length(length: u64) -> LengthFormat {
    if length < 126 {
        LengthFormat::U8(length as u8)
    } else if length < 65536 {
        LengthFormat::U16
    } else {
        LengthFormat::U64
    }
}

/// The format that the second header byte announces; its top bit, the mask
/// flag, plays no part.
pub open spec fn format_for_byte(byte: u8) -> LengthFormat {
    let field = byte & 0x7f;
    if field == 126 {
        LengthFormat::U16
    } else if field == 127 {
        LengthFormat::U64
    } else {
        LengthFormat::U8(field)
    }
}

impl LengthFormat {
    /// The value of the seven-bit length field.
    pub open spec fn spec_length_byte(self) -> u8 {
        match self {
            LengthFormat::U8(b) => b,
            LengthFormat::U16 => 126,
            LengthFormat::U64 => 127,
        }
    }

    /// The number of bytes that follow the two fixed ones to hold the length.
    pub open spec fn spec_extra_bytes(self) -> nat {
        match self {
            LengthFormat::U8(_) => 0,
            LengthFormat::U16 => 2,
            LengthFormat::U64 => 8,
        }
    }

    /// Get the length format for a given data size.
    pub fn for_length(length: u64) -> (r: Self)
        ensures
            r == format_for_length(length),
            r is U8 <==> length < 126,
            r is U16 <==> 126 <= length < 65536,
            r is U64 <==> 65536 <= length,
            length < 126 ==> r == LengthFormat::U8(length as u8),
    {
        if length < 126 {
            return LengthFormat::U8(length as u8);
        }
        if length < 65536 {
            return LengthFormat::U16;
        }
        LengthFormat::U64
    }

    /// Encode the length according to the RFC.
    pub fn length_byte(&self) -> (r: u8)
        ensures
            r == self.spec_length_byte(),
    {
        match *self {
            LengthFormat::U8(b) => b,
            LengthFormat::U16 => 126,
            LengthFormat::U64 => 127,
        }
    }

    /// The number of bytes of the extended length field.
    pub fn extra_bytes(&self) -> (r: usize)
        ensures
            r == self.spec_extra_bytes(),
            r == 0 || r == 2 || r == 8,
    {
        match *self {
            LengthFormat::U8(_) => 0,
            LengthFormat::U16 => 2,
            LengthFormat::U64 => 8,
        }
    }

    /// The format that a header's second byte announces.
    pub fn for_byte(byte: u8) -> (r: Self)
        ensures
            r == format_for_byte(byte),
            r.spec_length_byte() == byte & 0x7f,
            r.spec_length_byte() <= 127,
    {
        let field: u8 = byte & 0b0111_1111;
        assert(field <= 127) by (bit_vector)
            requires
                field == byte & 0x7f,
        ;
        match field {
            126 => LengthFormat::U16,
            127 => LengthFormat::U64,
            _ => LengthFormat::U8(field),
        }
    }
}

/// The format chosen for a length announces itself: decoding its length
/// byte, with or without the mask flag, gives the same class of format, and
/// for a short length the length itself.
pub proof fn lemma_format_round_trip(length: u64, masked: bool)
    ensures
        format_for_byte(
            format_for_length(length).spec_length_byte() | (if masked { 0x80u8 } else { 0u8 }),
        ) == format_for_length(length),
        format_for_length(length).spec_length_byte() <= 127,
{
    let b = format_for_length(length).spec_length_byte();
    assert(b <= 127);
    assert((b | 0x80u8) & 0x7f == b && (b | 0u8) & 0x7f == b) by (bit_vector)
        requires
            b <= 127,
    ;
}

} // verus!
