//! The frame header: flags, opcode, payload length and masking key.

use crate::endian::be_bytes;
use crate::endian::be_bytes_u16;
use crate::endian::be_bytes_u64;
use crate::endian::be_value;
use crate::endian::lemma_be_bytes_len;
use crate::endian::lemma_be_round_trip;
use crate::endian::lemma_radix_pow_monotone;
use crate::endian::lemma_radix_pow_values;
use crate::endian::radix_pow;
use crate::endian::read_be_uint;
use crate::error::Error;
use crate::length::format_for_byte;
use crate::length::format_for_length;
use crate::length::lemma_format_round_trip;
use crate::length::LengthFormat;
use crate::opcode::lemma_opcode_round_trip;
use crate::opcode::opcode_of_byte;
use crate::opcode::opcode_to_bits;
use crate::opcode::OpCode;
use vstd::prelude::*;
use vstd::slice::slice_subrange;

verus! {

/// A struct representing a WebSocket frame header
#[derive(Debug, Clone, Eq, PartialEq)]
pub struct FrameHeader {
    /// Indicates that the frame is the last one of a possibly fragmented message.
    pub is_final: bool,
    /// Reserved for protocol extensions.
    pub rsv1: bool,
    /// Reserved for protocol extensions.
    pub rsv2: bool,
    /// Reserved for protocol extensions.
    pub rsv3: bool,
    /// WebSocket protocol opcode.
    pub opcode: OpCode,
    /// A frame mask, if any.
    pub mask: Option<[u8; 4]>,
}

/// `bit` where the flag is set, else no bit.
pub open spec fn flag_bit(flag: bool, bit: u8) -> u8 {
    if flag {
        bit
    } else {
        0
    }
}

/// The extended length field written for a payload length: nothing, two
/// bytes or eight, big-endian.
pub open spec fn length_extension(length: u64) -> Seq<u8> {
    match format_for_length(length) {
        LengthFormat::U8(_) => Seq::empty(),
        LengthFormat::U16 => be_bytes(length as nat, 2),
        LengthFormat::U64 => be_bytes(length as nat, 8),
    }
}

/// The bytes of a masking key, none where there is no key.
pub open spec fn mask_bytes(mask: Option<[u8; 4]>) -> Seq<u8> {
    match mask {
        Some(key) => key@,
        None => Seq::empty(),
    }
}

/// Whether a header's second byte announces a masking key.
pub open spec fn mask_flag(second: u8) -> bool {
    second & 0x80 != 0
}

/// The number of extended length bytes that a second byte announces.
pub open spec fn declared_extension(second: u8) -> nat {
    format_for_byte(second).spec_extra_bytes()
}

/// The number of bytes of a header whose second byte is `second`.
pub open spec fn declared_header_len(second: u8) -> nat {
    2 + declared_extension(second) + if mask_flag(second) { 4nat } else { 0nat }
}

/// The payload length that the start of `input` declares. Meant for an
/// input that holds the two fixed bytes and the extended length field.
pub open spec fn declared_length(input: Seq<u8>) -> nat {
    match format_for_byte(input[1]) {
        LengthFormat::U8(b) => b as nat,
        LengthFormat::U16 => be_value(input.subrange(2, 4)),
        LengthFormat::U64 => be_value(input.subrange(2, 10)),
    }
}

/// The masking key that the start of `input` holds, if it announces one.
/// Meant for an input that holds the whole header.
pub open spec fn declared_mask(input: Seq<u8>) -> Option<[u8; 4]> {
    let at = (2 + declared_extension(input[1])) as int;
    if mask_flag(input[1]) {
        Some([input[at], input[at + 1], input[at + 2], input[at + 3]])
    } else {
        None
    }
}

/// The header that the start of `input` holds. Meant for an input that
/// holds the whole header.
pub open spec fn declared_header(input: Seq<u8>) -> FrameHeader {
    FrameHeader {
        is_final: input[0] & 0x80 != 0,
        rsv1: input[0] & 0x40 != 0,
        rsv2: input[0] & 0x20 != 0,
        rsv3: input[0] & 0x10 != 0,
        opcode: opcode_of_byte(input[0]),
        mask: declared_mask(input),
    }
}

/// What parsing the start of `input` gives: nothing while the fixed bytes
/// or the extended length are incomplete, an error where the masking key is,
/// else the header and the payload length it declares.
pub open spec fn parse_outcome(input: Seq<u8>) -> Result<Option<(FrameHeader, u64)>, Error> {
    if input.len() < 2 || input.len() < 2 + declared_extension(input[1]) {
        Ok(None)
    } else if input.len() < declared_header_len(input[1]) {
        Err(Error::TruncatedMask)
    } else {
        Ok(Some((declared_header(input), declared_length(input) as u64)))
    }
}

impl FrameHeader {
    /// The first header byte: the opcode's wire value with the final flag
    /// and the three reserved flags above it. Only the wire value of a
    /// canonical opcode is sure to stay clear of the flags.
    pub open spec fn first_byte(self) -> u8 {
        opcode_to_bits(self.opcode) | flag_bit(self.is_final, 0x80) | flag_bit(self.rsv1, 0x40)
            | flag_bit(self.rsv2, 0x20) | flag_bit(self.rsv3, 0x10)
    }

    /// The second header byte: the seven-bit length field under the mask flag.
    pub open spec fn second_byte(self, length: u64) -> u8 {
        format_for_length(length).spec_length_byte() | flag_bit(self.mask is Some, 0x80)
    }

    /// The number of bytes of the header of a frame with `length` payload bytes.
    pub open spec fn spec_len(self, length: u64) -> nat {
        2 + format_for_length(length).spec_extra_bytes() + if self.mask is Some {
            4nat
        } else {
            0nat
        }
    }

    /// The header as it stands on the wire before `length` payload bytes.
    pub open spec fn wire(self, length: u64) -> Seq<u8> {
        seq![self.first_byte(), self.second_byte(length)] + length_extension(length) + mask_bytes(
            self.mask,
        )
    }

    /// Sets the masking key.
    pub fn set_mask(&mut self, key: [u8; 4])
        ensures
            *final(self) == (FrameHeader { mask: Some(key), ..*old(self) }),
    {
        self.mask = Some(key);
    }

    /// Sets a masking key drawn at random. Which key is not known; the other
    /// fields stay.
    pub fn set_random_mask(&mut self)
        ensures
            final(self).mask is Some,
            *final(self) == (FrameHeader { mask: final(self).mask, ..*old(self) }),
    {
        let key = random_key();
        self.set_mask(key);
    }

    /// The number of bytes that a header occupies, told by its second byte.
    /// A reader that has the two fixed bytes learns from it how many more to
    /// fetch before it parses.
    pub fn encoded_len(second: u8) -> (r: usize)
        ensures
            r == declared_header_len(second),
            2 <= r <= 14,
    {
        let extension: usize = LengthFormat::for_byte(second).extra_bytes();
        if second & 0b1000_0000 != 0 {
            2 + extension + 4
        } else {
            2 + extension
        }
    }

    /// Reads a header from the start of `input`. Gives `None` while the two
    /// fixed bytes or the extended length field are incomplete, an error where
    /// the input ends inside the masking key, and else the header with the
    /// payload length that it declares.
    pub fn parse(input: &[u8]) -> (r: Result<Option<(FrameHeader, u64)>, Error>)
        ensures
            r == parse_outcome(input@),
            r is Ok && r->Ok_0 is None <==> input@.len() < 2 || input@.len() < 2
                + declared_extension(input@[1]),
            r is Err <==> 2 <= input@.len() && 2 + declared_extension(input@[1]) <= input@.len()
                < declared_header_len(input@[1]),
    {
        if input.len() < 2 {
            return Ok(None);
        }
        let first: u8 = input[0];
        let second: u8 = input[1];

        let is_final = first & 0b1000_0000 != 0;

        let rsv1 = first & 0b0100_0000 != 0;
        let rsv2 = first & 0b0010_0000 != 0;
        let rsv3 = first & 0b0001_0000 != 0;

        let opcode = OpCode::from(first);
        let masked = second & 0b1000_0000 != 0;

        let format = LengthFormat::for_byte(second);
        let extension: usize = format.extra_bytes();
        if input.len() - 2 < extension {
            return Ok(None);
        }
        let length: u64 = if extension > 0 {
            let field = slice_subrange(input, 2, 2 + extension);
            assert(field@.subrange(0, extension as int) =~= input@.subrange(2, 2 + extension));
            let read = read_be_uint(field, extension);
            proof {
                lemma_be_value_bound(input@.subrange(2, 2 + extension));
            }
            read
        } else {
            format.length_byte() as u64
        };

        let at: usize = 2 + extension;
        let mask = if masked {
            if input.len() - at < 4 {
                return Err(Error::TruncatedMask);
            }
            Some([input[at], input[at + 1], input[at + 2], input[at + 3]])
        } else {
            None
        };

        let header = FrameHeader { is_final, rsv1, rsv2, rsv3, opcode, mask };
        Ok(Some((header, length)))
    }

    /// Appends the header of a frame with `length` payload bytes to `output`.
    pub fn format(&self, length: u64, output: &mut Vec<u8>)
        ensures
            final(output)@ == old(output)@ + self.wire(length),
            final(output)@.len() == old(output)@.len() + self.spec_len(length),
    {
        let ghost before = output@;
        let code: u8 = u8::from(self.opcode);
        let one: u8 = code | (if self.is_final { 0x80 } else { 0 })
            | (if self.rsv1 { 0x40 } else { 0 })
            | (if self.rsv2 { 0x20 } else { 0 })
            | (if self.rsv3 { 0x10 } else { 0 });

        let length_format = LengthFormat::for_length(length);

        let two: u8 = length_format.length_byte() | (if self.mask.is_some() { 0x80 } else { 0 });

        output.push(one);
        output.push(two);
        assert(output@ =~= before + seq![one, two]);

        match length_format {
            LengthFormat::U8(_) => (),
            LengthFormat::U16 => {
                let field = be_bytes_u16(length as u16);
                push_all(output, field.as_slice());
            },
            LengthFormat::U64 => {
                let field = be_bytes_u64(length);
                push_all(output, field.as_slice());
            },
        }
        assert(output@ =~= before + seq![one, two] + length_extension(length));

        if let Some(ref mask) = self.mask {
            push_all(output, mask.as_slice());
        }
        assert(output@ =~= before + seq![one, two] + length_extension(length) + mask_bytes(
            self.mask,
        ));
        assert(output@ =~= before + self.wire(length));
        proof {
            lemma_wire_len(*self, length);
        }
    }

    /// The number of bytes of the header of a frame with `length` payload
    /// bytes: two, the extended length field, and four where there is a
    /// masking key.
    pub fn len(&self, length: u64) -> (r: usize)
        ensures
            r == self.spec_len(length),
            r == self.wire(length).len(),
            r == 2 + format_for_length(length).spec_extra_bytes() + (if self.mask is Some {
                4nat
            } else {
                0nat
            }),
            2 <= r <= 14,
    {
        proof {
            lemma_wire_len(*self, length);
        }
        2 + LengthFormat::for_length(length).extra_bytes() + if self.mask.is_some() {
            4
        } else {
            0
        }
    }
}

/// Appends the bytes of `bytes` to `output`.
pub(crate) fn push_all(output: &mut Vec<u8>, bytes: &[u8])
    ensures
        final(output)@ == old(output)@ + bytes@,
{
    let ghost before = output@;
    let n: usize = bytes.len();
    let mut i: usize = 0;
    while i < n
        invariant
            i <= n,
            n == bytes@.len(),
            output@ == before + bytes@.subrange(0, i as int),
        decreases n - i,
    {
        output.push(bytes[i]);
        assert(output@ =~= before + bytes@.subrange(0, i + 1));
        i += 1;
    }
    assert(bytes@.subrange(0, n as int) =~= bytes@);
}

/// Calls `rand::random` for four bytes. Nothing is known of the bytes.
#[verifier::external_body]
fn random_key() -> (key: [u8; 4]) {
    rand::random()
}

/// At most eight bytes spell a number that fits in 64 bits.
pub proof fn lemma_be_value_bound(bytes: Seq<u8>)
    requires
        bytes.len() <= 8,
    ensures
        be_value(bytes) < radix_pow(bytes.len()),
        be_value(bytes) <= u64::MAX,
    decreases bytes.len(),
{
    if bytes.len() > 0 {
        lemma_be_value_bound(bytes.drop_last());
    }
    lemma_radix_pow_values();
    assert(radix_pow(bytes.len()) <= radix_pow(8)) by {
        lemma_radix_pow_monotone(bytes.len(), 8);
    }
}

/// A declared payload length fits in 64 bits, so `parse_outcome` never cuts
/// one short.
pub proof fn lemma_declared_length_fits(input: Seq<u8>)
    requires
        2 <= input.len(),
        2 + declared_extension(input[1]) <= input.len(),
    ensures
        declared_length(input) <= u64::MAX,
{
    match format_for_byte(input[1]) {
        LengthFormat::U8(b) => {},
        LengthFormat::U16 => {
            lemma_be_value_bound(input.subrange(2, 4));
        },
        LengthFormat::U64 => {
            lemma_be_value_bound(input.subrange(2, 10));
        },
    }
}

/// The header's wire form has as many bytes as `spec_len` says.
pub proof fn lemma_wire_len(header: FrameHeader, length: u64)
    ensures
        header.wire(length).len() == header.spec_len(length),
{
    lemma_be_bytes_len(length as nat, 2);
    lemma_be_bytes_len(length as nat, 8);
}

/// Flags stacked on a four-bit value can each be read back, and so can the
/// value.
proof fn lemma_first_byte_bits(code: u8, f: u8, r1: u8, r2: u8, r3: u8)
    by (bit_vector)
    requires
        code <= 15,
        f == 0x80 || f == 0,
        r1 == 0x40 || r1 == 0,
        r2 == 0x20 || r2 == 0,
        r3 == 0x10 || r3 == 0,
    ensures
        (code | f | r1 | r2 | r3) & 0x80 == f,
        (code | f | r1 | r2 | r3) & 0x40 == r1,
        (code | f | r1 | r2 | r3) & 0x20 == r2,
        (code | f | r1 | r2 | r3) & 0x10 == r3,
        (code | f | r1 | r2 | r3) & 0x0f == code,
{
}

/// The mask flag set on a seven-bit length field can be read back.
proof fn lemma_second_byte_bits(field: u8)
    by (bit_vector)
    requires
        field <= 127,
    ensures
        (field | 0x80) & 0x80 != 0,
        (field | 0) & 0x80 == 0,
{
}

/// What follows a header has no part in how the header reads: the second
/// byte of the wire form announces the header's own length format and mask,
/// and the bytes after the fixed ones spell `length` and the key.
pub proof fn lemma_wire_declares(header: FrameHeader, length: u64, rest: Seq<u8>)
    ensures
        format_for_byte((header.wire(length) + rest)[1]) == format_for_length(length),
        mask_flag((header.wire(length) + rest)[1]) == (header.mask is Some),
        declared_header_len((header.wire(length) + rest)[1]) == header.spec_len(length),
        declared_length(header.wire(length) + rest) == length,
        declared_mask(header.wire(length) + rest) == header.mask,
        (header.wire(length) + rest)[0] == header.first_byte(),
        header.wire(length).len() == header.spec_len(length),
{
    let wire = header.wire(length);
    let input = wire + rest;
    let fixed = seq![header.first_byte(), header.second_byte(length)];
    let extension = length_extension(length);
    let key = mask_bytes(header.mask);
    lemma_wire_len(header, length);
    lemma_be_bytes_len(length as nat, 2);
    lemma_be_bytes_len(length as nat, 8);
    lemma_radix_pow_values();
    assert(wire == fixed + extension + key);
    assert(input[0] == header.first_byte());
    assert(input[1] == header.second_byte(length));
    let field = format_for_length(length).spec_length_byte();
    lemma_format_round_trip(length, header.mask is Some);
    lemma_second_byte_bits(field);
    assert(input[1] == field | flag_bit(header.mask is Some, 0x80));
    assert(format_for_byte(input[1]) == format_for_length(length));
    assert(mask_flag(input[1]) == (header.mask is Some));
    let n = extension.len() as int;
    assert(input.subrange(2, 2 + n) =~= extension);
    match format_for_length(length) {
        LengthFormat::U8(b) => {},
        LengthFormat::U16 => {
            lemma_be_round_trip(length as nat, 2);
        },
        LengthFormat::U64 => {
            lemma_be_round_trip(length as nat, 8);
        },
    }
    assert(declared_length(input) == length);
    match header.mask {
        Some(k) => {
            let at = 2 + n;
            assert(input.subrange(at, at + 4) =~= k@);
            assert(input[at] == k@[0]);
            assert(input[at + 1] == k@[1]);
            assert(input[at + 2] == k@[2]);
            assert(input[at + 3] == k@[3]);
            let read = [input[at], input[at + 1], input[at + 2], input[at + 3]];
            assert(read =~= k);
        },
        None => {},
    }
}

/// A header written for any length, whatever follows it, parses to a header
/// with that length: the length survives the trip for every header, also one
/// whose opcode is not canonical.
pub proof fn lemma_parse_recovers_length(header: FrameHeader, length: u64, rest: Seq<u8>)
    ensures
        parse_outcome(header.wire(length) + rest) matches Ok(Some((_, read))) && read == length,
{
    lemma_wire_declares(header, length, rest);
}

/// Writing a header and parsing it gives the header back, masking key
/// included, with the length it was written for, whatever bytes follow it.
/// The opcode must be canonical: a reserved opcode outside its range has no
/// wire value of its own.
pub proof fn lemma_parse_inverts_format(header: FrameHeader, length: u64, rest: Seq<u8>)
    requires
        header.opcode.is_canonical(),
    ensures
        parse_outcome(header.wire(length) + rest) == Ok::<_, Error>(Some((header, length))),
{
    lemma_wire_declares(header, length, rest);
    let input = header.wire(length) + rest;
    let code = opcode_to_bits(header.opcode);
    lemma_opcode_round_trip(header.opcode);
    lemma_first_byte_bits(
        code,
        flag_bit(header.is_final, 0x80),
        flag_bit(header.rsv1, 0x40),
        flag_bit(header.rsv2, 0x20),
        flag_bit(header.rsv3, 0x10),
    );
    assert(input[0] & 0x0f == code);
    assert(opcode_of_byte(input[0]) == header.opcode);
    assert(declared_header(input) == header);
}

} // verus!
