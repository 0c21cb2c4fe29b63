//! Opcodes: the four-bit frame type, split into data and control frames.

use vstd::prelude::*;
use vstd::std_specs::convert::FromSpec;
use vstd::std_specs::convert::FromSpecImpl;

verus! {

/// Opcodes of data frames.
#[derive(Debug, PartialEq, Eq, Clone, Copy, Structural)]
pub enum Data {
    /// 0x0 denotes a continuation frame
    Continue,
    /// 0x1 denotes a text frame
    Text,
    /// 0x2 denotes a binary frame
    Binary,
    /// 0x3-7 are reserved for further non-control frames
    Reserved(u8),
}

/// Opcodes of control frames.
#[derive(Debug, PartialEq, Eq, Clone, Copy, Structural)]
pub enum Control {
    /// 0x8 denotes a connection close
    Close,
    /// 0x9 denotes a ping
    Ping,
    /// 0xa denotes a pong
    Pong,
    /// 0xb-f are reserved for further control frames
    Reserved(u8),
}

/// A frame's opcode.
#[derive(Debug, PartialEq, Eq, Clone, Copy, Structural)]
pub enum OpCode {
    /// Data (text or binary).
    Data(Data),
    /// Control message (close, ping, pong).
    Control(Control),
}

/// The wire value of an opcode. A reserved opcode carries its own number.
pub open spec fn opcode_to_bits(opcode: OpCode) -> u8 {
    match opcode {
        OpCode::Data(Data::Continue) => 0,
        OpCode::Data(Data::Text) => 1,
        OpCode::Data(Data::Binary) => 2,
        OpCode::Data(Data::Reserved(i)) => i,
        OpCode::Control(Control::Close) => 8,
        OpCode::Control(Control::Ping) => 9,
        OpCode::Control(Control::Pong) => 10,
        OpCode::Control(Control::Reserved(i)) => i,
    }
}

/// The opcode that a four-bit wire value stands for. Only values up to 15
/// are meant; see [`opcode_of_byte`] for whole bytes.
pub open spec fn opcode_of_bits(bits: u8) -> OpCode {
    if bits == 0 {
        OpCode::Data(Data::Continue)
    } else if bits == 1 {
        OpCode::Data(Data::Text)
    } else if bits == 2 {
        OpCode::Data(Data::Binary)
    } else if bits <= 7 {
        OpCode::Data(Data::Reserved(bits))
    } else if bits == 8 {
        OpCode::Control(Control::Close)
    } else if bits == 9 {
        OpCode::Control(Control::Ping)
    } else if bits == 10 {
        OpCode::Control(Control::Pong)
    } else {
        OpCode::Control(Control::Reserved(bits))
    }
}

/// The opcode held in the low four bits of a byte; the high bits are ignored.
pub open spec fn opcode_of_byte(byte: u8) -> OpCode {
    opcode_of_bits(byte & 0x0f)
}

impl OpCode {
    /// An opcode is canonical when it is the one that decoding its own wire
    /// value gives: a reserved data opcode lies in 3..=7, a reserved control
    /// opcode in 11..=15.
    pub open spec fn is_canonical(self) -> bool {
        match self {
            OpCode::Data(Data::Reserved(i)) => 3 <= i <= 7,
            OpCode::Control(Control::Reserved(i)) => 11 <= i <= 15,
            _ => true,
        }
    }

    /// Tells whether the opcode is canonical.
    pub fn canonical(&self) -> (r: bool)
        ensures
            r == self.is_canonical(),
    {
        match *self {
            OpCode::Data(Data::Reserved(i)) => 3 <= i && i <= 7,
            OpCode::Control(Control::Reserved(i)) => 11 <= i && i <= 15,
            _ => true,
        }
    }
}

impl FromSpecImpl<OpCode> for u8 {
    open spec fn obeys_from_spec() -> bool {
        true
    }

    open spec fn from_spec(opcode: OpCode) -> u8 {
        opcode_to_bits(opcode)
    }
}

impl From<OpCode> for u8 {
    /// The wire value of the opcode.
    fn from(opcode: OpCode) -> (r: u8) {
        match opcode {
            OpCode::Data(Data::Continue) => 0,
            OpCode::Data(Data::Text) => 1,
            OpCode::Data(Data::Binary) => 2,
            OpCode::Data(Data::Reserved(i)) => i,
            OpCode::Control(Control::Close) => 8,
            OpCode::Control(Control::Ping) => 9,
            OpCode::Control(Control::Pong) => 10,
            OpCode::Control(Control::Reserved(i)) => i,
        }
    }
}

impl FromSpecImpl<u8> for OpCode {
    open spec fn obeys_from_spec() -> bool {
        true
    }

    open spec fn from_spec(byte: u8) -> OpCode {
        opcode_of_byte(byte)
    }
}

impl From<u8> for OpCode {
    /// Decodes the low four bits of `byte`. The high bits are dropped first,
    /// so every byte has an opcode and no input is refused.
    fn from(byte: u8) -> (r: OpCode) {
        let bits: u8 = byte & 0x0f;
        assert(bits <= 15) by (bit_vector)
            requires
                bits == byte & 0x0f,
        ;
        match bits {
            0 => OpCode::Data(Data::Continue),
            1 => OpCode::Data(Data::Text),
            2 => OpCode::Data(Data::Binary),
            3 | 4 | 5 | 6 | 7 => OpCode::Data(Data::Reserved(bits)),
            8 => OpCode::Control(Control::Close),
            9 => OpCode::Control(Control::Ping),
            10 => OpCode::Control(Control::Pong),
            _ => OpCode::Control(Control::Reserved(bits)),
        }
    }
}

/// A byte below 16 keeps its value through decoding and encoding.
pub proof fn lemma_bits_round_trip(b: u8)
    requires
        b <= 15,
    ensures
        opcode_to_bits(opcode_of_byte(b)) == b,
        opcode_of_byte(b).is_canonical(),
        <u8 as FromSpec<OpCode>>::from_spec(<OpCode as FromSpec<u8>>::from_spec(b)) == b,
{
    assert(b & 0x0f == b) by (bit_vector)
        requires
            b <= 15,
    ;
}

/// Every byte decodes to a canonical opcode, whose wire value is the
/// byte's low four bits.
pub proof fn lemma_decode_is_canonical(b: u8)
    ensures
        opcode_of_byte(b).is_canonical(),
        opcode_to_bits(opcode_of_byte(b)) == b & 0x0f,
        opcode_to_bits(opcode_of_byte(b)) <= 15,
{
    assert(b & 0x0f <= 15) by (bit_vector);
}

/// A canonical opcode is the one that its wire value decodes to, and that
/// value is below 16.
pub proof fn lemma_opcode_round_trip(opcode: OpCode)
    requires
        opcode.is_canonical(),
    ensures
        opcode_to_bits(opcode) <= 15,
        opcode_of_byte(opcode_to_bits(opcode)) == opcode,
{
    let b = opcode_to_bits(opcode);
    assert(b <= 15);
    assert(b & 0x0f == b) by (bit_vector)
        requires
            b <= 15,
    ;
}

} // verus!
