//! The instruction set and the heap objects.
use vstd::prelude::*;

verus! {

/// One-byte instruction tags; the operand bytes that follow each are
/// listed beside it.
#[derive(Debug, PartialEq, Eq, Structural, Copy, Clone)]
pub enum OpCode {
    /// One byte: index into the number constants.
    Constant,
    Nil,
    True,
    False,
    /// One byte: index into the strings.
    String,
    Equal,
    Greater,
    Less,
    Not,
    Add,
    Subtract,
    Multiply,
    Divide,
    Negate,
    Print,
    Pop,
    /// One byte: index of the name in the strings.
    DefineGlobal,
    /// One byte: index of the name in the strings.
    GetGlobal,
    /// One byte: index of the name in the strings.
    SetGlobal,
    /// One byte: stack slot.
    GetLocal,
    /// One byte: stack slot.
    SetLocal,
    /// Two bytes: forward distance, higher byte first.
    JumpIfFalse,
    /// Two bytes: forward distance, higher byte first.
    JumpIfTrue,
    /// Two bytes: forward distance, higher byte first.
    Jump,
    /// Two bytes: backward distance, higher byte first.
    Loop,
    Return,
}

/// The byte that encodes an opcode.
pub open spec fn op_byte(op: OpCode) -> u8 {
    match op {
        OpCode::Constant => 0,
        OpCode::Nil => 1,
        OpCode::True => 2,
        OpCode::False => 3,
        OpCode::String => 4,
        OpCode::Equal => 5,
        OpCode::Greater => 6,
        OpCode::Less => 7,
        OpCode::Not => 8,
        OpCode::Add => 9,
        OpCode::Subtract => 10,
        OpCode::Multiply => 11,
        OpCode::Divide => 12,
        OpCode::Negate => 13,
        OpCode::Print => 14,
        OpCode::Pop => 15,
        OpCode::DefineGlobal => 16,
        OpCode::GetGlobal => 17,
        OpCode::SetGlobal => 18,
        OpCode::GetLocal => 19,
        OpCode::SetLocal => 20,
        OpCode::JumpIfFalse => 21,
        OpCode::JumpIfTrue => 22,
        OpCode::Jump => 23,
        OpCode::Loop => 24,
        OpCode::Return => 25,
    }
}

/// The opcode that a byte encodes, if any.
pub open spec fn op_of_byte(b: u8) -> Option<OpCode> {
    match b {
        0 => Some(OpCode::Constant),
        1 => Some(OpCode::Nil),
        2 => Some(OpCode::True),
        3 => Some(OpCode::False),
        4 => Some(OpCode::String),
        5 => Some(OpCode::Equal),
        6 => Some(OpCode::Greater),
        7 => Some(OpCode::Less),
        8 => Some(OpCode::Not),
        9 => Some(OpCode::Add),
        10 => Some(OpCode::Subtract),
        11 => Some(OpCode::Multiply),
        12 => Some(OpCode::Divide),
        13 => Some(OpCode::Negate),
        14 => Some(OpCode::Print),
        15 => Some(OpCode::Pop),
        16 => Some(OpCode::DefineGlobal),
        17 => Some(OpCode::GetGlobal),
        18 => Some(OpCode::SetGlobal),
        19 => Some(OpCode::GetLocal),
        20 => Some(OpCode::SetLocal),
        21 => Some(OpCode::JumpIfFalse),
        22 => Some(OpCode::JumpIfTrue),
        23 => Some(OpCode::Jump),
        24 => Some(OpCode::Loop),
        25 => Some(OpCode::Return),
        _ => None,
    }
}

impl OpCode {
    pub fn to_byte(self) -> (r: u8)
        ensures
            r == op_byte(self),
    {
        match self {
            OpCode::Constant => 0,
            OpCode::Nil => 1,
            OpCode::True => 2,
            OpCode::False => 3,
            OpCode::String => 4,
            OpCode::Equal => 5,
            OpCode::Greater => 6,
            OpCode::Less => 7,
            OpCode::Not => 8,
            OpCode::Add => 9,
            OpCode::Subtract => 10,
            OpCode::Multiply => 11,
            OpCode::Divide => 12,
            OpCode::Negate => 13,
            OpCode::Print => 14,
            OpCode::Pop => 15,
            OpCode::DefineGlobal => 16,
            OpCode::GetGlobal => 17,
            OpCode::SetGlobal => 18,
            OpCode::GetLocal => 19,
            OpCode::SetLocal => 20,
            OpCode::JumpIfFalse => 21,
            OpCode::JumpIfTrue => 22,
            OpCode::Jump => 23,
            OpCode::Loop => 24,
            OpCode::Return => 25,
        }
    }

    /// Decodes a byte; `None` for a byte that is no opcode.
    pub fn from_byte(b: u8) -> (r: Option<OpCode>)
        ensures
            r == op_of_byte(b),
    {
        match b {
            0 => Some(OpCode::Constant),
            1 => Some(OpCode::Nil),
            2 => Some(OpCode::True),
            3 => Some(OpCode::False),
            4 => Some(OpCode::String),
            5 => Some(OpCode::Equal),
            6 => Some(OpCode::Greater),
            7 => Some(OpCode::Less),
            8 => Some(OpCode::Not),
            9 => Some(OpCode::Add),
            10 => Some(OpCode::Subtract),
            11 => Some(OpCode::Multiply),
            12 => Some(OpCode::Divide),
            13 => Some(OpCode::Negate),
            14 => Some(OpCode::Print),
            15 => Some(OpCode::Pop),
            16 => Some(OpCode::DefineGlobal),
            17 => Some(OpCode::GetGlobal),
            18 => Some(OpCode::SetGlobal),
            19 => Some(OpCode::GetLocal),
            20 => Some(OpCode::SetLocal),
            21 => Some(OpCode::JumpIfFalse),
            22 => Some(OpCode::JumpIfTrue),
            23 => Some(OpCode::Jump),
            24 => Some(OpCode::Loop),
            25 => Some(OpCode::Return),
            _ => None,
        }
    }
}

/// Decoding an encoded opcode gives it back, and only a byte below 26
/// encodes one.
pub proof fn lemma_op_byte_round_trip(op: OpCode, b: u8)
    ensures
        op_of_byte(op_byte(op)) == Some(op),
        op_of_byte(b) is Some <==> b < 26,
        op_of_byte(b) is Some ==> op_byte(op_of_byte(b).unwrap()) == b,
{
}

/// A heap object.
#[derive(Debug, PartialEq, Clone)]
pub enum Obj {
    String { str: String },
}

impl Obj {
    pub fn is_string(&self) -> (r: bool)
        ensures
            r == (self is String),
    {
        match self {
            Obj::String { .. } => true,
        }
    }

    pub fn as_string(&self) -> (r: &str)
        ensures
            self matches Obj::String { str } && r@ == str@,
    {
        match self {
            Obj::String { str } => str.as_str(),
        }
    }
}

} // verus!
