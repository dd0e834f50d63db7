//! A text listing of a chunk: one line per instruction, with its offset,
//! its source line and what it does.
use vstd::prelude::*;
use vstd::string::{StrSliceExecFns, StringExecFns};

use crate::chunk::Chunk;
use crate::opcode::{op_of_byte, OpCode};

verus! {

// ---------------------------------------------------------------------------
// Numbers as text
// ---------------------------------------------------------------------------

pub open spec fn digit_char(d: nat) -> char {
    if d == 0 {
        '0'
    } else if d == 1 {
        '1'
    } else if d == 2 {
        '2'
    } else if d == 3 {
        '3'
    } else if d == 4 {
        '4'
    } else if d == 5 {
        '5'
    } else if d == 6 {
        '6'
    } else if d == 7 {
        '7'
    } else if d == 8 {
        '8'
    } else {
        '9'
    }
}

/// The decimal digits of `n`.
pub open spec fn decimal(n: nat) -> Seq<char>
    decreases n,
{
    if n < 10 {
        seq![digit_char(n)]
    } else {
        decimal(n / 10) + seq![digit_char(n % 10)]
    }
}

/// `n` in decimal, right-aligned in eight columns.
pub open spec fn padded(n: nat) -> Seq<char> {
    let d = decimal(n);
    if d.len() < 8 {
        Seq::new((8 - d.len()) as nat, |i: int| ' ') + d
    } else {
        d
    }
}

fn digit_text(d: usize) -> (r: &'static str)
    requires
        d < 10,
    ensures
        r@ == seq![digit_char(d as nat)],
{
    proof {
        reveal_strlit("0");
        reveal_strlit("1");
        reveal_strlit("2");
        reveal_strlit("3");
        reveal_strlit("4");
        reveal_strlit("5");
        reveal_strlit("6");
        reveal_strlit("7");
        reveal_strlit("8");
        reveal_strlit("9");
    }
    match d {
        0 => "0",
        1 => "1",
        2 => "2",
        3 => "3",
        4 => "4",
        5 => "5",
        6 => "6",
        7 => "7",
        8 => "8",
        _ => "9",
    }
}

/// The decimal digits of `n`.
pub fn decimal_text(n: usize) -> (r: String)
    ensures
        r@ == decimal(n as nat),
    decreases n,
{
    if n < 10 {
        String::from_str(digit_text(n))
    } else {
        let mut s = decimal_text(n / 10);
        s.append(digit_text(n % 10));
        s
    }
}

/// `n` in decimal, right-aligned in eight columns.
pub fn padded_text(n: usize) -> (r: String)
    ensures
        r@ == padded(n as nat),
{
    let digits = decimal_text(n);
    let len = digits.as_str().unicode_len();
    let mut out = String::new();
    if len < 8 {
        proof {
            reveal_strlit(" ");
        }
        let mut i: usize = 0;
        while i < 8 - len
            invariant
                len == digits@.len(),
                len < 8,
                i <= 8 - len,
                out@ == Seq::new(i as nat, |k: int| ' '),
            decreases 8 - len - i,
        {
            proof {
                reveal_strlit(" ");
            }
            out.append(" ");
            assert(out@ =~= Seq::new((i + 1) as nat, |k: int| ' '));
            i = i + 1;
        }
    }
    out.append(digits.as_str());
    assert(out@ =~= padded(n as nat));
    out
}

// ---------------------------------------------------------------------------
// Instructions as text
// ---------------------------------------------------------------------------

/// Rust's debug text of a string: quoted, with escapes.
pub uninterp spec fn debug_text(s: Seq<char>) -> Seq<char>;

/// Relies on `format!("{:?}", s)`, the debug text of a `str`, which depends
/// on the characters alone.
#[verifier::external_body]
fn quoted(s: &str) -> (r: String)
    ensures
        r@ == debug_text(s@),
{
    format!("{:?}", s)
}

/// The name of an instruction that has no operand.
pub open spec fn simple_name(op: OpCode) -> Seq<char> {
    match op {
        OpCode::Nil => "Nil"@,
        OpCode::True => "True"@,
        OpCode::False => "False"@,
        OpCode::Equal => "Equal"@,
        OpCode::Greater => "Greater"@,
        OpCode::Less => "Less"@,
        OpCode::Not => "Not"@,
        OpCode::Add => "Add"@,
        OpCode::Subtract => "Subtract"@,
        OpCode::Multiply => "Multiply"@,
        OpCode::Divide => "Divide"@,
        OpCode::Negate => "Negate"@,
        OpCode::Print => "Print"@,
        OpCode::Pop => "Pop"@,
        _ => "Return"@,
    }
}

/// What a listing says of an instruction of one operand byte, by opcode.
pub open spec fn operand_text(op: OpCode, operand: u8, lits: Seq<Seq<char>>, strs: Seq<Seq<char>>) -> Option<Seq<char>> {
    match op {
        OpCode::Constant => if (operand as int) < lits.len() {
            Some("Constant "@ + lits[operand as int])
        } else {
            None
        },
        OpCode::String => if (operand as int) < strs.len() {
            Some("String "@ + debug_text(strs[operand as int]))
        } else {
            None
        },
        OpCode::DefineGlobal => if (operand as int) < strs.len() {
            Some("Global define "@ + debug_text(strs[operand as int]))
        } else {
            None
        },
        OpCode::GetGlobal => if (operand as int) < strs.len() {
            Some("Global get "@ + debug_text(strs[operand as int]))
        } else {
            None
        },
        OpCode::SetGlobal => if (operand as int) < strs.len() {
            Some("Global set "@ + debug_text(strs[operand as int]))
        } else {
            None
        },
        OpCode::GetLocal => Some("Local var get index("@ + decimal(operand as nat) + ")"@),
        _ => Some("Local var set index("@ + decimal(operand as nat) + ")"@),
    }
}

pub open spec fn has_one_operand(op: OpCode) -> bool {
    op is Constant || op is String || op is DefineGlobal || op is GetGlobal || op is SetGlobal
        || op is GetLocal || op is SetLocal
}

pub open spec fn is_jump(op: OpCode) -> bool {
    op is JumpIfFalse || op is JumpIfTrue || op is Jump || op is Loop
}

/// The text for the instruction at `at` and the offset of the next one. A
/// byte that is no opcode, or an operand that is missing or points nowhere,
/// reads as invalid and the listing goes on at the next byte.
pub open spec fn instruction_text(code: Seq<u8>, lits: Seq<Seq<char>>, strs: Seq<Seq<char>>, at: int) -> (Seq<char>, int) {
    let invalid = ("Invalid"@, at + 1);
    match op_of_byte(code[at]) {
        None => invalid,
        Some(op) => if has_one_operand(op) {
            if at + 1 < code.len() && operand_text(op, code[at + 1], lits, strs) is Some {
                (operand_text(op, code[at + 1], lits, strs).unwrap(), at + 2)
            } else {
                invalid
            }
        } else if is_jump(op) {
            if at + 2 < code.len() {
                let d = code[at + 1] as int * 256 + code[at + 2] as int;
                if op is Loop {
                    if d <= at + 3 {
                        ("Loop back to "@ + decimal((at + 3 - d) as nat), at + 3)
                    } else {
                        invalid
                    }
                } else if at + 3 + d > usize::MAX {
                    invalid
                } else {
                    (
                        if op is JumpIfFalse {
                            "If (false) jump to "@
                        } else if op is JumpIfTrue {
                            "If (true) jump to "@
                        } else {
                            "Jump to "@
                        } + decimal((at + 3 + d) as nat),
                        at + 3,
                    )
                }
            } else {
                invalid
            }
        } else {
            (simple_name(op), at + 1)
        },
    }
}

/// One line of a listing.
pub open spec fn listing_line(at: nat, line: nat, text: Seq<char>) -> Seq<char> {
    padded(at) + " "@ + padded(line) + " | "@ + text + "\n"@
}

/// The lines for the instructions from `at` on.
pub open spec fn listing(code: Seq<u8>, lits: Seq<Seq<char>>, strs: Seq<Seq<char>>, lines: Seq<usize>, at: int) -> Seq<char>
    decreases code.len() - at,
{
    if at < 0 || at >= code.len() || at >= lines.len() {
        Seq::empty()
    } else {
        let (text, next) = instruction_text(code, lits, strs, at);
        if next <= at {
            Seq::empty()
        } else {
            listing_line(at as nat, lines[at] as nat, text) + listing(code, lits, strs, lines, next)
        }
    }
}

/// The listing of a chunk under a title.
pub open spec fn disassembly(code: Seq<u8>, lits: Seq<Seq<char>>, strs: Seq<Seq<char>>, lines: Seq<usize>, name: Seq<char>) -> Seq<char> {
    "\n== "@ + name + " ==\n"@ + listing(code, lits, strs, lines, 0)
}

fn simple_name_text(op: OpCode) -> (r: &'static str)
    ensures
        r@ == simple_name(op),
{
    match op {
        OpCode::Nil => "Nil",
        OpCode::True => "True",
        OpCode::False => "False",
        OpCode::Equal => "Equal",
        OpCode::Greater => "Greater",
        OpCode::Less => "Less",
        OpCode::Not => "Not",
        OpCode::Add => "Add",
        OpCode::Subtract => "Subtract",
        OpCode::Multiply => "Multiply",
        OpCode::Divide => "Divide",
        OpCode::Negate => "Negate",
        OpCode::Print => "Print",
        OpCode::Pop => "Pop",
        _ => "Return",
    }
}

/// Two texts joined.
fn joined(a: &str, b: &str) -> (r: String)
    ensures
        r@ == a@ + b@,
{
    let mut s = String::from_str(a);
    s.append(b);
    s
}

impl Chunk {
    /// The text for the instruction at `at` and the offset of the next one.
    pub fn instruction_text(&self, at: usize) -> (r: (String, usize))
        requires
            at < self.code().len(),
        ensures
            (r.0@, r.1 as int) == instruction_text(self.code(), self.constants(), self.strings(), at as int),
    {
        let len = self.len();
        let byte = self.read_byte(at).unwrap();
        let invalid = (String::from_str("Invalid"), at + 1);
        let op = match OpCode::from_byte(byte) {
            Some(op) => op,
            None => {
                return invalid;
            },
        };
        match op {
            OpCode::Constant | OpCode::String | OpCode::DefineGlobal | OpCode::GetGlobal
            | OpCode::SetGlobal | OpCode::GetLocal | OpCode::SetLocal => {
                if at + 1 >= len {
                    return invalid;
                }
                let operand = self.read_byte(at + 1).unwrap();
                let text = match op {
                    OpCode::Constant => match self.read_constant(at + 1) {
                        Some(c) => joined("Constant ", c.as_str()),
                        None => {
                            return invalid;
                        },
                    },
                    OpCode::GetLocal | OpCode::SetLocal => {
                        let mut s = String::from_str(
                            match op {
                                OpCode::GetLocal => "Local var get index(",
                                _ => "Local var set index(",
                            },
                        );
                        s.append(decimal_text(operand as usize).as_str());
                        s.append(")");
                        s
                    },
                    _ => match self.read_string(at + 1) {
                        Some(t) => joined(
                            match op {
                                OpCode::String => "String ",
                                OpCode::DefineGlobal => "Global define ",
                                OpCode::GetGlobal => "Global get ",
                                _ => "Global set ",
                            },
                            quoted(t).as_str(),
                        ),
                        None => {
                            return invalid;
                        },
                    },
                };
                (text, at + 2)
            },
            OpCode::JumpIfFalse | OpCode::JumpIfTrue | OpCode::Jump | OpCode::Loop => {
                if len - at <= 2 {
                    return invalid;
                }
                let d = self.read_jump(at + 1).unwrap().distance as usize;
                match op {
                    OpCode::Loop => {
                        if d > at + 3 {
                            return invalid;
                        }
                        (joined("Loop back to ", decimal_text(at + 3 - d).as_str()), at + 3)
                    },
                    _ => {
                        if at + 3 > usize::MAX - d {
                            return invalid;
                        }
                        let name = match op {
                            OpCode::JumpIfFalse => "If (false) jump to ",
                            OpCode::JumpIfTrue => "If (true) jump to ",
                            _ => "Jump to ",
                        };
                        (joined(name, decimal_text(at + 3 + d).as_str()), at + 3)
                    },
                }
            },
            _ => (String::from_str(simple_name_text(op)), at + 1),
        }
    }
    /// Appends the line for the instruction at `at`; returns the offset of
    /// the next instruction.
    pub fn disassemble_instruction_buffer(&self, buffer: &mut String, at: usize) -> (r: usize)
        requires
            self.wf(),
            at < self.code().len(),
        ensures
            ({
                let (text, next) = instruction_text(
                    self.code(),
                    self.constants(),
                    self.strings(),
                    at as int,
                );
                &&& final(buffer)@ == old(buffer)@ + listing_line(
                    at as nat,
                    self.lines()[at as int] as nat,
                    text,
                )
                &&& r == next
            }),
    {
        let line = self.line_at(at);
        let (text, next) = self.instruction_text(at);
        buffer.append(padded_text(at).as_str());
        buffer.append(" ");
        buffer.append(padded_text(line).as_str());
        buffer.append(" | ");
        buffer.append(text.as_str());
        buffer.append("\n");
        assert(buffer@ =~= old(buffer)@ + listing_line(at as nat, line as nat, text@));
        next
    }

    /// The listing of the chunk under the title `name`.
    pub fn disassemble_into_string(&self, name: &str) -> (r: String)
        requires
            self.wf(),
        ensures
            r@ == disassembly(self.code(), self.constants(), self.strings(), self.lines(), name@),
    {
        let ghost code = self.code();
        let ghost lits = self.constants();
        let ghost strs = self.strings();
        let ghost lines = self.lines();
        let mut out = String::new();
        out.append("\n== ");
        out.append(name);
        out.append(" ==\n");
        let len = self.len();
        let mut n: usize = 0;
        assert(out@ + listing(code, lits, strs, lines, 0) =~= disassembly(code, lits, strs, lines, name@));
        while n < len
            invariant
                self.wf(),
                len == code.len(),
                code == self.code(),
                lits == self.constants(),
                strs == self.strings(),
                lines == self.lines(),
                n <= len,
                out@ + listing(code, lits, strs, lines, n as int) == disassembly(
                    code,
                    lits,
                    strs,
                    lines,
                    name@,
                ),
            decreases len - n,
        {
            let ghost before = out@;
            let next = self.disassemble_instruction_buffer(&mut out, n);
            let ghost text = instruction_text(code, lits, strs, n as int).0;
            assert(next > n);
            assert(listing(code, lits, strs, lines, n as int) == listing_line(
                n as nat,
                lines[n as int] as nat,
                text,
            ) + listing(code, lits, strs, lines, next as int));
            assert(before + listing(code, lits, strs, lines, n as int) =~= out@ + listing(
                code,
                lits,
                strs,
                lines,
                next as int,
            ));
            n = next;
        }
        assert(listing(code, lits, strs, lines, n as int) =~= Seq::<char>::empty());
        assert(out@ =~= out@ + Seq::<char>::empty());
        out
    }
}

/// Disassembling is a function of the chunk and the title: two listings of
/// the same chunk under the same title are the same text.
pub proof fn lemma_disassembly_repeatable(chunk: &Chunk, name: Seq<char>, first: Seq<char>, second: Seq<char>)
    requires
        first == disassembly(chunk.code(), chunk.constants(), chunk.strings(), chunk.lines(), name),
        second == disassembly(chunk.code(), chunk.constants(), chunk.strings(), chunk.lines(), name),
    ensures
        first == second,
{
}

} // verus!
