//! The compiled form of a program: code bytes, pools and a line table.
use vstd::prelude::*;

use crate::error::{CompilationErrorReason, InterpretError};
use crate::opcode::{op_byte, OpCode};

verus! {

/// One byte of code.
pub type Byte = u8;

/// The width of a jump operand in bytes.
pub const JUMP_WIDTH: usize = 2;

/// The largest index an operand byte can hold.
pub const MAX_INDEX: usize = 255;

// ---------------------------------------------------------------------------
// Jump distances
// ---------------------------------------------------------------------------

/// How far a jump moves the instruction pointer; the opcode says in which
/// direction.
#[derive(Debug, PartialEq, Eq, Structural)]
pub struct Jump {
    pub distance: u16,
}

/// The distance of a forward jump whose operand starts at `from` and whose
/// target is `to`.
pub open spec fn forward_distance(from: int, to: int) -> int {
    to - from - 2
}

/// The distance of a backward jump whose opcode stands at `from` and whose
/// target is `to`; it is taken after the three bytes of the instruction.
pub open spec fn backward_distance(from: int, to: int) -> int {
    from + 3 - to
}

impl Jump {
    /// The forward jump from the operand at `from` to the code position `to`.
    pub fn forward(from: usize, to: usize) -> (r: Result<Self, InterpretError>)
        requires
            from + JUMP_WIDTH <= to,
        ensures
            forward_distance(from as int, to as int) <= u16::MAX ==> r == Ok::<Jump, InterpretError>(
                Jump { distance: forward_distance(from as int, to as int) as u16 },
            ),
            forward_distance(from as int, to as int) > u16::MAX ==> r == Err::<Jump, InterpretError>(
                InterpretError::JumpTooFar,
            ),
    {
        let distance = to - from - JUMP_WIDTH;
        if distance > 65535 {
            Err(InterpretError::JumpTooFar)
        } else {
            Ok(Jump { distance: distance as u16 })
        }
    }

    /// The backward jump from the opcode at `from` to the code position `to`.
    pub fn backward(from: usize, to: usize) -> (r: Result<Self, InterpretError>)
        requires
            to <= from + JUMP_WIDTH + 1,
            from + JUMP_WIDTH + 1 <= usize::MAX,
        ensures
            backward_distance(from as int, to as int) <= u16::MAX ==> r
                == Ok::<Jump, InterpretError>(
                Jump { distance: backward_distance(from as int, to as int) as u16 },
            ),
            backward_distance(from as int, to as int) > u16::MAX ==> r == Err::<
                Jump,
                InterpretError,
            >(InterpretError::JumpTooFar),
    {
        let distance = from + JUMP_WIDTH + 1 - to;
        if distance > 65535 {
            Err(InterpretError::JumpTooFar)
        } else {
            Ok(Jump { distance: distance as u16 })
        }
    }

    /// The distance as two bytes, the higher first.
    pub fn to_bytes(&self) -> (r: (Byte, Byte))
        ensures
            r.0 == self.distance / 256,
            r.1 == self.distance % 256,
    {
        let d = self.distance;
        let lower = (d & 0xff) as u8;
        let higher = (d >> 8) as u8;
        assert(d & 0xff == d % 256) by (bit_vector);
        assert(d >> 8 == d / 256) by (bit_vector);
        (higher, lower)
    }

    /// The jump whose distance is given by two bytes, the higher first.
    pub fn from_bytes(higher: Byte, lower: Byte) -> (r: Self)
        ensures
            r.distance == higher as int * 256 + lower as int,
    {
        let distance = (higher as u16) << 8 | (lower as u16);
        assert(((higher as u16) << 8 | (lower as u16)) == higher as u16 * 256 + lower as u16)
            by (bit_vector);
        Jump { distance }
    }
}

// ---------------------------------------------------------------------------
// Code bytes, pools and lines
// ---------------------------------------------------------------------------

/// The code bytes: opcodes and their operands.
#[derive(Debug)]
pub struct Codes(Vec<Byte>);

impl View for Codes {
    type V = Seq<u8>;

    closed spec fn view(&self) -> Seq<u8> {
        self.0@
    }
}

impl Codes {
    pub fn new() -> (r: Self)
        ensures
            r@ == Seq::<u8>::empty(),
    {
        Codes(Vec::new())
    }

    pub fn get(&self, index: usize) -> (r: Option<Byte>)
        ensures
            r == (if index < self@.len() {
                Some(self@[index as int])
            } else {
                None
            }),
    {
        if index < self.0.len() {
            Some(self.0[index])
        } else {
            None
        }
    }

    /// Appends a byte; returns its index.
    pub fn add(&mut self, byte: Byte) -> (r: usize)
        ensures
            final(self)@ == old(self)@.push(byte),
            r == old(self)@.len(),
    {
        self.0.push(byte);
        self.0.len() - 1
    }

    /// Overwrites the byte at `at`; returns `at`.
    pub fn patch(&mut self, at: usize, byte: Byte) -> (r: usize)
        requires
            at < old(self)@.len(),
        ensures
            final(self)@ == old(self)@.update(at as int, byte),
            r == at,
    {
        self.0.set(at, byte);
        at
    }

    pub fn len(&self) -> (r: usize)
        ensures
            r == self@.len(),
    {
        self.0.len()
    }
}

/// The texts of a sequence of strings.
pub open spec fn texts(v: Seq<String>) -> Seq<Seq<char>> {
    v.map_values(|s: String| s@)
}

/// The string pool: string literals and variable names.
#[derive(Debug)]
pub struct Strings(Vec<String>);

impl View for Strings {
    type V = Seq<Seq<char>>;

    closed spec fn view(&self) -> Seq<Seq<char>> {
        texts(self.0@)
    }
}

impl Strings {
    pub fn new() -> (r: Self)
        ensures
            r@ == Seq::<Seq<char>>::empty(),
    {
        Strings(Vec::new())
    }

    /// Appends a string; returns its index.
    pub fn add(&mut self, string: String) -> (r: usize)
        ensures
            final(self)@ == old(self)@.push(string@),
            r == old(self)@.len(),
    {
        self.0.push(string);
        assert(texts(self.0@) =~= texts(old(self).0@).push(string@));
        self.0.len() - 1
    }

    pub fn get(&self, index: usize) -> (r: Option<&String>)
        ensures
            r.is_some() == (index < self@.len()),
            r.is_some() ==> r.unwrap()@ == self@[index as int],
    {
        if index < self.0.len() {
            Some(&self.0[index])
        } else {
            None
        }
    }
}

/// The number constants, each kept as the decimal literal that wrote it.
#[derive(Debug)]
pub struct Constants(Vec<String>);

impl View for Constants {
    type V = Seq<Seq<char>>;

    closed spec fn view(&self) -> Seq<Seq<char>> {
        texts(self.0@)
    }
}

impl Constants {
    pub fn new() -> (r: Self)
        ensures
            r@ == Seq::<Seq<char>>::empty(),
    {
        Constants(Vec::new())
    }

    /// Appends a constant; returns its index.
    pub fn add(&mut self, literal: String) -> (r: usize)
        ensures
            final(self)@ == old(self)@.push(literal@),
            r == old(self)@.len(),
    {
        self.0.push(literal);
        assert(texts(self.0@) =~= texts(old(self).0@).push(literal@));
        self.0.len() - 1
    }

    pub fn get(&self, index: usize) -> (r: Option<&String>)
        ensures
            r.is_some() == (index < self@.len()),
            r.is_some() ==> r.unwrap()@ == self@[index as int],
    {
        if index < self.0.len() {
            Some(&self.0[index])
        } else {
            None
        }
    }

    pub fn at(&self, index: usize) -> (r: &String)
        requires
            index < self@.len(),
        ensures
            r@ == self@[index as int],
    {
        &self.0[index]
    }
}

/// The source line of each code byte.
#[derive(Debug)]
pub struct Lines(Vec<usize>);

impl View for Lines {
    type V = Seq<usize>;

    closed spec fn view(&self) -> Seq<usize> {
        self.0@
    }
}

impl Lines {
    pub fn new() -> (r: Self)
        ensures
            r@ == Seq::<usize>::empty(),
    {
        Lines(Vec::new())
    }

    pub fn insert(&mut self, index: usize, element: usize)
        requires
            index <= old(self)@.len(),
        ensures
            final(self)@ == old(self)@.insert(index as int, element),
    {
        self.0.insert(index, element)
    }

    pub fn at(&self, index: usize) -> (r: usize)
        requires
            index < self@.len(),
        ensures
            r == self@[index as int],
    {
        self.0[index]
    }
}

// ---------------------------------------------------------------------------
// The chunk
// ---------------------------------------------------------------------------

/// A compiled program: code bytes, number constants, strings, and the
/// source line of each code byte.
#[derive(Debug)]
pub struct Chunk {
    code: Codes,
    constants: Constants,
    strings: Strings,
    lines: Lines,
}

/// `code` extended by an instruction of one operand byte.
pub open spec fn with_operand(code: Seq<u8>, op: OpCode, operand: int) -> Seq<u8> {
    code.push(op_byte(op)).push(operand as u8)
}

/// `lines` extended by `n` entries of `line`.
pub open spec fn lines_with(lines: Seq<usize>, line: usize, n: nat) -> Seq<usize> {
    lines + Seq::new(n, |i: int| line)
}

impl Chunk {
    pub closed spec fn code(&self) -> Seq<u8> {
        self.code@
    }

    pub closed spec fn constants(&self) -> Seq<Seq<char>> {
        self.constants@
    }

    pub closed spec fn strings(&self) -> Seq<Seq<char>> {
        self.strings@
    }

    pub closed spec fn lines(&self) -> Seq<usize> {
        self.lines@
    }

    /// One line per code byte, and every pool index fits in a byte.
    pub open spec fn wf(&self) -> bool {
        &&& self.lines().len() == self.code().len()
        &&& self.constants().len() <= MAX_INDEX + 1
        &&& self.strings().len() <= MAX_INDEX + 1
    }

    pub fn new() -> (r: Self)
        ensures
            r.wf(),
            r.code() == Seq::<u8>::empty(),
            r.constants() == Seq::<Seq<char>>::empty(),
            r.strings() == Seq::<Seq<char>>::empty(),
            r.lines() == Seq::<usize>::empty(),
    {
        Chunk {
            code: Codes::new(),
            constants: Constants::new(),
            strings: Strings::new(),
            lines: Lines::new(),
        }
    }

    /// The number of code bytes.
    pub fn len(&self) -> (r: usize)
        ensures
            r == self.code().len(),
    {
        self.code.len()
    }

    fn write_byte(&mut self, byte: Byte, line: usize)
        requires
            old(self).wf(),
        ensures
            final(self).wf(),
            final(self).code() == old(self).code().push(byte),
            final(self).lines() == old(self).lines().push(line),
            final(self).constants() == old(self).constants(),
            final(self).strings() == old(self).strings(),
    {
        let at = self.code.add(byte);
        self.lines.insert(at, line);
        assert(self.lines@ =~= old(self).lines@.push(line));
    }

    /// Appends an instruction without operands.
    pub fn write_code(&mut self, op_code: OpCode, line: usize)
        requires
            old(self).wf(),
        ensures
            final(self).wf(),
            final(self).code() == old(self).code().push(op_byte(op_code)),
            final(self).lines() == old(self).lines().push(line),
            final(self).constants() == old(self).constants(),
            final(self).strings() == old(self).strings(),
    {
        self.write_byte(op_code.to_byte(), line)
    }

    /// Appends a jump with a placeholder distance; returns the position of
    /// the distance, to be patched.
    pub fn write_jump(&mut self, op_code: OpCode, line: usize) -> (r: Result<usize, InterpretError>)
        requires
            old(self).wf(),
        ensures
            final(self).wf(),
            r is Ok,
            r->Ok_0 == old(self).code().len() + 1,
            final(self).code() == old(self).code().push(op_byte(op_code)).push(0u8).push(0u8),
            final(self).lines() == lines_with(old(self).lines(), line, 3),
            final(self).constants() == old(self).constants(),
            final(self).strings() == old(self).strings(),
    {
        let (higher, lower) = Jump { distance: 0 }.to_bytes();
        self.write_byte(op_code.to_byte(), line);
        self.write_byte(higher, line);
        self.write_byte(lower, line);
        assert(self.lines@ =~= lines_with(old(self).lines@, line, 3));
        Ok(self.code.len() - JUMP_WIDTH)
    }

    /// Points the jump whose distance stands at `at` to the end of the code.
    pub fn patch_jump(&mut self, at: usize) -> (r: Result<(), InterpretError>)
        requires
            old(self).wf(),
            at + JUMP_WIDTH <= old(self).code().len(),
        ensures
            final(self).wf(),
            final(self).lines() == old(self).lines(),
            final(self).constants() == old(self).constants(),
            final(self).strings() == old(self).strings(),
            ({
                let d = forward_distance(at as int, old(self).code().len() as int);
                &&& d > u16::MAX ==> r == Err::<(), InterpretError>(InterpretError::JumpTooFar)
                    && final(self).code() == old(self).code()
                &&& d <= u16::MAX ==> r == Ok::<(), InterpretError>(()) && final(self).code()
                    == old(self).code().update(at as int, (d / 256) as u8).update(
                    at + 1,
                    (d % 256) as u8,
                )
            }),
    {
        let jump = Jump::forward(at, self.code.len())?;
        let (higher, lower) = jump.to_bytes();
        self.code.patch(at, higher);
        self.code.patch(at + 1, lower);
        Ok(())
    }

    /// Appends a backward jump to the code position `to`.
    pub fn write_loop(&mut self, to: usize, line: usize) -> (r: Result<(), InterpretError>)
        requires
            old(self).wf(),
            to <= old(self).code().len(),
            old(self).code().len() + 3 <= usize::MAX,
        ensures
            final(self).wf(),
            final(self).constants() == old(self).constants(),
            final(self).strings() == old(self).strings(),
            ({
                let d = backward_distance(old(self).code().len() as int, to as int);
                &&& d > u16::MAX ==> r == Err::<(), InterpretError>(InterpretError::JumpTooFar)
                    && final(self).code() == old(self).code() && final(self).lines()
                    == old(self).lines()
                &&& d <= u16::MAX ==> r == Ok::<(), InterpretError>(()) && final(self).code()
                    == old(self).code().push(op_byte(OpCode::Loop)).push((d / 256) as u8).push(
                    (d % 256) as u8,
                ) && final(self).lines() == lines_with(old(self).lines(), line, 3)
            }),
    {
        let jump = Jump::backward(self.code.len(), to)?;
        let (higher, lower) = jump.to_bytes();
        self.write_byte(OpCode::Loop.to_byte(), line);
        self.write_byte(higher, line);
        self.write_byte(lower, line);
        assert(self.lines@ =~= lines_with(old(self).lines@, line, 3));
        Ok(())
    }

    /// Appends an instruction with one operand byte.
    fn write_with_operand(&mut self, op_code: OpCode, operand: usize, line: usize)
        requires
            old(self).wf(),
            operand <= MAX_INDEX,
        ensures
            final(self).wf(),
            final(self).code() == with_operand(old(self).code(), op_code, operand as int),
            final(self).lines() == lines_with(old(self).lines(), line, 2),
            final(self).constants() == old(self).constants(),
            final(self).strings() == old(self).strings(),
    {
        self.write_code(op_code, line);
        self.write_byte(operand as u8, line);
        assert(self.lines@ =~= lines_with(old(self).lines@, line, 2));
    }

    /// Adds a number constant, given by its decimal literal, and appends the
    /// instruction that loads it. Fails when the pool is full.
    pub fn write_constant(&mut self, literal: String, line: usize) -> (r: Result<(), InterpretError>)
        requires
            old(self).wf(),
        ensures
            final(self).wf(),
            final(self).strings() == old(self).strings(),
            old(self).constants().len() > MAX_INDEX ==> r == Err::<(), InterpretError>(
                InterpretError::CompileError(CompilationErrorReason::TooManyConstants),
            ) && *final(self) == *old(self),
            old(self).constants().len() <= MAX_INDEX ==> r == Ok::<(), InterpretError>(())
                && final(self).constants() == old(self).constants().push(literal@)
                && final(self).code() == with_operand(
                old(self).code(),
                OpCode::Constant,
                old(self).constants().len() as int,
            ) && final(self).lines() == lines_with(old(self).lines(), line, 2),
    {
        if self.constants.0.len() > MAX_INDEX {
            return Err(InterpretError::CompileError(CompilationErrorReason::TooManyConstants));
        }
        let index = self.constants.add(literal);
        self.write_with_operand(OpCode::Constant, index, line);
        Ok(())
    }

    /// Adds a string and appends `op_code` with its index. Fails when the
    /// pool is full.
    fn write_with_string(&mut self, op_code: OpCode, str: String, line: usize) -> (r: Result<
        (),
        InterpretError,
    >)
        requires
            old(self).wf(),
        ensures
            final(self).wf(),
            final(self).constants() == old(self).constants(),
            old(self).strings().len() > MAX_INDEX ==> r == Err::<(), InterpretError>(
                InterpretError::CompileError(CompilationErrorReason::TooManyStrings),
            ) && *final(self) == *old(self),
            old(self).strings().len() <= MAX_INDEX ==> r == Ok::<(), InterpretError>(())
                && final(self).strings() == old(self).strings().push(str@) && final(self).code()
                == with_operand(old(self).code(), op_code, old(self).strings().len() as int)
                && final(self).lines() == lines_with(old(self).lines(), line, 2),
    {
        if self.strings.0.len() > MAX_INDEX {
            return Err(InterpretError::CompileError(CompilationErrorReason::TooManyStrings));
        }
        let index = self.strings.add(str);
        self.write_with_operand(op_code, index, line);
        Ok(())
    }

    /// Appends the definition of the global `str`. Fails when the string pool is full.
    pub fn write_define_global_var(&mut self, str: String, line: usize) -> (r: Result<(), InterpretError>)
        requires
            old(self).wf(),
        ensures
            final(self).wf(),
            final(self).constants() == old(self).constants(),
            old(self).strings().len() > MAX_INDEX ==> r == Err::<(), InterpretError>(
                InterpretError::CompileError(CompilationErrorReason::TooManyStrings),
            ) && *final(self) == *old(self),
            old(self).strings().len() <= MAX_INDEX ==> r == Ok::<(), InterpretError>(())
                && final(self).strings() == old(self).strings().push(str@) && final(self).code()
                == with_operand(old(self).code(), OpCode::DefineGlobal, old(self).strings().len() as int)
                && final(self).lines() == lines_with(old(self).lines(), line, 2),
    {
        self.write_with_string(OpCode::DefineGlobal, str, line)
    }

    /// Appends the assignment to the global `str`. Fails when the string pool is full.
    pub fn write_set_global_var(&mut self, str: String, line: usize) -> (r: Result<(), InterpretError>)
        requires
            old(self).wf(),
        ensures
            final(self).wf(),
            final(self).constants() == old(self).constants(),
            old(self).strings().len() > MAX_INDEX ==> r == Err::<(), InterpretError>(
                InterpretError::CompileError(CompilationErrorReason::TooManyStrings),
            ) && *final(self) == *old(self),
            old(self).strings().len() <= MAX_INDEX ==> r == Ok::<(), InterpretError>(())
                && final(self).strings() == old(self).strings().push(str@) && final(self).code()
                == with_operand(old(self).code(), OpCode::SetGlobal, old(self).strings().len() as int)
                && final(self).lines() == lines_with(old(self).lines(), line, 2),
    {
        self.write_with_string(OpCode::SetGlobal, str, line)
    }

    /// Appends the read of the global `str`. Fails when the string pool is full.
    pub fn write_get_global_var(&mut self, str: String, line: usize) -> (r: Result<(), InterpretError>)
        requires
            old(self).wf(),
        ensures
            final(self).wf(),
            final(self).constants() == old(self).constants(),
            old(self).strings().len() > MAX_INDEX ==> r == Err::<(), InterpretError>(
                InterpretError::CompileError(CompilationErrorReason::TooManyStrings),
            ) && *final(self) == *old(self),
            old(self).strings().len() <= MAX_INDEX ==> r == Ok::<(), InterpretError>(())
                && final(self).strings() == old(self).strings().push(str@) && final(self).code()
                == with_operand(old(self).code(), OpCode::GetGlobal, old(self).strings().len() as int)
                && final(self).lines() == lines_with(old(self).lines(), line, 2),
    {
        self.write_with_string(OpCode::GetGlobal, str, line)
    }

    /// Appends the load of the string literal `str`. Fails when the string pool is full.
    pub fn write_string(&mut self, str: String, line: usize) -> (r: Result<(), InterpretError>)
        requires
            old(self).wf(),
        ensures
            final(self).wf(),
            final(self).constants() == old(self).constants(),
            old(self).strings().len() > MAX_INDEX ==> r == Err::<(), InterpretError>(
                InterpretError::CompileError(CompilationErrorReason::TooManyStrings),
            ) && *final(self) == *old(self),
            old(self).strings().len() <= MAX_INDEX ==> r == Ok::<(), InterpretError>(())
                && final(self).strings() == old(self).strings().push(str@) && final(self).code()
                == with_operand(old(self).code(), OpCode::String, old(self).strings().len() as int)
                && final(self).lines() == lines_with(old(self).lines(), line, 2),
    {
        self.write_with_string(OpCode::String, str, line)
    }

    /// Appends the assignment to the local in slot `locals_index`.
    pub fn write_set_local_var(&mut self, locals_index: usize, line: usize)
        requires
            old(self).wf(),
            locals_index <= MAX_INDEX,
        ensures
            final(self).wf(),
            final(self).code() == with_operand(old(self).code(), OpCode::SetLocal, locals_index as int),
            final(self).lines() == lines_with(old(self).lines(), line, 2),
            final(self).constants() == old(self).constants(),
            final(self).strings() == old(self).strings(),
    {
        self.write_with_operand(OpCode::SetLocal, locals_index, line)
    }

    /// Appends the read of the local in slot `locals_index`.
    pub fn write_get_local_var(&mut self, locals_index: usize, line: usize)
        requires
            old(self).wf(),
            locals_index <= MAX_INDEX,
        ensures
            final(self).wf(),
            final(self).code() == with_operand(old(self).code(), OpCode::GetLocal, locals_index as int),
            final(self).lines() == lines_with(old(self).lines(), line, 2),
            final(self).constants() == old(self).constants(),
            final(self).strings() == old(self).strings(),
    {
        self.write_with_operand(OpCode::GetLocal, locals_index, line)
    }

    pub fn read_byte(&self, index: usize) -> (r: Option<Byte>)
        ensures
            r == (if index < self.code().len() {
                Some(self.code()[index as int])
            } else {
                None
            }),
    {
        self.code.get(index)
    }

    /// The jump whose distance stands at `index`.
    pub fn read_jump(&self, index: usize) -> (r: Option<Jump>)
        ensures
            r.is_some() == (index + 1 < self.code().len()),
            r.is_some() ==> r.unwrap().distance == self.code()[index as int] as int * 256
                + self.code()[index + 1] as int,
    {
        let len = self.code.len();
        if len < JUMP_WIDTH || index > len - JUMP_WIDTH {
            return None;
        }
        let higher = self.read_byte(index)?;
        let lower = self.read_byte(index + 1)?;
        Some(Jump::from_bytes(higher, lower))
    }

    /// The constant whose index stands at `index`.
    pub fn read_constant(&self, index: usize) -> (r: Option<&String>)
        ensures
            r.is_some() == (index < self.code().len() && self.code()[index as int]
                < self.constants().len()),
            r.is_some() ==> r.unwrap()@ == self.constants()[self.code()[index as int] as int],
    {
        let i = self.read_byte(index)?;
        self.constants.get(i as usize)
    }

    /// The string whose index stands at `index`.
    pub fn read_string(&self, index: usize) -> (r: Option<&str>)
        ensures
            r.is_some() == (index < self.code().len() && self.code()[index as int]
                < self.strings().len()),
            r.is_some() ==> r.unwrap()@ == self.strings()[self.code()[index as int] as int],
    {
        let i = self.read_byte(index)?;
        match self.strings.get(i as usize) {
            Some(s) => Some(s.as_str()),
            None => None,
        }
    }

    /// The source line of the code byte at `index`.
    pub fn line_at(&self, index: usize) -> (r: usize)
        requires
            self.wf(),
            index < self.code().len(),
        ensures
            r == self.lines()[index as int],
    {
        self.lines.at(index)
    }
}

} // verus!
