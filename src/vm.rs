//! The stack machine. It runs one instruction per call of `step`; what it
//! cannot do itself (the four arithmetic operators on numbers, reading a
//! number literal, printing) it hands back as a `Step`, and the caller
//! answers with `push_number` where a number is owed.
use vstd::prelude::*;
use vstd::string::StringExecFns;

use crate::chunk::Chunk;
use crate::error::InterpretError;
use crate::heap::RcHeap;
use crate::opcode::{op_of_byte, Obj, OpCode};
use crate::value::{num_less, text_of, truthy, values_equal, Number, Value, SIGN_BIT};

verus! {

// ---------------------------------------------------------------------------
// The operand stack
// ---------------------------------------------------------------------------

/// The operand stack; the top is the last element.
#[derive(Debug)]
pub struct Stack(Vec<Value>);

impl View for Stack {
    type V = Seq<Value>;

    closed spec fn view(&self) -> Seq<Value> {
        self.0@
    }
}

impl Stack {
    pub fn new() -> (r: Self)
        ensures
            r@ == Seq::<Value>::empty(),
    {
        Stack(Vec::new())
    }

    pub fn push(&mut self, value: Value)
        ensures
            final(self)@ == old(self)@.push(value),
    {
        self.0.push(value)
    }

    pub fn pop(&mut self) -> (r: Option<Value>)
        ensures
            old(self)@.len() == 0 ==> r is None && final(self)@ == old(self)@,
            old(self)@.len() > 0 ==> r == Some(old(self)@.last()) && final(self)@ == old(
                self,
            )@.drop_last(),
    {
        self.0.pop()
    }

    /// The value `offset` places below the top.
    pub fn peek(&self, offset: usize) -> (r: Option<&Value>)
        ensures
            offset < self@.len() ==> r == Some(&self@[self@.len() - 1 - offset]),
            offset >= self@.len() ==> r is None,
    {
        let n = self.0.len();
        if offset >= n {
            None
        } else {
            Some(&self.0[n - 1 - offset])
        }
    }

    pub fn get(&self, at: usize) -> (r: Option<&Value>)
        ensures
            at < self@.len() ==> r == Some(&self@[at as int]),
            at >= self@.len() ==> r is None,
    {
        if at < self.0.len() {
            Some(&self.0[at])
        } else {
            None
        }
    }

    pub fn set(&mut self, at: usize, value: Value)
        requires
            at < old(self)@.len(),
        ensures
            final(self)@ == old(self)@.update(at as int, value),
    {
        self.0.set(at, value);
    }

    pub fn is_empty(&self) -> (r: bool)
        ensures
            r == (self@.len() == 0),
    {
        self.0.len() == 0
    }

    pub fn len(&self) -> (r: usize)
        ensures
            r == self@.len(),
    {
        self.0.len()
    }
}

// ---------------------------------------------------------------------------
// What a step asks of its caller
// ---------------------------------------------------------------------------

/// An arithmetic operator on numbers.
#[derive(Debug, PartialEq, Eq, Structural, Copy, Clone)]
pub enum ArithOp {
    Add,
    Subtract,
    Multiply,
    Divide,
}

/// The outcome of one instruction.
#[derive(Debug)]
pub enum Step {
    /// Nothing is owed; run the next instruction.
    Continue,
    /// Write this value to the output; nothing is owed.
    Print(Value),
    /// Push `lhs op rhs` with `push_number`, then go on.
    Arithmetic { op: ArithOp, lhs: Number, rhs: Number },
    /// Push the value of this decimal literal with `push_number`, then go on.
    Constant(String),
    /// The program returned this value.
    Done(Value),
    /// The program failed.
    Failed(InterpretError),
}

// ---------------------------------------------------------------------------
// The transition relation
// ---------------------------------------------------------------------------

pub type Globals = Seq<(Seq<char>, Value)>;

/// The byte at `i`, if any.
pub open spec fn operand(code: Seq<u8>, i: int) -> Option<u8> {
    if 0 <= i < code.len() {
        Some(code[i])
    } else {
        None
    }
}

/// The index of the global `name`, searching from the newest.
pub open spec fn find_global(g: Globals, name: Seq<char>) -> Option<int>
    decreases g.len(),
{
    if g.len() == 0 {
        None
    } else if g.last().0 == name {
        Some(g.len() - 1)
    } else {
        find_global(g.drop_last(), name)
    }
}

/// A found global is one of the list, with that name.
pub proof fn lemma_find_global(g: Globals, name: Seq<char>)
    ensures
        find_global(g, name) matches Some(i) ==> 0 <= i < g.len() && g[i].0 == name,
    decreases g.len(),
{
    if g.len() > 0 && g.last().0 != name {
        lemma_find_global(g.drop_last(), name);
    }
}

/// The value of the global `name`; nil when it is not defined.
pub open spec fn global_value(g: Globals, name: Seq<char>) -> Value {
    match find_global(g, name) {
        Some(i) => g[i].1,
        None => Value::Nil,
    }
}

/// The globals after `name` is set to `v`, defined or not.
pub open spec fn define_global(g: Globals, name: Seq<char>, v: Value) -> Globals {
    match find_global(g, name) {
        Some(i) => g.update(i, (name, v)),
        None => g.push((name, v)),
    }
}

pub open spec fn fails(r: Step, e: InterpretError) -> bool {
    r == Step::Failed(e)
}

/// Both of the two top values are numbers.
pub open spec fn two_numbers(st: Seq<Value>) -> bool {
    st.len() >= 2 && st[st.len() - 1] is Number && st[st.len() - 2] is Number
}

/// The stack without its two top values.
pub open spec fn pop2(st: Seq<Value>) -> Seq<Value> {
    st.drop_last().drop_last()
}

/// The number held by a value that is one.
pub open spec fn num_of(v: Value) -> u64 {
    match v {
        Value::Number(n) => n.bits,
        _ => 0,
    }
}

/// The operand of a jump whose distance stands at `i`.
pub open spec fn distance_at(code: Seq<u8>, i: int) -> int {
    code[i] as int * 256 + code[i + 1] as int
}

/// One instruction from the machine state (`ip`, `st`, `g`) over a chunk
/// (`code`, number literals `lits`, strings `strs`) gives the state
/// (`ip2`, `st2`, `g2`) and the outcome `r`. After a failure the state is
/// left open.
pub open spec fn step_relation(
    code: Seq<u8>,
    lits: Seq<Seq<char>>,
    strs: Seq<Seq<char>>,
    ip: int,
    st: Seq<Value>,
    g: Globals,
    ip2: int,
    st2: Seq<Value>,
    g2: Globals,
    r: Step,
) -> bool {
    let n = ip + 1;
    let top = st.last();
    let cont = |i: int, s: Seq<Value>, gl: Globals|
        r is Continue && ip2 == i && st2 == s && g2 == gl;
    if !(0 <= ip < code.len()) || op_of_byte(code[ip]) is None {
        fails(r, InterpretError::RuntimeError)
    } else {
        match op_of_byte(code[ip]).unwrap() {
            OpCode::Return => if st.len() == 0 {
                fails(r, InterpretError::StackUnderflowError)
            } else {
                r == Step::Done(top) && ip2 == n && st2 == st.drop_last() && g2 == g
            },
            OpCode::Not => if st.len() == 0 {
                fails(r, InterpretError::StackUnderflowError)
            } else {
                cont(n, st.drop_last().push(Value::Bool(!truthy(top))), g)
            },
            OpCode::False => cont(n, st.push(Value::Bool(false)), g),
            OpCode::True => cont(n, st.push(Value::Bool(true)), g),
            OpCode::Nil => cont(n, st.push(Value::Nil), g),
            OpCode::String => match operand(code, n) {
                Some(i) if (i as int) < strs.len() => r is Continue && ip2 == n + 1 && g2 == g
                    && st2.len() == st.len() + 1 && st2.drop_last() == st && text_of(st2.last())
                    == Some(strs[i as int]),
                _ => fails(r, InterpretError::RuntimeError),
            },
            OpCode::Equal => if st.len() < 2 {
                fails(r, InterpretError::StackUnderflowError)
            } else {
                cont(n, pop2(st).push(Value::Bool(values_equal(st[st.len() - 2], top))), g)
            },
            OpCode::Greater => if !two_numbers(st) {
                fails(r, InterpretError::RuntimeErrorWithReason("Operands must be numbers"))
            } else {
                cont(
                    n,
                    pop2(st).push(Value::Bool(num_less(num_of(top), num_of(st[st.len() - 2])))),
                    g,
                )
            },
            OpCode::Less => if !two_numbers(st) {
                fails(r, InterpretError::RuntimeErrorWithReason("Operands must be numbers"))
            } else {
                cont(
                    n,
                    pop2(st).push(Value::Bool(num_less(num_of(st[st.len() - 2]), num_of(top)))),
                    g,
                )
            },
            OpCode::Add => if st.len() >= 2 && text_of(top) is Some && text_of(st[st.len() - 2]) is Some {
                r is Continue && ip2 == n && g2 == g && st2.len() == st.len() - 1
                    && st2.drop_last() == pop2(st) && text_of(st2.last()) == Some(
                    text_of(st[st.len() - 2]).unwrap() + text_of(top).unwrap(),
                )
            } else {
                arithmetic(ArithOp::Add, n, st, g, ip2, st2, g2, r)
            },
            OpCode::Subtract => arithmetic(ArithOp::Subtract, n, st, g, ip2, st2, g2, r),
            OpCode::Multiply => arithmetic(ArithOp::Multiply, n, st, g, ip2, st2, g2, r),
            OpCode::Divide => arithmetic(ArithOp::Divide, n, st, g, ip2, st2, g2, r),
            OpCode::Negate => if st.len() == 0 || !(top is Number) {
                fails(r, InterpretError::RuntimeErrorWithReason("Negation works on numbers only"))
            } else {
                cont(n, st.drop_last().push(Value::Number(Number { bits: num_of(top) ^ SIGN_BIT })), g)
            },
            OpCode::Constant => match operand(code, n) {
                Some(i) if (i as int) < lits.len() => (r matches Step::Constant(s) && s@ == lits[i as int])
                    && ip2 == n + 1 && st2 == st && g2 == g,
                _ => fails(r, InterpretError::RuntimeError),
            },
            OpCode::DefineGlobal => match operand(code, n) {
                Some(i) if (i as int) < strs.len() => if st.len() == 0 {
                    fails(r, InterpretError::StackUnderflowError)
                } else {
                    cont(n + 1, st.drop_last(), define_global(g, strs[i as int], top))
                },
                _ => fails(r, InterpretError::RuntimeError),
            },
            OpCode::GetGlobal => match operand(code, n) {
                Some(i) if (i as int) < strs.len() => cont(
                    n + 1,
                    st.push(global_value(g, strs[i as int])),
                    g,
                ),
                _ => fails(r, InterpretError::RuntimeError),
            },
            OpCode::SetGlobal => match operand(code, n) {
                Some(i) if (i as int) < strs.len() => if st.len() == 0 {
                    fails(r, InterpretError::StackUnderflowError)
                } else if find_global(g, strs[i as int]) is None {
                    fails(r, InterpretError::RuntimeErrorWithReason("Global is not defined"))
                } else {
                    cont(n + 1, st, define_global(g, strs[i as int], top))
                },
                _ => fails(r, InterpretError::RuntimeError),
            },
            OpCode::GetLocal => match operand(code, n) {
                Some(slot) => if (slot as int) < st.len() {
                    cont(n + 1, st.push(st[slot as int]), g)
                } else {
                    fails(
                        r,
                        InterpretError::RuntimeErrorWithReason(
                            "Local variable value could not be found",
                        ),
                    )
                },
                None => fails(r, InterpretError::RuntimeError),
            },
            OpCode::SetLocal => match operand(code, n) {
                Some(slot) => if st.len() == 0 {
                    fails(r, InterpretError::StackUnderflowError)
                } else if (slot as int) < st.len() {
                    cont(n + 1, st.update(slot as int, top), g)
                } else {
                    fails(
                        r,
                        InterpretError::RuntimeErrorWithReason(
                            "Local variable value could not be found",
                        ),
                    )
                },
                None => fails(r, InterpretError::RuntimeError),
            },
            OpCode::Print => if st.len() == 0 {
                fails(r, InterpretError::StackUnderflowError)
            } else {
                r == Step::Print(top) && ip2 == n && st2 == st.drop_last() && g2 == g
            },
            OpCode::Pop => if st.len() == 0 {
                fails(r, InterpretError::StackUnderflowError)
            } else {
                cont(n, st.drop_last(), g)
            },
            OpCode::JumpIfFalse => jump(code, n, st, g, !(st.len() > 0 && truthy(top)), true, ip2, st2, g2, r),
            OpCode::JumpIfTrue => jump(code, n, st, g, st.len() > 0 && truthy(top), true, ip2, st2, g2, r),
            OpCode::Jump => jump(code, n, st, g, true, false, ip2, st2, g2, r),
            OpCode::Loop => if n + 1 >= code.len() {
                fails(r, InterpretError::RuntimeError)
            } else if distance_at(code, n) > n + 2 {
                fails(r, InterpretError::RuntimeError)
            } else {
                cont(n + 2 - distance_at(code, n), st, g)
            },
        }
    }
}

/// An arithmetic instruction: its two number operands leave the stack and
/// the caller is asked for the result.
pub open spec fn arithmetic(
    op: ArithOp,
    n: int,
    st: Seq<Value>,
    g: Globals,
    ip2: int,
    st2: Seq<Value>,
    g2: Globals,
    r: Step,
) -> bool {
    if !two_numbers(st) {
        fails(r, InterpretError::RuntimeErrorWithReason("Operands must be numbers"))
    } else {
        r == Step::Arithmetic {
            op,
            lhs: Number { bits: num_of(st[st.len() - 2]) },
            rhs: Number { bits: num_of(st.last()) },
        } && ip2 == n && st2 == pop2(st) && g2 == g
    }
}

/// A forward jump whose distance stands at `n`: taken when `taken`; when
/// `peeks`, the stack must not be empty. A target past the code fails.
pub open spec fn jump(
    code: Seq<u8>,
    n: int,
    st: Seq<Value>,
    g: Globals,
    taken: bool,
    peeks: bool,
    ip2: int,
    st2: Seq<Value>,
    g2: Globals,
    r: Step,
) -> bool {
    if n + 1 >= code.len() {
        fails(r, InterpretError::RuntimeError)
    } else if peeks && st.len() == 0 {
        fails(r, InterpretError::StackUnderflowError)
    } else {
        let target = if taken {
            n + 2 + distance_at(code, n)
        } else {
            n + 2
        };
        if target > code.len() {
            fails(r, InterpretError::RuntimeError)
        } else {
            r is Continue && ip2 == target && st2 == st && g2 == g
        }
    }
}

/// `k` instructions that all continue lead from (`ip`, `st`, `g`) to
/// (`ip2`, `st2`, `g2`).
pub open spec fn continued(
    code: Seq<u8>,
    lits: Seq<Seq<char>>,
    strs: Seq<Seq<char>>,
    ip: int,
    st: Seq<Value>,
    g: Globals,
    k: nat,
    ip2: int,
    st2: Seq<Value>,
    g2: Globals,
) -> bool
    decreases k,
{
    if k == 0 {
        ip2 == ip && st2 == st && g2 == g
    } else {
        exists|im: int, sm: Seq<Value>, gm: Globals|
            #[trigger] step_relation(code, lits, strs, ip, st, g, im, sm, gm, Step::Continue)
                && continued(code, lits, strs, im, sm, gm, (k - 1) as nat, ip2, st2, g2)
    }
}

/// Running at most `n` instructions gives the first outcome that is not
/// `Continue`, or `Continue` when all `n` continued.
pub open spec fn run_relation(
    code: Seq<u8>,
    lits: Seq<Seq<char>>,
    strs: Seq<Seq<char>>,
    ip: int,
    st: Seq<Value>,
    g: Globals,
    n: nat,
    ip2: int,
    st2: Seq<Value>,
    g2: Globals,
    r: Step,
) -> bool
    decreases n,
{
    if n == 0 {
        r is Continue && ip2 == ip && st2 == st && g2 == g
    } else {
        exists|im: int, sm: Seq<Value>, gm: Globals, rm: Step|
            #[trigger] step_relation(code, lits, strs, ip, st, g, im, sm, gm, rm) && if rm is Continue {
                run_relation(code, lits, strs, im, sm, gm, (n - 1) as nat, ip2, st2, g2, r)
            } else {
                rm == r && ip2 == im && st2 == sm && g2 == gm
            }
    }
}

/// One more continuing instruction extends a run of continuing ones.
proof fn lemma_continued_snoc(
    code: Seq<u8>,
    lits: Seq<Seq<char>>,
    strs: Seq<Seq<char>>,
    ip: int,
    st: Seq<Value>,
    g: Globals,
    k: nat,
    ip1: int,
    st1: Seq<Value>,
    g1: Globals,
    ip2: int,
    st2: Seq<Value>,
    g2: Globals,
)
    requires
        continued(code, lits, strs, ip, st, g, k, ip1, st1, g1),
        step_relation(code, lits, strs, ip1, st1, g1, ip2, st2, g2, Step::Continue),
    ensures
        continued(code, lits, strs, ip, st, g, k + 1, ip2, st2, g2),
    decreases k,
{
    if k == 0 {
        assert(continued(code, lits, strs, ip2, st2, g2, 0, ip2, st2, g2));
    } else {
        let (im, sm, gm) = choose|im: int, sm: Seq<Value>, gm: Globals|
            #[trigger] step_relation(code, lits, strs, ip, st, g, im, sm, gm, Step::Continue)
                && continued(code, lits, strs, im, sm, gm, (k - 1) as nat, ip1, st1, g1);
        lemma_continued_snoc(code, lits, strs, im, sm, gm, (k - 1) as nat, ip1, st1, g1, ip2, st2, g2);
    }
}

/// A run of `k` continuing instructions followed by a run of `n` is a run of
/// `k + n`.
proof fn lemma_run_after(
    code: Seq<u8>,
    lits: Seq<Seq<char>>,
    strs: Seq<Seq<char>>,
    ip: int,
    st: Seq<Value>,
    g: Globals,
    k: nat,
    ip1: int,
    st1: Seq<Value>,
    g1: Globals,
    n: nat,
    ip2: int,
    st2: Seq<Value>,
    g2: Globals,
    r: Step,
)
    requires
        continued(code, lits, strs, ip, st, g, k, ip1, st1, g1),
        run_relation(code, lits, strs, ip1, st1, g1, n, ip2, st2, g2, r),
    ensures
        run_relation(code, lits, strs, ip, st, g, k + n, ip2, st2, g2, r),
    decreases k,
{
    if k > 0 {
        let (im, sm, gm) = choose|im: int, sm: Seq<Value>, gm: Globals|
            #[trigger] step_relation(code, lits, strs, ip, st, g, im, sm, gm, Step::Continue)
                && continued(code, lits, strs, im, sm, gm, (k - 1) as nat, ip1, st1, g1);
        lemma_run_after(code, lits, strs, im, sm, gm, (k - 1) as nat, ip1, st1, g1, n, ip2, st2, g2, r);
        assert(step_relation(code, lits, strs, ip, st, g, im, sm, gm, Step::Continue));
    }
}

// ---------------------------------------------------------------------------
// The machine

// ---------------------------------------------------------------------------

/// The names and values of a list of globals.
pub open spec fn globals_view(v: Seq<(String, Value)>) -> Globals {
    v.map_values(|p: (String, Value)| (p.0@, p.1))
}

/// A machine running a chunk: instruction pointer, operand stack, string
/// heap and globals.
pub struct Vm<'a> {
    chunk: &'a Chunk,
    stack: Stack,
    heap: RcHeap,
    globals: Vec<(String, Value)>,
    ip: usize,
}

impl<'a> Vm<'a> {
    pub closed spec fn chunk_ref(&self) -> &'a Chunk {
        self.chunk
    }

    pub closed spec fn ip(&self) -> int {
        self.ip as int
    }

    pub closed spec fn stack(&self) -> Seq<Value> {
        self.stack@
    }

    pub closed spec fn globals(&self) -> Globals {
        globals_view(self.globals@)
    }

    pub fn new(chunk: &'a Chunk) -> (r: Self)
        ensures
            r.chunk_ref() == chunk,
            r.ip() == 0,
            r.stack() == Seq::<Value>::empty(),
            r.globals() == Seq::<(Seq<char>, Value)>::empty(),
    {
        let r = Vm { chunk, stack: Stack::new(), heap: RcHeap::new(), globals: Vec::new(), ip: 0 };
        assert(r.globals() =~= Seq::<(Seq<char>, Value)>::empty());
        r
    }

    /// Whether the operand stack is empty.
    pub fn stack_is_empty(&self) -> (r: bool)
        ensures
            r == (self.stack().len() == 0),
    {
        self.stack.is_empty()
    }

    /// The objects the heap holds.
    pub closed spec fn heap_objects(&self) -> Seq<Obj> {
        self.heap@
    }

    /// The number of objects the heap holds.
    pub fn heap_size(&self) -> (r: usize)
        ensures
            r == self.heap_objects().len(),
    {
        self.heap.size()
    }

    /// Releases every object of the heap.
    pub fn free_heap(&mut self)
        ensures
            final(self).heap_objects() == Seq::<Obj>::empty(),
            final(self).chunk_ref() == old(self).chunk_ref(),
            final(self).ip() == old(self).ip(),
            final(self).stack() == old(self).stack(),
            final(self).globals() == old(self).globals(),
    {
        self.heap.free_all();
    }

    /// Pushes a number the machine asked for.
    pub fn push_number(&mut self, n: Number)
        ensures
            final(self).chunk_ref() == old(self).chunk_ref(),
            final(self).ip() == old(self).ip(),
            final(self).stack() == old(self).stack().push(Value::Number(n)),
            final(self).globals() == old(self).globals(),
    {
        self.stack.push(Value::Number(n));
    }

    /// The index of the global `name`, searching from the newest.
    fn find_global_index(&self, name: &str) -> (r: Option<usize>)
        ensures
            match find_global(self.globals(), name@) {
                Some(i) => r matches Some(j) && j as int == i && i < self.globals@.len(),
                None => r is None,
            },
    {
        proof {
            lemma_find_global(self.globals(), name@);
        }
        let mut i = self.globals.len();
        assert(self.globals().take(i as int) =~= self.globals());
        while i > 0
            invariant
                i <= self.globals@.len(),
                find_global(self.globals(), name@) == find_global(
                    self.globals().take(i as int),
                    name@,
                ),
            decreases i,
        {
            assert(self.globals().take(i as int).take(i - 1) =~= self.globals().take(i - 1));
            assert(self.globals()[i - 1].0 == self.globals@[i - 1].0@);
            if crate::compiler::same_text(self.globals[i - 1].0.as_str(), name) {
                return Some(i - 1);
            }
            i = i - 1;
        }
        None
    }

    /// Sets the global `name` to `value`, defining it when needed.
    fn set_global(&mut self, name: String, value: Value)
        ensures
            final(self).chunk_ref() == old(self).chunk_ref(),
            final(self).ip() == old(self).ip(),
            final(self).stack() == old(self).stack(),
            final(self).globals() == define_global(old(self).globals(), name@, value),
    {
        let ghost n = name@;
        let ghost v = value;
        proof {
            lemma_find_global(self.globals(), n);
        }
        let found = self.find_global_index(name.as_str());
        match found {
            Some(i) => {
                assert(find_global(old(self).globals(), n) == Some(i as int));
                self.globals.set(i, (name, value));
                assert(self.globals() =~= old(self).globals().update(i as int, (n, v)));
            },
            None => {
                assert(find_global(old(self).globals(), n) is None);
                self.globals.push((name, value));
                assert(self.globals() =~= old(self).globals().push((n, v)));
            },
        }
    }

    /// Pops the two number operands and asks for `op` on them.
    fn arithmetic(&mut self, op: ArithOp) -> (r: Step)
        ensures
            final(self).chunk_ref() == old(self).chunk_ref(),
            arithmetic(
                op,
                old(self).ip(),
                old(self).stack(),
                old(self).globals(),
                final(self).ip(),
                final(self).stack(),
                final(self).globals(),
                r,
            ),
    {
        let both = match (self.stack.peek(0), self.stack.peek(1)) {
            (Some(a), Some(b)) => a.is_number() && b.is_number(),
            _ => false,
        };
        if !both {
            return Step::Failed(InterpretError::RuntimeErrorWithReason("Operands must be numbers"));
        }
        let rhs = self.stack.pop().unwrap();
        let lhs = self.stack.pop().unwrap();
        Step::Arithmetic { op, lhs: lhs.as_number(), rhs: rhs.as_number() }
    }

    /// Follows the forward jump whose distance stands at `n` when `taken`.
    fn jump_forward(&mut self, n: usize, len: usize, taken: bool) -> (r: Step)
        requires
            len == old(self).chunk_ref().code().len(),
            n + 1 < len,
        ensures
            final(self).chunk_ref() == old(self).chunk_ref(),
            final(self).stack() == old(self).stack(),
            final(self).globals() == old(self).globals(),
            ({
                let target = if taken {
                    n + 2 + distance_at(old(self).chunk_ref().code(), n as int)
                } else {
                    n + 2
                };
                &&& target > len ==> fails(r, InterpretError::RuntimeError)
                &&& target <= len ==> r is Continue && final(self).ip() == target
            }),
    {
        let jump = self.chunk.read_jump(n).unwrap();
        let d = jump.distance as usize;
        if !taken {
            self.ip = n + 2;
            Step::Continue
        } else if d > len - (n + 2) {
            Step::Failed(InterpretError::RuntimeError)
        } else {
            self.ip = n + 2 + d;
            Step::Continue
        }
    }

    /// Runs instructions until one gives an outcome other than `Continue`,
    /// at most `limit` of them.
    pub fn run(&mut self, limit: usize) -> (r: Step)
        ensures
            final(self).chunk_ref() == old(self).chunk_ref(),
            run_relation(
                old(self).chunk_ref().code(),
                old(self).chunk_ref().constants(),
                old(self).chunk_ref().strings(),
                old(self).ip(),
                old(self).stack(),
                old(self).globals(),
                limit as nat,
                final(self).ip(),
                final(self).stack(),
                final(self).globals(),
                r,
            ),
    {
        let ghost code = self.chunk_ref().code();
        let ghost lits = self.chunk_ref().constants();
        let ghost strs = self.chunk_ref().strings();
        let mut done: usize = 0;
        while done < limit
            invariant
                self.chunk_ref() == old(self).chunk_ref(),
                code == self.chunk_ref().code(),
                lits == self.chunk_ref().constants(),
                strs == self.chunk_ref().strings(),
                done <= limit,
                continued(
                    code,
                    lits,
                    strs,
                    old(self).ip(),
                    old(self).stack(),
                    old(self).globals(),
                    done as nat,
                    self.ip(),
                    self.stack(),
                    self.globals(),
                ),
            decreases limit - done,
        {
            let ghost (ip1, st1, g1) = (self.ip(), self.stack(), self.globals());
            let r = self.step();
            match r {
                Step::Continue => {
                    proof {
                        lemma_continued_snoc(
                            code,
                            lits,
                            strs,
                            old(self).ip(),
                            old(self).stack(),
                            old(self).globals(),
                            done as nat,
                            ip1,
                            st1,
                            g1,
                            self.ip(),
                            self.stack(),
                            self.globals(),
                        );
                    }
                    done = done + 1;
                },
                _ => {
                    proof {
                        let rest = (limit - done) as nat;
                        assert(run_relation(code, lits, strs, ip1, st1, g1, rest, self.ip(), self.stack(), self.globals(), r)) by {
                            assert(step_relation(code, lits, strs, ip1, st1, g1, self.ip(), self.stack(), self.globals(), r));
                        }
                        lemma_run_after(
                            code,
                            lits,
                            strs,
                            old(self).ip(),
                            old(self).stack(),
                            old(self).globals(),
                            done as nat,
                            ip1,
                            st1,
                            g1,
                            rest,
                            self.ip(),
                            self.stack(),
                            self.globals(),
                            r,
                        );
                    }
                    return r;
                },
            }
        }
        proof {
            assert(run_relation(code, lits, strs, self.ip(), self.stack(), self.globals(), 0, self.ip(), self.stack(), self.globals(), Step::Continue));
            lemma_run_after(
                code,
                lits,
                strs,
                old(self).ip(),
                old(self).stack(),
                old(self).globals(),
                done as nat,
                self.ip(),
                self.stack(),
                self.globals(),
                0,
                self.ip(),
                self.stack(),
                self.globals(),
                Step::Continue,
            );
        }
        Step::Continue
    }

    /// Runs the instruction at the instruction pointer.
    pub fn step(&mut self) -> (r: Step)
        ensures
            final(self).chunk_ref() == old(self).chunk_ref(),
            step_relation(
                old(self).chunk_ref().code(),
                old(self).chunk_ref().constants(),
                old(self).chunk_ref().strings(),
                old(self).ip(),
                old(self).stack(),
                old(self).globals(),
                final(self).ip(),
                final(self).stack(),
                final(self).globals(),
                r,
            ),
    {
        let len = self.chunk.len();
        let byte = match self.chunk.read_byte(self.ip) {
            Some(b) => b,
            None => {
                return Step::Failed(InterpretError::RuntimeError);
            },
        };
        let op = match OpCode::from_byte(byte) {
            Some(op) => op,
            None => {
                return Step::Failed(InterpretError::RuntimeError);
            },
        };
        let n = self.ip + 1;
        self.ip = n;
        match op {
            OpCode::Return => match self.stack.pop() {
                Some(v) => Step::Done(v),
                None => Step::Failed(InterpretError::StackUnderflowError),
            },
            OpCode::Not => match self.stack.pop() {
                Some(v) => {
                    self.stack.push(Value::Bool(!v.is_truthy()));
                    Step::Continue
                },
                None => Step::Failed(InterpretError::StackUnderflowError),
            },
            OpCode::False => {
                self.stack.push(Value::Bool(false));
                Step::Continue
            },
            OpCode::True => {
                self.stack.push(Value::Bool(true));
                Step::Continue
            },
            OpCode::Nil => {
                self.stack.push(Value::Nil);
                Step::Continue
            },
            OpCode::String => match self.chunk.read_string(n) {
                Some(text) => {
                    let object = self.heap.allocate(Obj::String { str: text.to_owned() });
                    self.stack.push(Value::Object(object));
                    assert(self.stack().drop_last() =~= old(self).stack());
                    self.ip = n + 1;
                    Step::Continue
                },
                None => Step::Failed(InterpretError::RuntimeError),
            },
            OpCode::Equal => {
                if self.stack.len() < 2 {
                    return Step::Failed(InterpretError::StackUnderflowError);
                }
                let rhs = self.stack.pop().unwrap();
                let lhs = self.stack.pop().unwrap();
                self.stack.push(Value::Bool(lhs.equals(&rhs)));
                Step::Continue
            },
            OpCode::Greater | OpCode::Less => {
                let both = match (self.stack.peek(0), self.stack.peek(1)) {
                    (Some(a), Some(b)) => a.is_number() && b.is_number(),
                    _ => false,
                };
                if !both {
                    return Step::Failed(
                        InterpretError::RuntimeErrorWithReason("Operands must be numbers"),
                    );
                }
                let rhs = self.stack.pop().unwrap().as_number();
                let lhs = self.stack.pop().unwrap().as_number();
                let result = match op {
                    OpCode::Greater => rhs.less_than(lhs),
                    _ => lhs.less_than(rhs),
                };
                self.stack.push(Value::Bool(result));
                Step::Continue
            },
            OpCode::Add => {
                let both = match (self.stack.peek(0), self.stack.peek(1)) {
                    (Some(a), Some(b)) => a.is_string() && b.is_string(),
                    _ => false,
                };
                if both {
                    self.string_concatenate()
                } else {
                    self.arithmetic(ArithOp::Add)
                }
            },
            OpCode::Subtract => self.arithmetic(ArithOp::Subtract),
            OpCode::Multiply => self.arithmetic(ArithOp::Multiply),
            OpCode::Divide => self.arithmetic(ArithOp::Divide),
            OpCode::Negate => {
                let is_number = match self.stack.peek(0) {
                    Some(a) => a.is_number(),
                    None => false,
                };
                if !is_number {
                    return Step::Failed(
                        InterpretError::RuntimeErrorWithReason("Negation works on numbers only"),
                    );
                }
                let x = self.stack.pop().unwrap().as_number();
                self.stack.push(Value::Number(x.negate()));
                Step::Continue
            },
            OpCode::Constant => match self.chunk.read_constant(n) {
                Some(literal) => {
                    self.ip = n + 1;
                    Step::Constant(literal.clone())
                },
                None => Step::Failed(InterpretError::RuntimeError),
            },
            OpCode::DefineGlobal => {
                let name = match self.chunk.read_string(n) {
                    Some(t) => t.to_owned(),
                    None => {
                        return Step::Failed(InterpretError::RuntimeError);
                    },
                };
                match self.stack.pop() {
                    Some(v) => {
                        self.set_global(name, v);
                        self.ip = n + 1;
                        Step::Continue
                    },
                    None => Step::Failed(InterpretError::StackUnderflowError),
                }
            },
            OpCode::GetGlobal => {
                let name = match self.chunk.read_string(n) {
                    Some(t) => t,
                    None => {
                        return Step::Failed(InterpretError::RuntimeError);
                    },
                };
                proof {
                    lemma_find_global(self.globals(), name@);
                }
                let value = match self.find_global_index(name) {
                    Some(i) => self.globals[i].1.duplicate(),
                    None => Value::Nil,
                };
                self.stack.push(value);
                self.ip = n + 1;
                Step::Continue
            },
            OpCode::SetGlobal => {
                let name = match self.chunk.read_string(n) {
                    Some(t) => t,
                    None => {
                        return Step::Failed(InterpretError::RuntimeError);
                    },
                };
                let value = match self.stack.peek(0) {
                    Some(v) => v.duplicate(),
                    None => {
                        return Step::Failed(InterpretError::StackUnderflowError);
                    },
                };
                if self.find_global_index(name).is_none() {
                    return Step::Failed(
                        InterpretError::RuntimeErrorWithReason("Global is not defined"),
                    );
                }
                self.set_global(name.to_owned(), value);
                self.ip = n + 1;
                Step::Continue
            },
            OpCode::GetLocal => {
                let slot = match self.chunk.read_byte(n) {
                    Some(b) => b as usize,
                    None => {
                        return Step::Failed(InterpretError::RuntimeError);
                    },
                };
                let value = match self.stack.get(slot) {
                    Some(v) => v.duplicate(),
                    None => {
                        return Step::Failed(
                            InterpretError::RuntimeErrorWithReason(
                                "Local variable value could not be found",
                            ),
                        );
                    },
                };
                self.stack.push(value);
                self.ip = n + 1;
                Step::Continue
            },
            OpCode::SetLocal => {
                let slot = match self.chunk.read_byte(n) {
                    Some(b) => b as usize,
                    None => {
                        return Step::Failed(InterpretError::RuntimeError);
                    },
                };
                let value = match self.stack.peek(0) {
                    Some(v) => v.duplicate(),
                    None => {
                        return Step::Failed(InterpretError::StackUnderflowError);
                    },
                };
                if slot >= self.stack.len() {
                    return Step::Failed(
                        InterpretError::RuntimeErrorWithReason(
                            "Local variable value could not be found",
                        ),
                    );
                }
                self.stack.set(slot, value);
                self.ip = n + 1;
                Step::Continue
            },
            OpCode::Print => match self.stack.pop() {
                Some(v) => Step::Print(v),
                None => Step::Failed(InterpretError::StackUnderflowError),
            },
            OpCode::Pop => match self.stack.pop() {
                Some(_) => Step::Continue,
                None => Step::Failed(InterpretError::StackUnderflowError),
            },
            OpCode::JumpIfFalse | OpCode::JumpIfTrue | OpCode::Jump => {
                if len - n <= 1 {
                    return Step::Failed(InterpretError::RuntimeError);
                }
                let taken = match op {
                    OpCode::Jump => true,
                    _ => {
                        let truth = match self.stack.peek(0) {
                            Some(v) => v.is_truthy(),
                            None => {
                                return Step::Failed(InterpretError::StackUnderflowError);
                            },
                        };
                        match op {
                            OpCode::JumpIfFalse => !truth,
                            _ => truth,
                        }
                    },
                };
                self.jump_forward(n, len, taken)
            },
            OpCode::Loop => {
                let jump = match self.chunk.read_jump(n) {
                    Some(j) => j,
                    None => {
                        return Step::Failed(InterpretError::RuntimeError);
                    },
                };
                let d = jump.distance as usize;
                if d > n + 2 {
                    return Step::Failed(InterpretError::RuntimeError);
                }
                self.ip = n + 2 - d;
                Step::Continue
            },
        }
    }

    /// Pops two strings and pushes their concatenation, a new heap object.
    fn string_concatenate(&mut self) -> (r: Step)
        requires
            old(self).stack().len() >= 2,
            text_of(old(self).stack().last()) is Some,
            text_of(old(self).stack()[old(self).stack().len() - 2]) is Some,
        ensures
            final(self).chunk_ref() == old(self).chunk_ref(),
            r is Continue,
            final(self).ip() == old(self).ip(),
            final(self).globals() == old(self).globals(),
            final(self).stack().len() == old(self).stack().len() - 1,
            final(self).stack().drop_last() == pop2(old(self).stack()),
            text_of(final(self).stack().last()) == Some(
                text_of(old(self).stack()[old(self).stack().len() - 2]).unwrap() + text_of(
                    old(self).stack().last(),
                ).unwrap(),
            ),
    {
        let rhs = self.stack.pop().unwrap();
        let lhs = self.stack.pop().unwrap();
        let mut joined = lhs.as_string().to_owned();
        joined.append(rhs.as_string());
        let object = self.heap.allocate(Obj::String { str: joined });
        self.stack.push(Value::Object(object));
        Step::Continue
    }
}

} // verus!
