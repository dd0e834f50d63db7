//! The compiler's table of local variables and its scope depth.
use vstd::prelude::*;
use vstd::string::StringSliceAdditionalSpecFns;

use crate::chunk::MAX_INDEX;
use crate::error::{CompilationErrorReason, InterpretError};

verus! {

/// Whether two texts are the same.
pub fn same_text(a: &str, b: &str) -> (r: bool)
    ensures
        r == (a@ == b@),
{
    let x = a.as_bytes();
    let y = b.as_bytes();
    proof {
        vstd::utf8::encode_utf8_decode_utf8(a@);
        vstd::utf8::encode_utf8_decode_utf8(b@);
    }
    if x.len() != y.len() {
        return false;
    }
    let mut i: usize = 0;
    while i < x.len()
        invariant
            x@ == a.spec_bytes(),
            y@ == b.spec_bytes(),
            x@.len() == y@.len(),
            0 <= i <= x@.len(),
            forall|j: int| 0 <= j < i ==> x@[j] == y@[j],
        decreases x@.len() - i,
    {
        if x[i] != y[i] {
            return false;
        }
        i = i + 1;
    }
    assert(x@ =~= y@);
    true
}

/// A local variable: its name and the depth of the scope that declared it.
#[derive(Debug)]
pub struct LocalVar {
    name: String,
    scope_depth: i32,
}

impl LocalVar {
    pub closed spec fn name_view(&self) -> Seq<char> {
        self.name@
    }

    pub closed spec fn depth(&self) -> int {
        self.scope_depth as int
    }

    pub fn new(name: String, scope_depth: i32) -> (r: Self)
        ensures
            r.name_view() == name@,
            r.depth() == scope_depth,
    {
        Self { name, scope_depth }
    }
}

/// Where a name resolves among the locals.
#[derive(Debug, PartialEq, Eq, Structural)]
pub enum LocalVarResolution {
    NotFound,
    FoundAt(usize),
}

/// The locals, oldest first, as names with scope depths.
pub open spec fn locals_view(v: Seq<LocalVar>) -> Seq<(Seq<char>, int)> {
    v.map_values(|l: LocalVar| (l.name_view(), l.depth()))
}

/// The local table of a compiler: locals in declaration order, innermost
/// last, with the current scope depth.
#[derive(Debug)]
pub struct Compiler {
    locals: Vec<LocalVar>,
    scope_depth: i32,
}

impl Compiler {
    pub closed spec fn locals(&self) -> Seq<(Seq<char>, int)> {
        locals_view(self.locals@)
    }

    pub closed spec fn depth(&self) -> int {
        self.scope_depth as int
    }

    /// Depths are at least 0, never above the current one, and do not
    /// decrease from older to newer locals; at most 256 locals.
    pub open spec fn wf(&self) -> bool {
        &&& 0 <= self.depth() < i32::MAX
        &&& self.locals().len() <= MAX_INDEX + 1
        &&& forall|i: int|
            0 <= i < self.locals().len() ==> 0 <= #[trigger] self.locals()[i].1 <= self.depth()
        &&& forall|i: int, j: int|
            0 <= i <= j < self.locals().len() ==> #[trigger] self.locals()[i].1
                <= #[trigger] self.locals()[j].1
    }

    pub fn new() -> (r: Self)
        ensures
            r.wf(),
            r.locals() == Seq::<(Seq<char>, int)>::empty(),
            r.depth() == 0,
    {
        let r = Self { locals: Vec::new(), scope_depth: 0 };
        assert(r.locals() =~= Seq::<(Seq<char>, int)>::empty());
        r
    }

    /// Enters a scope; fails when scopes nest too deep to count.
    pub fn begin_scope(&mut self) -> (r: Result<(), InterpretError>)
        requires
            old(self).wf(),
        ensures
            final(self).wf(),
            final(self).locals() == old(self).locals(),
            old(self).depth() + 1 < i32::MAX ==> r == Ok::<(), InterpretError>(())
                && final(self).depth() == old(self).depth() + 1,
            old(self).depth() + 1 >= i32::MAX ==> r == Err::<(), InterpretError>(
                InterpretError::CompileError(CompilationErrorReason::ScopeOverflow),
            ) && final(self).depth() == old(self).depth(),
    {
        if self.scope_depth >= i32::MAX - 1 {
            return Err(InterpretError::CompileError(CompilationErrorReason::ScopeOverflow));
        }
        self.scope_depth = self.scope_depth + 1;
        Ok(())
    }

    /// Leaves the current scope: drops its locals and returns how many there
    /// were. Fails at file scope.
    pub fn end_scope(&mut self) -> (r: Result<usize, InterpretError>)
        requires
            old(self).wf(),
        ensures
            final(self).wf(),
            old(self).depth() < 1 ==> r == Err::<usize, InterpretError>(
                InterpretError::CompileError(CompilationErrorReason::ScopeUnderflow),
            ) && *final(self) == *old(self),
            old(self).depth() >= 1 ==> r is Ok && final(self).depth() == old(self).depth() - 1 && ({
                let n = r->Ok_0 as int;
                let k = old(self).locals().len() - n;
                &&& 0 <= k
                &&& final(self).locals() == old(self).locals().take(k)
                &&& forall|i: int|
                    k <= i < old(self).locals().len() ==> #[trigger] old(self).locals()[i].1
                        == old(self).depth()
                &&& forall|i: int| 0 <= i < k ==> #[trigger] old(self).locals()[i].1 < old(self).depth()
            }),
    {
        if self.scope_depth < 1 {
            return Err(InterpretError::CompileError(CompilationErrorReason::ScopeUnderflow));
        }
        let ghost before = self.locals();
        let mut count: usize = 0;
        while self.locals.len() > 0 && self.locals[self.locals.len() - 1].scope_depth
            == self.scope_depth
            invariant
                self.scope_depth == old(self).scope_depth,
                old(self).wf(),
                before == old(self).locals(),
                self.locals().len() + count == before.len(),
                self.locals() == before.take(self.locals().len() as int),
                forall|i: int|
                    self.locals().len() <= i < before.len() ==> #[trigger] before[i].1
                        == old(self).depth(),
            decreases self.locals.len(),
        {
            let ghost k = self.locals().len() - 1;
            assert(self.locals()[k].1 == old(self).depth());
            assert(before[k] == self.locals()[k]);
            self.locals.pop();
            count = count + 1;
            assert(locals_view(self.locals@) =~= before.take(self.locals().len() as int));
        }
        proof {
            let k = self.locals().len() as int;
            assert forall|i: int| 0 <= i < k implies #[trigger] before[i].1 < old(self).depth() by {
                assert(before[i].1 <= before[k - 1].1);
                assert(self.locals()[k - 1] == before[k - 1]);
            }
        }
        self.scope_depth = self.scope_depth - 1;
        Ok(count)
    }

    /// Whether the compiler is inside a block.
    pub fn in_local_scope(&self) -> (r: bool)
        ensures
            r == (self.depth() > 0),
    {
        self.scope_depth > 0
    }

    /// Declares a local in the current scope; returns its slot. Fails when
    /// the scope already has a local of that name, or when 256 locals are
    /// live.
    pub fn add_local_var(&mut self, name: String) -> (r: Result<usize, InterpretError>)
        requires
            old(self).wf(),
        ensures
            final(self).wf(),
            final(self).depth() == old(self).depth(),
            in_scope(old(self).locals(), old(self).depth(), name@) ==> r == Err::<
                usize,
                InterpretError,
            >(
                InterpretError::CompileError(
                    CompilationErrorReason::Message(
                        "Already a variable with this name in this scope",
                    ),
                ),
            ) && final(self).locals() == old(self).locals(),
            !in_scope(old(self).locals(), old(self).depth(), name@) && old(self).locals().len()
                > MAX_INDEX ==> r == Err::<usize, InterpretError>(
                InterpretError::CompileError(CompilationErrorReason::TooManyLocals),
            ) && final(self).locals() == old(self).locals(),
            !in_scope(old(self).locals(), old(self).depth(), name@) && old(self).locals().len()
                <= MAX_INDEX ==> r == Ok::<usize, InterpretError>(
                old(self).locals().len() as usize,
            ) && final(self).locals() == old(self).locals().push((name@, old(self).depth())),
    {
        if self.is_in_scope_name_collision(name.as_str()) {
            return Err(
                InterpretError::CompileError(
                    CompilationErrorReason::Message(
                        "Already a variable with this name in this scope",
                    ),
                ),
            );
        }
        let at = self.locals.len();
        if at > MAX_INDEX {
            return Err(InterpretError::CompileError(CompilationErrorReason::TooManyLocals));
        }
        let ghost n = name@;
        self.locals.push(LocalVar::new(name, self.scope_depth));
        assert(self.locals() =~= old(self).locals().push((n, old(self).depth())));
        Ok(at)
    }

    /// Whether a local of the current scope has the name `name`.
    fn is_in_scope_name_collision(&self, name: &str) -> (r: bool)
        requires
            self.wf(),
        ensures
            r == in_scope(self.locals(), self.depth(), name@),
    {
        let mut i = self.locals.len();
        while i > 0
            invariant
                self.wf(),
                i <= self.locals().len(),
                forall|j: int|
                    i <= j < self.locals().len() && self.locals()[j].1 == self.depth() ==> #[trigger] self.locals()[j].0 != name@,
            decreases i,
        {
            let v = &self.locals[i - 1];
            assert(self.locals()[i - 1] == (v.name_view(), v.depth()));
            if v.scope_depth < self.scope_depth {
                assert forall|j: int|
                    0 <= j < self.locals().len() && self.locals()[j].1 == self.depth() implies #[trigger] self.locals()[j].0 != name@ by {
                    if j < i - 1 {
                        assert(self.locals()[j].1 <= self.locals()[i - 1].1);
                    }
                }
                return false;
            }
            if same_text(v.name.as_str(), name) {
                assert(self.locals()[i - 1].0 == name@);
                return true;
            }
            i = i - 1;
        }
        false
    }

    /// The slot of the newest local named `name`, if any.
    pub fn resolve_local_variable(&self, name: &str) -> (r: LocalVarResolution)
        ensures
            r == resolve(self.locals(), name@),
    {
        let mut i = self.locals.len();
        assert(self.locals().take(i as int) =~= self.locals());
        while i > 0
            invariant
                i <= self.locals().len(),
                resolve(self.locals(), name@) == resolve(self.locals().take(i as int), name@),
            decreases i,
        {
            let v = &self.locals[i - 1];
            assert(self.locals()[i - 1] == (v.name_view(), v.depth()));
            assert(self.locals().take(i as int).take(i - 1) =~= self.locals().take(i - 1));
            if same_text(v.name.as_str(), name) {
                return LocalVarResolution::FoundAt(i - 1);
            }
            i = i - 1;
        }
        LocalVarResolution::NotFound
    }
}

/// A local of scope depth `depth` has the name `name`.
pub open spec fn in_scope(locals: Seq<(Seq<char>, int)>, depth: int, name: Seq<char>) -> bool {
    exists|j: int| 0 <= j < locals.len() && locals[j].1 == depth && #[trigger] locals[j].0 == name
}

/// The slot of the newest local named `name` in `locals`.
pub open spec fn resolve(locals: Seq<(Seq<char>, int)>, name: Seq<char>) -> LocalVarResolution
    decreases locals.len(),
{
    if locals.len() == 0 {
        LocalVarResolution::NotFound
    } else if locals.last().0 == name {
        LocalVarResolution::FoundAt((locals.len() - 1) as usize)
    } else {
        resolve(locals.drop_last(), name)
    }
}

/// A resolved slot is the slot of a local.
pub proof fn lemma_resolve_in_range(locals: Seq<(Seq<char>, int)>, name: Seq<char>)
    requires
        locals.len() <= usize::MAX,
    ensures
        resolve(locals, name) matches LocalVarResolution::FoundAt(i) ==> i < locals.len()
            && locals[i as int].0 == name,
    decreases locals.len(),
{
    if locals.len() > 0 && locals.last().0 != name {
        lemma_resolve_in_range(locals.drop_last(), name);
    }
}

} // verus!
