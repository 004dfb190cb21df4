//! The value model and the evaluation engine.
//!
//! Values live in an arena of cells (see [`Interpreter`]); a variable binding
//! or a list element holds the index of a cell, never a value directly.
//! Several bindings or list slots may hold the same index, and writing
//! through one of them (assignment, in-place list mutation) is visible
//! through every alias of that cell.

pub mod consts;
pub mod context;
pub mod defined;
pub mod scope;
pub mod semantics;
pub mod system;
pub mod text;

use vstd::prelude::*;
use vstd::pervasive::VecAdditionalExecFns;
use vstd::string::StringExecFns;

verus! {

/// A runtime value. The engine's tagged union is closed: exactly these six
/// shapes exist, and every primitive operation declares which shapes it
/// accepts and fails otherwise.
///
/// Numbers are signed 64-bit integers; arithmetic wraps around on overflow,
/// and division or remainder by zero yields zero, so that numeric operations
/// never fail.
pub enum Data {
    Str(String),
    Num(i64),
    Bool(bool),
    Flow(ControlFlow),
    /// An ordered sequence of cell indices into the arena.
    List(Vec<usize>),
    Unit,
}

/// The mathematical model of a [`Data`] value: strings as character
/// sequences, lists as sequences of cell indices.
pub enum DataView {
    Str(Seq<char>),
    Num(i64),
    Bool(bool),
    Flow(ControlFlow),
    List(Seq<usize>),
    Unit,
}

/// A control-flow signal. These are ordinary first-class values of shape
/// [`DataKind::Flow`]; statement sequences inspect each statement's result
/// and short-circuit when they see one.
#[derive(Clone, Copy, PartialEq, Eq, Structural, Debug)]
pub enum ControlFlow {
    Break,
    Continue,
    /// Carries the cell of the returned value.
    Return(usize),
}

/// The shape of a [`Data`] value, without its payload.
#[derive(Clone, Copy, PartialEq, Eq, Structural, Debug)]
pub enum DataKind {
    Str,
    Num,
    Bool,
    Flow,
    List,
    Unit,
}

impl View for Data {
    type V = DataView;

    open spec fn view(&self) -> DataView {
        match self {
            Data::Str(s) => DataView::Str(s@),
            Data::Num(n) => DataView::Num(*n),
            Data::Bool(b) => DataView::Bool(*b),
            Data::Flow(c) => DataView::Flow(*c),
            Data::List(v) => DataView::List(v@),
            Data::Unit => DataView::Unit,
        }
    }
}

impl DataView {
    /// The shape tag of a value.
    pub open spec fn kind(self) -> DataKind {
        match self {
            DataView::Str(_) => DataKind::Str,
            DataView::Num(_) => DataKind::Num,
            DataView::Bool(_) => DataKind::Bool,
            DataView::Flow(_) => DataKind::Flow,
            DataView::List(_) => DataKind::List,
            DataView::Unit => DataKind::Unit,
        }
    }
}

impl Data {
    /// Computes the shape tag of this value.
    pub fn kind_of(&self) -> (k: DataKind)
        ensures
            k == self@.kind(),
    {
        match self {
            Data::Str(_) => DataKind::Str,
            Data::Num(_) => DataKind::Num,
            Data::Bool(_) => DataKind::Bool,
            Data::Flow(_) => DataKind::Flow,
            Data::List(_) => DataKind::List,
            Data::Unit => DataKind::Unit,
        }
    }
}

impl Clone for Data {
    /// An equal value; a cloned list shares its element cells.
    fn clone(&self) -> (r: Self)
        ensures
            r@ == self@,
    {
        match self {
            Data::Str(s) => Data::Str(s.clone()),
            Data::Num(n) => Data::Num(*n),
            Data::Bool(b) => Data::Bool(*b),
            Data::Flow(c) => Data::Flow(*c),
            Data::List(v) => {
                let mut elems: Vec<usize> = Vec::new();
                let mut i: usize = 0;
                while i < v.len()
                    invariant
                        i <= v.len(),
                        elems@ =~= v@.subrange(0, i as int),
                    decreases v.len() - i,
                {
                    elems.push(v[i]);
                    i = i + 1;
                }
                proof {
                    assert(elems@ =~= v@);
                }
                Data::List(elems)
            },
            Data::Unit => Data::Unit,
        }
    }
}

impl Data {
    /// The number this value holds; a shape failure otherwise.
    pub fn number(&self) -> (r: Result<i64, Error>)
        ensures
            r == match self@ {
                DataView::Num(n) => Ok::<i64, Error>(n),
                _ => Err::<i64, Error>(Error::ShapeMismatch(DataKind::Num)),
            },
    {
        match self {
            Data::Num(n) => Ok(*n),
            _ => Err(Error::ShapeMismatch(DataKind::Num)),
        }
    }

    /// The boolean this value holds; a shape failure otherwise.
    pub fn boolean(&self) -> (r: Result<bool, Error>)
        ensures
            r == match self@ {
                DataView::Bool(b) => Ok::<bool, Error>(b),
                _ => Err::<bool, Error>(Error::ShapeMismatch(DataKind::Bool)),
            },
    {
        match self {
            Data::Bool(b) => Ok(*b),
            _ => Err(Error::ShapeMismatch(DataKind::Bool)),
        }
    }

    /// The element cells of the list this value holds; a shape failure
    /// otherwise.
    pub fn list(&self) -> (r: Result<&Vec<usize>, Error>)
        ensures
            match self@ {
                DataView::List(elems) => r is Ok && r->Ok_0@ == elems,
                _ => r == Err::<&Vec<usize>, Error>(Error::ShapeMismatch(DataKind::List)),
            },
    {
        match self {
            Data::List(v) => Ok(v),
            _ => Err(Error::ShapeMismatch(DataKind::List)),
        }
    }

    /// The text this value displays as: a string displays as itself, a
    /// number in decimal, a list as its bracketed, comma-separated elements
    /// read from the arena. Fails where a list nests (or cycles) beyond
    /// `fuel` levels.
    pub fn to_string(&self, cells: &Vec<Data>, fuel: u64) -> (r: Result<String, Error>)
        requires
            cells_wf(cells@),
            data_wf(self@, cells@.len() as nat),
        ensures
            match text::data_string(cells_view(cells@), self@, fuel as nat) {
                Some(s) => r is Ok && r->Ok_0@ == s,
                None => r == Err::<String, Error>(Error::OutOfFuel),
            },
    {
        let mut out = String::new();
        match text::write_data(cells, self, fuel, &mut out) {
            Ok(_) => Ok(out),
            Err(e) => Err(e),
        }
    }
}

impl ControlFlow {
    /// The text a control-flow signal displays as.
    pub fn to_string(&self) -> (r: String)
        ensures
            r@ == text::flow_chars(*self),
    {
        match self {
            ControlFlow::Break => String::from_str("break"),
            ControlFlow::Continue => String::from_str("continue"),
            ControlFlow::Return(_) => String::from_str("return"),
        }
    }
}

/// A failure of evaluation. There is exactly one severity: an error halts
/// the whole program, no failure is caught or retried.
#[derive(PartialEq, Eq, Debug)]
pub enum Error {
    /// No registered definition matches the call's name and argument shapes.
    FunctionNotFound(String),
    /// An identifier is not bound in the current scope.
    VariableNotFound(String),
    /// A value does not have the shape an operation expects.
    ShapeMismatch(DataKind),
    /// A list access past the end, or popping from an empty list.
    OutOfBounds,
    /// Too few arguments for an operation.
    ArgumentCount,
    /// A binding form was given something other than an identifier.
    ExpectedIdent,
    /// A raw argument stood where an already evaluated value was owed.
    ExpectedValue,
    /// A function body statement is not a nested call.
    ExpectedInvocation,
    /// A `fn` invocation's argument list cannot be read as a definition.
    MalformedFunction,
    /// A string does not spell a number.
    InvalidNumber,
    /// The evaluation budget ran out: the program nests or loops deeper
    /// than the caller of the engine allowed for.
    OutOfFuel,
}

/// A parsed call node: a function name and its ordered raw arguments.
/// Invocations are read-only once parsed; the engine never mutates the
/// program tree, only the runtime state it evaluates against.
pub struct Invocation {
    pub name: String,
    pub args: Vec<Argument>,
}

/// A raw (not yet evaluated) argument of an [`Invocation`].
pub enum Argument {
    /// A nested call.
    Function(Invocation),
    /// A literal value.
    Data(Data),
    /// A variable reference.
    Ident(String),
}

/// The source of a callable definition: a built-in that receives evaluated
/// cells, a built-in that may receive raw arguments, or a user-defined
/// function. The `'p` lifetime is that of the program tree, whose nodes a
/// user-defined function's body borrows.
pub enum FunctionSource<'p> {
    System(system::SystemFunction),
    Context(context::ContextFunction),
    Defined(defined::DefinedFunction<'p>),
}

/// The models of the arena's cells, in arena order.
pub open spec fn cells_view(cells: Seq<Data>) -> Seq<DataView> {
    Seq::new(cells.len(), |i: int| cells[i]@)
}

/// Every cell index held inside a value points into an arena of `n_cells`
/// cells.
pub open spec fn data_wf(d: DataView, n_cells: nat) -> bool {
    match d {
        DataView::List(elems) => forall|i: int| 0 <= i < elems.len() ==> (#[trigger] elems[i]) < n_cells,
        DataView::Flow(ControlFlow::Return(c)) => c < n_cells,
        _ => true,
    }
}

/// Every cell's contents point into the arena.
pub open spec fn cells_wf(cells: Seq<Data>) -> bool {
    forall|i: int| 0 <= i < cells.len() ==> data_wf(#[trigger] cells[i]@, cells.len() as nat)
}

/// Every index in `args` points into an arena of `n` cells.
pub open spec fn args_wf(args: Seq<usize>, n: nat) -> bool {
    forall|i: int| 0 <= i < args.len() ==> (#[trigger] args[i]) < n
}

/// What a value may point at does not shrink when the arena grows.
pub proof fn lemma_data_wf_mono(d: DataView, n: nat, m: nat)
    requires
        data_wf(d, n),
        n <= m,
    ensures
        data_wf(d, m),
{
}

/// Appending a well-formed cell keeps the arena well-formed.
pub proof fn lemma_cells_wf_push(cells: Seq<Data>, d: Data)
    requires
        cells_wf(cells),
        data_wf(d@, cells.len() as nat),
    ensures
        cells_wf(cells.push(d)),
{
    let n = cells.push(d).len() as nat;
    assert forall|i: int| 0 <= i < cells.push(d).len() implies data_wf(#[trigger] cells.push(d)[i]@, n) by {
        if i < cells.len() {
            assert(cells.push(d)[i] == cells[i]);
            lemma_data_wf_mono(cells[i]@, cells.len() as nat, n);
        } else {
            lemma_data_wf_mono(d@, cells.len() as nat, n);
        }
    }
}

/// Overwriting a cell with well-formed contents keeps the arena well-formed.
pub proof fn lemma_cells_wf_update(cells: Seq<Data>, i: int, d: Data)
    requires
        cells_wf(cells),
        0 <= i < cells.len(),
        data_wf(d@, cells.len() as nat),
    ensures
        cells_wf(cells.update(i, d)),
{
    assert forall|k: int| 0 <= k < cells.update(i, d).len()
        implies data_wf(#[trigger] cells.update(i, d)[k]@, cells.update(i, d).len() as nat) by {
        if k != i {
            assert(cells.update(i, d)[k] == cells[k]);
        }
    }
}

/// Registry entries stay consistent when the arena grows.
pub proof fn lemma_sources_wf_mono<'p>(sources: Seq<FunctionSource<'p>>, n: nat, m: nat)
    requires
        forall|i: int| 0 <= i < sources.len() ==> (#[trigger] sources[i]).wf(n),
        n <= m,
    ensures
        forall|i: int| 0 <= i < sources.len() ==> (#[trigger] sources[i]).wf(m),
{
    assert forall|i: int| 0 <= i < sources.len() implies (#[trigger] sources[i]).wf(m) by {
        match sources[i] {
            FunctionSource::Defined(d) => {
                assert(d.scope.wf(m));
            },
            _ => {},
        }
    }
}

/// Appending a cell appends its model.
pub proof fn lemma_cells_view_push(cells: Seq<Data>, d: Data)
    ensures
        cells_view(cells.push(d)) == cells_view(cells).push(d@),
{
    assert(cells_view(cells.push(d)) =~= cells_view(cells).push(d@));
}

/// Overwriting a cell overwrites its model.
pub proof fn lemma_cells_view_update(cells: Seq<Data>, i: int, d: Data)
    requires
        0 <= i < cells.len(),
    ensures
        cells_view(cells.update(i, d)) == cells_view(cells).update(i, d@),
{
    assert(cells_view(cells.update(i, d)) =~= cells_view(cells).update(i, d@));
}

/// How one evaluation step may change the engine state: the arena and the
/// registry only grow, consumed input and produced output only extend, and
/// the budget only shrinks.
pub open spec fn evolves<'p>(pre: Interpreter<'p>, post: Interpreter<'p>) -> bool {
    &&& pre.cells@.len() <= post.cells@.len()
    &&& pre.funcs.scope@.is_prefix_of(post.funcs.scope@)
    &&& post.input@ == pre.input@
    &&& pre.input_at <= post.input_at
    &&& pre.output@.is_prefix_of(post.output@)
    &&& post.fuel <= pre.fuel
}

/// Evolution is reflexive.
pub proof fn lemma_evolves_refl<'p>(s: Interpreter<'p>)
    ensures
        evolves(s, s),
{
    assert(s.funcs.scope@ =~= s.funcs.scope@.subrange(0, s.funcs.scope@.len() as int));
    assert(s.output@ =~= s.output@.subrange(0, s.output@.len() as int));
}

/// Evolution is transitive.
pub proof fn lemma_evolves_trans<'p>(a: Interpreter<'p>, b: Interpreter<'p>, c: Interpreter<'p>)
    requires
        evolves(a, b),
        evolves(b, c),
    ensures
        evolves(a, c),
{
    assert(a.funcs.scope@ =~= c.funcs.scope@.subrange(0, a.funcs.scope@.len() as int)) by {
        assert forall|i: int| 0 <= i < a.funcs.scope@.len()
            implies a.funcs.scope@[i] == c.funcs.scope@.subrange(0, a.funcs.scope@.len() as int)[i] by {
            assert(a.funcs.scope@[i] == b.funcs.scope@.subrange(0, a.funcs.scope@.len() as int)[i]);
            assert(b.funcs.scope@[i] == c.funcs.scope@.subrange(0, b.funcs.scope@.len() as int)[i]);
        }
    }
    assert(a.output@ =~= c.output@.subrange(0, a.output@.len() as int)) by {
        assert forall|i: int| 0 <= i < a.output@.len()
            implies a.output@[i] == c.output@.subrange(0, a.output@.len() as int)[i] by {
            assert(a.output@[i] == b.output@.subrange(0, a.output@.len() as int)[i]);
            assert(b.output@[i] == c.output@.subrange(0, b.output@.len() as int)[i]);
        }
    }
}

/// The whole engine state: the function registry, the arena of cells, the
/// modeled standard input and output streams, and the evaluation budget.
///
/// The engine performs no real I/O: `stdin` takes the next line of `input`,
/// and `println` appends one line to `output`.
pub struct Interpreter<'p> {
    /// The function registry.
    pub funcs: scope::FunctionScope<'p>,
    /// The arena: every variable and list element is an index into it.
    pub cells: Vec<Data>,
    /// The lines standard input will yield, in order.
    pub input: Vec<String>,
    /// How many input lines were consumed already.
    pub input_at: usize,
    /// The lines printed so far.
    pub output: Vec<String>,
    /// The remaining evaluation budget; every invocation and every loop
    /// iteration consumes one unit.
    pub fuel: u64,
}

impl<'p> Interpreter<'p> {
    /// The models of the arena's cells.
    pub open spec fn cells_v(&self) -> Seq<DataView> {
        cells_view(self.cells@)
    }

    /// Every cell's contents point into the arena, and every user-defined
    /// function's captured scope does as well.
    pub open spec fn wf(&self) -> bool {
        &&& cells_wf(self.cells@)
        &&& forall|i: int| 0 <= i < self.funcs.scope@.len() ==> (#[trigger] self.funcs.scope@[i]).wf(self.cells@.len() as nat)
        &&& self.input_at <= self.input@.len()
    }

    /// Appends a fresh, unaliased cell holding `d` and returns its index.
    pub fn new_cell(&mut self, d: Data) -> (c: usize)
        requires
            data_wf(d@, old(self).cells@.len() as nat),
        ensures
            final(self).cells@ == old(self).cells@.push(d),
            cells_view(final(self).cells@) == cells_view(old(self).cells@).push(d@),
            c == old(self).cells@.len(),
            *final(self) == (Interpreter { cells: final(self).cells, ..*old(self) }),
            old(self).wf() ==> final(self).wf(),
    {
        let ghost pre = *self;
        let ghost dv = d@;
        let c = self.cells.len();
        self.cells.push(d);
        proof {
            lemma_cells_view_push(pre.cells@, self.cells@.last());
            if pre.wf() {
                lemma_cells_wf_push(pre.cells@, self.cells@.last());
                lemma_sources_wf_mono(
                    pre.funcs.scope@,
                    pre.cells@.len() as nat,
                    self.cells@.len() as nat,
                );
            }
        }
        c
    }

    /// Overwrites the cell `i` in place with `d`. This is how assignment and
    /// in-place list mutation become visible through every alias of the
    /// cell.
    pub fn set_cell(&mut self, i: usize, d: Data)
        requires
            i < old(self).cells@.len(),
            data_wf(d@, old(self).cells@.len() as nat),
        ensures
            final(self).cells@ == old(self).cells@.update(i as int, d),
            cells_view(final(self).cells@) == cells_view(old(self).cells@).update(i as int, d@),
            *final(self) == (Interpreter { cells: final(self).cells, ..*old(self) }),
            old(self).wf() ==> final(self).wf(),
    {
        let ghost pre = *self;
        self.cells.set(i, d);
        proof {
            lemma_cells_view_update(pre.cells@, i as int, self.cells@[i as int]);
            if pre.wf() {
                lemma_cells_wf_update(pre.cells@, i as int, self.cells@[i as int]);
            }
        }
    }
}

impl<'p> FunctionSource<'p> {
    /// A user-defined entry's captured scope and parameter list are
    /// consistent with an arena of `n_cells` cells; built-ins always are.
    pub open spec fn wf(&self, n_cells: nat) -> bool {
        match self {
            FunctionSource::Defined(d) => d.wf(n_cells),
            _ => true,
        }
    }

    /// This definition's signature.
    pub fn signature(&self) -> (r: crate::util::OptionalStatic<scope::FunctionSignature>)
        ensures
            r.value()@ == scope::sig_view_of(*self),
    {
        match self {
            FunctionSource::System(f) => f.signature(),
            FunctionSource::Context(f) => f.signature(),
            FunctionSource::Defined(d) => crate::util::OptionalStatic::Owned(d.signature()),
        }
    }
}

impl<'p> Clone for FunctionSource<'p> {
    /// An entry with the same model: the same built-in, or a user
    /// definition with the same signature, parameter names, body and
    /// captured bindings.
    fn clone(&self) -> (r: Self)
        ensures
            scope::source_view(r) == scope::source_view(*self),
            forall|n: nat| self.wf(n) ==> #[trigger] r.wf(n),
            scope::sig_view_of(r) == scope::sig_view_of(*self),
    {
        let r = match self {
            FunctionSource::System(f) => FunctionSource::System(*f),
            FunctionSource::Context(f) => FunctionSource::Context(*f),
            FunctionSource::Defined(d) => FunctionSource::Defined(d.clone()),
        };
        proof {
            match (self, &r) {
                (FunctionSource::Defined(d), FunctionSource::Defined(e)) => {
                    assert forall|n: nat| self.wf(n) implies #[trigger] r.wf(n) by {
                        if self.wf(n) {
                            assert(e.scope.wf(n));
                            assert(e.signature.args@.len() == d.signature.args@.len());
                        }
                    }
                    assert(scope::names_views(e.argument_names@)
                        =~= scope::names_views(d.argument_names@));
                    assert(defined::bodies_of(e.body@) =~= defined::bodies_of(d.body@));
                    assert(scope::source_view(r) =~= scope::source_view(*self));
                },
                _ => {},
            }
        }
        r
    }
}

/// What every evaluation step guarantees about the engine state and the
/// current scope: the state stays well-formed and evolves (see [`evolves`]),
/// and the scope keeps every binding it had (evaluation may add bindings,
/// through `let`, but never removes one).
pub open spec fn eval_frame<'p>(
    pre: Interpreter<'p>,
    post: Interpreter<'p>,
    spre: scope::VariableScope,
    spost: scope::VariableScope,
) -> bool {
    &&& post.wf()
    &&& evolves(pre, post)
    &&& spre@.is_prefix_of(spost@)
    &&& spost.wf(post.cells@.len() as nat)
}

impl Argument {
    /// Evaluates this raw argument to a cell: a literal is wrapped in a
    /// fresh, unaliased cell; an identifier yields the very cell it is bound
    /// to (never a copy — this aliasing is what assignment and in-place list
    /// mutation rely on); a nested call is evaluated.
    pub fn eval<'p>(&'p self, it: &mut Interpreter<'p>, variable_scope: &mut scope::VariableScope) -> (r: Result<usize, Error>)
        requires
            old(it).wf(),
            old(variable_scope).wf(old(it).cells@.len() as nat),
        ensures
            eval_frame(*old(it), *final(it), *old(variable_scope), *final(variable_scope)),
            r is Ok ==> r->Ok_0 < final(it).cells@.len(),
            match self {
                Argument::Data(d) => if data_wf(d@, old(it).cells@.len() as nat) {
                    &&& r == Ok::<usize, Error>(old(it).cells@.len() as usize)
                    &&& final(it).cells@.len() == old(it).cells@.len() + 1
                    &&& cells_view(final(it).cells@) == cells_view(old(it).cells@).push(d@)
                    &&& final(it).funcs.scope@ == old(it).funcs.scope@
                    &&& final(it).input@ == old(it).input@
                    &&& final(it).input_at == old(it).input_at
                    &&& final(it).output@ == old(it).output@
                    &&& final(it).fuel == old(it).fuel
                    &&& *final(variable_scope) == *old(variable_scope)
                } else {
                    &&& r == Err::<usize, Error>(Error::OutOfBounds)
                    &&& *final(it) == *old(it)
                    &&& *final(variable_scope) == *old(variable_scope)
                },
                Argument::Ident(id) => {
                    &&& *final(it) == *old(it)
                    &&& *final(variable_scope) == *old(variable_scope)
                    &&& r == match old(variable_scope).spec_lookup(id@) {
                        Some(c) => Ok::<usize, Error>(c),
                        None => Err::<usize, Error>(Error::VariableNotFound(*id)),
                    }
                },
                Argument::Function(_) => true,
            },
            semantics::eval_arg(semantics::state_view(*old(it)), old(variable_scope)@, *self)
                == Some((semantics::state_view(*final(it)), final(variable_scope)@, r)),
        decreases it.fuel, 1int,
    {
        match self {
            Argument::Data(d) => {
                proof {
                    lemma_evolves_refl(*it);
                    lemma_prefix_refl(variable_scope@);
                }
                if !check_data_wf(d, it.cells.len()) {
                    return Err(Error::OutOfBounds);
                }
                let value = d.clone();
                let c = it.new_cell(value);
                proof {
                    assert(semantics::state_view(*it)
                        =~= semantics::state_view(*old(it)).push_cell(d@));
                }
                Ok(c)
            },
            Argument::Function(invocation) => invocation.evaluate(it, variable_scope),
            Argument::Ident(id) => {
                proof {
                    lemma_evolves_refl(*it);
                    lemma_prefix_refl(variable_scope@);
                }
                match variable_scope.get(id) {
                    Some(c) => {
                        proof {
                            scope::lemma_lookup_wf(variable_scope@, id@, it.cells@.len() as nat);
                        }
                        Ok(c)
                    },
                    None => Err(Error::VariableNotFound(id.clone())),
                }
            },
        }
    }

    /// The identifier this argument holds.
    pub fn ident(&self) -> (r: &String)
        requires
            self is Ident,
        ensures
            *r == self->Ident_0,
    {
        match self {
            Argument::Ident(i) => i,
            _ => unreached(),
        }
    }

    /// The nested call this argument holds.
    pub fn invocation(&self) -> (r: &Invocation)
        requires
            self is Function,
        ensures
            *r == self->Function_0,
    {
        match self {
            Argument::Function(f) => f,
            _ => unreached(),
        }
    }

    /// The shape this raw argument resolves to for matching purposes: the
    /// shape of a literal, the shape of the value an identifier is bound to,
    /// or the declared return shape of the definition a nested call resolves
    /// to (the nested call is not executed). Fails on an unbound identifier
    /// or a nested call that no definition matches.
    pub fn return_type<'p>(
        &self,
        function_scope: &scope::FunctionScope<'p>,
        cells: &Vec<Data>,
        variable_scope: &scope::VariableScope,
    ) -> (r: Result<scope::ReturnType, Error>)
        requires
            variable_scope.wf(cells@.len() as nat),
        ensures
            r == scope::spec_return_type(
                scope::funcs_view(function_scope.scope@),
                cells_view(cells@),
                variable_scope@,
                *self,
            ),
        decreases self, 0int, 0int,
    {
        match self {
            Argument::Function(inv) => {
                match function_scope.get(&inv.name, &inv.args, cells, variable_scope) {
                    Ok(Some(i)) => {
                        let holder = function_scope.scope[i].signature();
                        Ok(holder.get_ref().return_type)
                    },
                    Ok(None) => Err(Error::FunctionNotFound(inv.name.clone())),
                    Err(e) => Err(e),
                }
            },
            Argument::Data(d) => Ok(scope::ReturnType::Data(d.kind_of())),
            Argument::Ident(id) => {
                match variable_scope.get(id) {
                    Some(c) => {
                        proof {
                            scope::lemma_lookup_wf(variable_scope@, id@, cells@.len() as nat);
                        }
                        Ok(scope::ReturnType::Data(cells[c].kind_of()))
                    },
                    None => Err(Error::VariableNotFound(id.clone())),
                }
            },
        }
    }
}

impl Invocation {
    /// Evaluates this call: resolves the callee by overload resolution and
    /// runs it. Fails where no definition matches, where a built-in fails,
    /// or where the evaluation budget runs out; a failure halts evaluation
    /// of the whole program.
    pub fn evaluate<'p>(&'p self, it: &mut Interpreter<'p>, variable_scope: &mut scope::VariableScope) -> (r: Result<usize, Error>)
        requires
            old(it).wf(),
            old(variable_scope).wf(old(it).cells@.len() as nat),
        ensures
            eval_frame(*old(it), *final(it), *old(variable_scope), *final(variable_scope)),
            r is Ok ==> r->Ok_0 < final(it).cells@.len(),
            old(it).fuel == 0 ==> r == Err::<usize, Error>(Error::OutOfFuel)
                && *final(it) == *old(it)
                && *final(variable_scope) == *old(variable_scope),
            old(it).fuel > 0 ==> match scope::spec_get(
                scope::funcs_view(old(it).funcs.scope@),
                cells_view(old(it).cells@),
                old(variable_scope)@,
                self.name@,
                self.args@,
            ) {
                Err(e) => r == Err::<usize, Error>(e),
                Ok(None) => r == Err::<usize, Error>(Error::FunctionNotFound(self.name)),
                Ok(Some(_)) => true,
            },
            semantics::eval_inv(semantics::state_view(*old(it)), old(variable_scope)@, *self)
                == Some((semantics::state_view(*final(it)), final(variable_scope)@, r)),
        decreases it.fuel, 0int,
    {
        if it.fuel == 0 {
            proof {
                lemma_evolves_refl(*it);
                lemma_prefix_refl(variable_scope@);
            }
            return Err(Error::OutOfFuel);
        }
        it.fuel = it.fuel - 1;
        let ghost st1 = semantics::EvalState {
            fuel: (old(it).fuel - 1) as nat,
            ..semantics::state_view(*old(it))
        };
        proof {
            assert(semantics::state_view(*it) =~= st1);
        }
        let got = it.funcs.get(&self.name, &self.args, &it.cells, variable_scope);
        match got {
            Ok(Some(i)) => {
                let source = it.funcs.scope[i].clone();
                proof {
                    assert(it.funcs.scope@[i as int].wf(it.cells@.len() as nat));
                    assert(scope::funcs_view(it.funcs.scope@)[i as int]
                        == scope::source_view(it.funcs.scope@[i as int]));
                }
                source.execute(&self.args, it, variable_scope)
            },
            Ok(None) => {
                proof {
                    lemma_evolves_refl(*it);
                    lemma_prefix_refl(variable_scope@);
                }
                Err(Error::FunctionNotFound(self.name.clone()))
            },
            Err(e) => {
                proof {
                    lemma_evolves_refl(*it);
                    lemma_prefix_refl(variable_scope@);
                }
                Err(e)
            },
        }
    }
}

impl<'p> FunctionSource<'p> {
    /// Runs this definition on a call's raw arguments: a system built-in and
    /// a user-defined function receive every argument evaluated eagerly; a
    /// context built-in receives, per declared slot, either the raw argument
    /// or the evaluated one.
    pub fn execute(&self, args: &'p Vec<Argument>, it: &mut Interpreter<'p>, variable_scope: &mut scope::VariableScope) -> (r: Result<usize, Error>)
        requires
            old(it).wf(),
            old(variable_scope).wf(old(it).cells@.len() as nat),
            self.wf(old(it).cells@.len() as nat),
        ensures
            eval_frame(*old(it), *final(it), *old(variable_scope), *final(variable_scope)),
            r is Ok ==> r->Ok_0 < final(it).cells@.len(),
            semantics::exec_entry(
                semantics::state_view(*old(it)),
                old(variable_scope)@,
                scope::source_view(*self),
                args@,
            ) == Some((semantics::state_view(*final(it)), final(variable_scope)@, r)),
        decreases it.fuel, 4int,
    {
        match self {
            FunctionSource::System(func) => {
                match eval_all(args, it, variable_scope) {
                    Ok(cells_args) => {
                        let ghost mid = *it;
                        let r = func.execute(&cells_args, it);
                        proof {
                            lemma_evolves_trans(*old(it), mid, *it);
                            lemma_scope_wf_mono(*variable_scope, mid.cells@.len() as nat, it.cells@.len() as nat);
                            semantics::lemma_sys_step_agrees(*func, cells_args@, mid, *it, r);
                        }
                        r
                    },
                    Err(e) => Err(e),
                }
            },
            FunctionSource::Context(func) => {
                let holder = func.signature();
                let sig = holder.get_ref();
                proof {
                    assert(sig@ == context::context_sig_view(*func));
                }
                match context::to_context_args(args, sig, it, variable_scope) {
                    Ok(context_args) => {
                        let ghost mid = *it;
                        let ghost smid = *variable_scope;
                        let r = func.execute(&context_args, args, it, variable_scope);
                        proof {
                            lemma_evolves_trans(*old(it), mid, *it);
                            lemma_prefix_trans(old(variable_scope)@, smid@, variable_scope@);
                        }
                        r
                    },
                    Err(e) => Err(e),
                }
            },
            FunctionSource::Defined(func) => {
                match eval_all(args, it, variable_scope) {
                    Ok(cells_args) => {
                        let ghost mid = *it;
                        proof {
                            assert(func.wf(it.cells@.len() as nat)) by {
                                lemma_scope_wf_mono(
                                    func.scope,
                                    old(it).cells@.len() as nat,
                                    it.cells@.len() as nat,
                                );
                            }
                        }
                        let r = func.execute(&cells_args, it);
                        proof {
                            lemma_evolves_trans(*old(it), mid, *it);
                            lemma_scope_wf_mono(*variable_scope, mid.cells@.len() as nat, it.cells@.len() as nat);
                        }
                        r
                    },
                    Err(e) => Err(e),
                }
            },
        }
    }
}

/// A scope that fits a small arena fits a larger one.
pub proof fn lemma_scope_wf_mono(s: scope::VariableScope, n: nat, m: nat)
    requires
        s.wf(n),
        n <= m,
    ensures
        s.wf(m),
{
}

/// Every sequence is a prefix of itself.
pub proof fn lemma_prefix_refl<A>(s: Seq<A>)
    ensures
        s.is_prefix_of(s),
{
    assert(s =~= s.subrange(0, s.len() as int));
}

/// Being a prefix is transitive.
pub proof fn lemma_prefix_trans<A>(a: Seq<A>, b: Seq<A>, c: Seq<A>)
    requires
        a.is_prefix_of(b),
        b.is_prefix_of(c),
    ensures
        a.is_prefix_of(c),
{
    assert(a =~= c.subrange(0, a.len() as int)) by {
        assert forall|i: int| 0 <= i < a.len() implies a[i] == c.subrange(0, a.len() as int)[i] by {
            assert(a[i] == b.subrange(0, a.len() as int)[i]);
            assert(b[i] == c.subrange(0, b.len() as int)[i]);
        }
    }
}

/// Runs a whole program: every top-level invocation in order, against a
/// fresh registry seeded with the built-ins and a fresh root scope seeded
/// with `true`, `false`, `break` and `continue`. A control-flow value
/// produced at the top level is discarded like any other result.
///
/// The engine performs no real I/O: `input` is what standard input will
/// yield, line by line, and the returned lines are what was printed, up to
/// the first failure if there was one. `fuel` bounds how many invocations
/// and loop iterations the run may perform; a program that nests or loops
/// beyond it fails with [`Error::OutOfFuel`] rather than running forever.
pub fn execute<'p>(program: &'p Vec<Invocation>, input: Vec<String>, fuel: u64) -> (r: (Vec<String>, Option<Error>))
    ensures
        (semantics::line_views(r.0@), r.1) == semantics::run_program(
            program@,
            semantics::line_views(input@),
            fuel as nat,
        ),
{
    let ghost input0 = input@;
    let mut it = Interpreter {
        funcs: scope::FunctionScope::default(),
        cells: Vec::new(),
        input,
        input_at: 0,
        output: Vec::new(),
        fuel,
    };
    proof {
        assert(it.wf()) by {
            assert(forall|i: int| 0 <= i < it.funcs.scope@.len()
                ==> (#[trigger] it.funcs.scope@[i]).wf(it.cells@.len() as nat));
        }
    }
    let mut variable_scope = scope::default_variable_scope(&mut it);
    proof {
        assert(scope::funcs_view(it.funcs.scope@) =~= semantics::builtin_entries());
        assert(semantics::state_view(it)
            =~= semantics::seeded_state(semantics::line_views(input0), fuel as nat));
        assert(variable_scope@ =~= semantics::root_scope());
    }
    let mut i: usize = 0;
    while i < program.len()
        invariant
            0 <= i <= program@.len(),
            input0 == input@,
            it.wf(),
            variable_scope.wf(it.cells@.len() as nat),
            semantics::run_program(program@, semantics::line_views(input0), fuel as nat)
                == semantics::run_program_from(
                    semantics::state_view(it),
                    variable_scope@,
                    program@,
                    i as int,
                ),
        decreases program@.len() - i,
    {
        let ghost before = it;
        let ghost sc_before = variable_scope@;
        match program[i].evaluate(&mut it, &mut variable_scope) {
            Ok(_) => {},
            Err(e) => {
                proof {
                    assert(semantics::run_program_from(
                        semantics::state_view(before),
                        sc_before,
                        program@,
                        i as int,
                    ) == (semantics::line_views(it.output@), Some(e)));
                }
                return (it.output, Some(e));
            },
        }
        i = i + 1;
    }
    (it.output, None)
}

/// Whether every cell index held inside a literal value points into an
/// arena of `n` cells.
fn check_data_wf(d: &Data, n: usize) -> (r: bool)
    ensures
        r == data_wf(d@, n as nat),
{
    match d {
        Data::List(elems) => {
            let mut i: usize = 0;
            while i < elems.len()
                invariant
                    0 <= i <= elems@.len(),
                    d@ == DataView::List(elems@),
                    forall|k: int| 0 <= k < i ==> (#[trigger] elems@[k]) < n,
                decreases elems@.len() - i,
            {
                if elems[i] >= n {
                    proof {
                        assert(d@->List_0[i as int] >= n);
                    }
                    return false;
                }
                i = i + 1;
            }
            true
        },
        Data::Flow(ControlFlow::Return(c)) => *c < n,
        _ => true,
    }
}

/// Evaluates every raw argument of a call, in order, to a cell each.
fn eval_all<'p>(args: &'p Vec<Argument>, it: &mut Interpreter<'p>, variable_scope: &mut scope::VariableScope) -> (r: Result<Vec<usize>, Error>)
    requires
        old(it).wf(),
        old(variable_scope).wf(old(it).cells@.len() as nat),
    ensures
        eval_frame(*old(it), *final(it), *old(variable_scope), *final(variable_scope)),
        r is Ok ==> args_wf(r->Ok_0@, final(it).cells@.len() as nat)
            && r->Ok_0@.len() == args@.len(),
        semantics::eval_args(
            semantics::state_view(*old(it)),
            old(variable_scope)@,
            args@,
            0,
            Seq::empty(),
        ) == Some((
            semantics::state_view(*final(it)),
            final(variable_scope)@,
            match r {
                Ok(cs) => Ok::<Seq<usize>, Error>(cs@),
                Err(e) => Err::<Seq<usize>, Error>(e),
            },
        )),
    decreases it.fuel, 2int,
{
    let ghost pre = *it;
    let ghost spre = *variable_scope;
    let mut cells_args: Vec<usize> = Vec::new();
    let mut i: usize = 0;
    proof {
        lemma_evolves_refl(*it);
        lemma_prefix_refl(variable_scope@);
    }
    while i < args.len()
        invariant
            0 <= i <= args@.len(),
            pre == *old(it),
            spre == *old(variable_scope),
            it.wf(),
            evolves(pre, *it),
            spre@.is_prefix_of(variable_scope@),
            variable_scope.wf(it.cells@.len() as nat),
            cells_args@.len() == i,
            args_wf(cells_args@, it.cells@.len() as nat),
            semantics::eval_args(
                semantics::state_view(pre),
                spre@,
                args@,
                0,
                Seq::empty(),
            ) == semantics::eval_args(
                semantics::state_view(*it),
                variable_scope@,
                args@,
                i as int,
                cells_args@,
            ),
        decreases args@.len() - i,
    {
        let ghost mid = *it;
        let ghost smid = *variable_scope;
        match args[i].eval(it, variable_scope) {
            Ok(c) => {
                cells_args.push(c);
                proof {
                    assert(semantics::state_view(*it).fuel
                        <= semantics::state_view(mid).fuel);
                }
            },
            Err(e) => {
                proof {
                    lemma_evolves_trans(pre, mid, *it);
                    lemma_prefix_trans(spre@, smid@, variable_scope@);
                }
                return Err(e);
            },
        }
        proof {
            lemma_evolves_trans(pre, mid, *it);
            lemma_prefix_trans(spre@, smid@, variable_scope@);
            assert forall|k: int| 0 <= k < cells_args@.len()
                implies (#[trigger] cells_args@[k]) < it.cells@.len() by {
                if k < cells_args@.len() - 1 {
                    assert(mid.cells@.len() <= it.cells@.len());
                }
            }
        }
        i = i + 1;
    }
    Ok(cells_args)
}

} // verus!
