//! Built-ins that may receive raw (unevaluated) arguments: the control
//! structures and binding forms, which must not evaluate everything eagerly.

use vstd::prelude::*;

use crate::interpreter::Argument;
use crate::interpreter::ControlFlow;
use crate::interpreter::Data;
use crate::interpreter::DataKind;
use crate::interpreter::DataView;
use crate::interpreter::Error;
use crate::interpreter::FunctionSource;
use crate::interpreter::system::pushes;
use crate::interpreter::Interpreter;
use crate::interpreter::cells_view;
use crate::interpreter::data_wf;
use crate::interpreter::eval_frame;
use crate::interpreter::evolves;
use crate::interpreter::lemma_evolves_refl;
use crate::interpreter::lemma_evolves_trans;
use crate::interpreter::lemma_prefix_trans;
use crate::interpreter::defined::DefinedFunction;
use crate::interpreter::defined::defined_sig;
use crate::interpreter::defined::spec_new;
use crate::interpreter::scope::VariableScope;
use crate::interpreter::scope::lemma_lookup_wf;
use crate::interpreter::scope::FunctionSignature;
use crate::interpreter::scope::ReturnType;
use crate::interpreter::scope::SigView;
use crate::interpreter::scope::SignatureArgument;
use crate::interpreter::scope::signature;
use crate::interpreter::semantics;
use crate::interpreter::consts::arg_any;
use crate::interpreter::consts::arg_boolean;
use crate::interpreter::consts::arg_raw;
use crate::interpreter::consts::return_unit;
use crate::util::OptionalStatic;

verus! {

/// A built-in with access to the raw arguments of its invocation.
#[derive(Clone, Copy, PartialEq, Eq, Structural, Debug)]
pub enum ContextFunction {
    Let,
    If,
    Assign,
    While,
    Fn,
}

/// One argument handed to a context built-in: either the raw program node,
/// or the cell of an already evaluated value, as the built-in's signature
/// slot demanded.
pub enum ContextArgument<'p> {
    Raw(&'p Argument),
    Data(usize),
}

/// The signature table of the context built-ins.
pub open spec fn context_sig_view(f: ContextFunction) -> SigView {
    match f {
        ContextFunction::Let => SigView {
            name: "let"@,
            args: seq![SignatureArgument::Raw, SignatureArgument::Any],
            repeating: false,
            return_type: ReturnType::Data(DataKind::Unit),
        },
        ContextFunction::If => SigView {
            name: "if"@,
            args: seq![SignatureArgument::Data(DataKind::Bool), SignatureArgument::Raw],
            repeating: true,
            return_type: ReturnType::Data(DataKind::Unit),
        },
        ContextFunction::Assign => SigView {
            name: "="@,
            args: seq![SignatureArgument::Raw, SignatureArgument::Any],
            repeating: false,
            return_type: ReturnType::Data(DataKind::Unit),
        },
        ContextFunction::While => SigView {
            name: "while"@,
            args: seq![SignatureArgument::Raw, SignatureArgument::Raw],
            repeating: true,
            return_type: ReturnType::Data(DataKind::Unit),
        },
        ContextFunction::Fn => SigView {
            name: "fn"@,
            args: seq![SignatureArgument::Raw, SignatureArgument::Raw],
            repeating: true,
            return_type: ReturnType::Data(DataKind::Unit),
        },
    }
}

impl ContextFunction {
    /// This built-in's signature.
    pub fn signature(&self) -> (r: OptionalStatic<FunctionSignature>)
        ensures
            r.value()@ == context_sig_view(*self),
    {
        let r = match self {
            ContextFunction::Let => signature("let", vec![arg_raw(), arg_any()], false, return_unit()),
            ContextFunction::If => signature("if", vec![arg_boolean(), arg_raw()], true, return_unit()),
            ContextFunction::Assign => signature("=", vec![arg_raw(), arg_any()], false, return_unit()),
            ContextFunction::While => signature("while", vec![arg_raw(), arg_raw()], true, return_unit()),
            ContextFunction::Fn => signature("fn", vec![arg_raw(), arg_raw()], true, return_unit()),
        };
        proof {
            assert(r@ =~= context_sig_view(*self));
        }
        OptionalStatic::Owned(r)
    }
}

/// Converts a call's raw arguments for a context built-in: for each
/// position, the declared slot (the last declared one for overflow
/// positions) decides whether the raw argument is passed through or
/// evaluated first.
pub fn to_context_args<'p>(
    args: &'p Vec<Argument>,
    signature: &FunctionSignature,
    it: &mut Interpreter<'p>,
    variable_scope: &mut VariableScope,
) -> (r: Result<Vec<ContextArgument<'p>>, Error>)
    requires
        old(it).wf(),
        old(variable_scope).wf(old(it).cells@.len() as nat),
        signature.args@.len() > 0,
    ensures
        eval_frame(*old(it), *final(it), *old(variable_scope), *final(variable_scope)),
        r is Ok ==> r->Ok_0@.len() == args@.len()
            && forall|i: int| 0 <= i < args@.len() ==> match #[trigger] r->Ok_0@[i] {
                ContextArgument::Data(c) => c < final(it).cells@.len(),
                ContextArgument::Raw(a) => *a == args@[i],
            },
        semantics::ctx_args_from(
            semantics::state_view(*old(it)),
            old(variable_scope)@,
            args@,
            signature@,
            0,
            Seq::empty(),
        ) == Some((
            semantics::state_view(*final(it)),
            final(variable_scope)@,
            match r {
                Ok(v) => Ok::<Seq<semantics::CtxArgV>, Error>(semantics::ctx_args_view(v@)),
                Err(e) => Err::<Seq<semantics::CtxArgV>, Error>(e),
            },
        )),
    decreases it.fuel, 2int,
{
    let ghost pre = *it;
    let ghost spre = *variable_scope;
    let mut out: Vec<ContextArgument<'p>> = Vec::new();
    let mut i: usize = 0;
    proof {
        lemma_evolves_refl(*it);
        assert(semantics::ctx_args_view(out@) =~= Seq::<semantics::CtxArgV>::empty());
    }
    while i < args.len()
        invariant
            0 <= i <= args@.len(),
            pre == *old(it),
            spre == *old(variable_scope),
            signature.args@.len() > 0,
            it.wf(),
            evolves(pre, *it),
            spre@.is_prefix_of(variable_scope@),
            variable_scope.wf(it.cells@.len() as nat),
            out@.len() == i,
            forall|k: int| 0 <= k < i ==> match #[trigger] out@[k] {
                ContextArgument::Data(c) => c < it.cells@.len(),
                ContextArgument::Raw(a) => *a == args@[k],
            },
            semantics::ctx_args_from(
                semantics::state_view(pre),
                spre@,
                args@,
                signature@,
                0,
                Seq::empty(),
            ) == semantics::ctx_args_from(
                semantics::state_view(*it),
                variable_scope@,
                args@,
                signature@,
                i as int,
                semantics::ctx_args_view(out@),
            ),
        decreases args@.len() - i,
    {
        let slot = if i < signature.args.len() - 1 {
            signature.args[i]
        } else {
            signature.args[signature.args.len() - 1]
        };
        let ghost mid = *it;
        let ghost smid = *variable_scope;
        let ghost outv = semantics::ctx_args_view(out@);
        match slot {
            SignatureArgument::Raw => {
                out.push(ContextArgument::Raw(&args[i]));
                proof {
                    lemma_evolves_refl(*it);
                    assert(semantics::ctx_args_view(out@)
                        =~= outv.push(semantics::CtxArgV::Raw(args@[i as int])));
                }
            },
            _ => {
                match args[i].eval(it, variable_scope) {
                    Ok(c) => {
                        out.push(ContextArgument::Data(c));
                        proof {
                            assert(semantics::state_view(*it).fuel
                                <= semantics::state_view(mid).fuel);
                            assert(semantics::ctx_args_view(out@)
                                =~= outv.push(semantics::CtxArgV::Data(c)));
                        }
                    },
                    Err(e) => {
                        proof {
                            lemma_evolves_trans(pre, mid, *it);
                            lemma_prefix_trans(spre@, smid@, variable_scope@);
                        }
                        return Err(e);
                    },
                }
            },
        }
        proof {
            lemma_evolves_trans(pre, mid, *it);
            lemma_prefix_trans(spre@, smid@, variable_scope@);
            assert forall|k: int| 0 <= k < out@.len() implies match #[trigger] out@[k] {
                ContextArgument::Data(c) => c < it.cells@.len(),
                ContextArgument::Raw(a) => *a == args@[k],
            } by {
                if k < out@.len() - 1 {
                    assert(mid.cells@.len() <= it.cells@.len());
                }
            }
        }
        i = i + 1;
    }
    Ok(out)
}

/// What `let` does: binds the identifier of its first (raw) argument, in
/// the current scope, to the cell of its second (evaluated) argument — the
/// cell itself, not a copy, so the new name aliases whatever the value's
/// cell already aliased — and yields a fresh unit cell.
pub open spec fn let_post<'p>(
    args: Seq<ContextArgument<'p>>,
    pre: Interpreter<'p>,
    post: Interpreter<'p>,
    spre: VariableScope,
    spost: VariableScope,
    r: Result<usize, Error>,
) -> bool {
    if args.len() < 2 {
        r == Err::<usize, Error>(Error::ArgumentCount) && post == pre && spost == spre
    } else {
        match args[0] {
            ContextArgument::Raw(a) => match *a {
                Argument::Ident(n) => match args[1] {
                    ContextArgument::Data(c) => {
                        &&& spost@ == spre@.push((n@, c))
                        &&& r == Ok::<usize, Error>(pre.cells@.len() as usize)
                        &&& post.cells@.len() == pre.cells@.len() + 1
                        &&& cells_view(post.cells@) == cells_view(pre.cells@).push(DataView::Unit)
                        &&& post.funcs.scope@ == pre.funcs.scope@
                        &&& post.input@ == pre.input@
                        &&& post.input_at == pre.input_at
                        &&& post.output@ == pre.output@
                        &&& post.fuel == pre.fuel
                    },
                    _ => r == Err::<usize, Error>(Error::ExpectedValue) && post == pre
                        && spost == spre,
                },
                _ => r == Err::<usize, Error>(Error::ExpectedIdent) && post == pre
                    && spost == spre,
            },
            _ => r == Err::<usize, Error>(Error::ExpectedIdent) && post == pre && spost == spre,
        }
    }
}

/// What `=` does: overwrites, in place, the contents of the cell the
/// identifier is bound to with a copy of the evaluated value — which is why
/// every alias of that cell observes the update — and yields a fresh unit
/// cell. Fails where the identifier is unbound.
pub open spec fn assign_post<'p>(
    args: Seq<ContextArgument<'p>>,
    pre: Interpreter<'p>,
    post: Interpreter<'p>,
    spre: VariableScope,
    spost: VariableScope,
    r: Result<usize, Error>,
) -> bool {
    if args.len() < 2 {
        r == Err::<usize, Error>(Error::ArgumentCount) && post == pre && spost == spre
    } else {
        match args[0] {
            ContextArgument::Raw(a) => match *a {
                Argument::Ident(n) => match args[1] {
                    ContextArgument::Data(c) => match spre.spec_lookup(n@) {
                        Some(target) => {
                            &&& spost == spre
                            &&& r == Ok::<usize, Error>(pre.cells@.len() as usize)
                            &&& post.cells@.len() == pre.cells@.len() + 1
                            &&& cells_view(post.cells@) == cells_view(pre.cells@)
                                .update(target as int, cells_view(pre.cells@)[c as int])
                                .push(DataView::Unit)
                            &&& post.funcs.scope@ == pre.funcs.scope@
                            &&& post.input@ == pre.input@
                            &&& post.input_at == pre.input_at
                            &&& post.output@ == pre.output@
                            &&& post.fuel == pre.fuel
                        },
                        None => r == Err::<usize, Error>(Error::VariableNotFound(n)) && post == pre
                            && spost == spre,
                    },
                    _ => r == Err::<usize, Error>(Error::ExpectedValue) && post == pre
                        && spost == spre,
                },
                _ => r == Err::<usize, Error>(Error::ExpectedIdent) && post == pre
                    && spost == spre,
            },
            _ => r == Err::<usize, Error>(Error::ExpectedIdent) && post == pre && spost == spre,
        }
    }
}

/// What `fn` does on success: appends one user definition to the registry,
/// whose captured scope snapshots the defining scope's bindings into fresh
/// cells, and yields a fresh unit cell. The defining scope itself is left
/// exactly as it was.
pub open spec fn fn_post<'p>(
    raw_args: Seq<Argument>,
    pre: Interpreter<'p>,
    post: Interpreter<'p>,
    spre: VariableScope,
    spost: VariableScope,
    r: Result<usize, Error>,
) -> bool {
    match spec_new(raw_args) {
        Err(e) => r == Err::<usize, Error>(e) && post == pre && spost == spre,
        Ok(parts) => {
            &&& spost == spre
            &&& r == Ok::<usize, Error>((pre.cells@.len() + spre@.len()) as usize)
            &&& post.funcs.scope@.len() == pre.funcs.scope@.len() + 1
            &&& post.funcs.scope@.subrange(0, pre.funcs.scope@.len() as int) == pre.funcs.scope@
            &&& match post.funcs.scope@.last() {
                FunctionSource::Defined(d) => {
                    &&& d.signature@ == defined_sig(parts.name, parts.ret, parts.params)
                    &&& d.argument_names@.len() == parts.params.len()
                    &&& forall|k: int| 0 <= k < parts.params.len()
                        ==> (#[trigger] d.argument_names@[k])@ == parts.params[k].0
                    &&& d.body@.len() == parts.body.len()
                    &&& forall|k: int| 0 <= k < parts.body.len()
                        ==> *(#[trigger] d.body@[k]) == parts.body[k]
                    &&& d.scope@.len() == spre@.len()
                    &&& forall|j: int| 0 <= j < spre@.len()
                        ==> (#[trigger] d.scope@[j]).0 == spre@[j].0
                            && d.scope@[j].1 == pre.cells@.len() + j
                },
                _ => false,
            }
            &&& post.cells@.len() == pre.cells@.len() + spre@.len() + 1
            &&& cells_view(post.cells@) == cells_view(pre.cells@)
                + Seq::new(spre@.len(), |j: int| cells_view(pre.cells@)[spre@[j].1 as int])
                + seq![DataView::Unit]
            &&& post.input@ == pre.input@
            &&& post.input_at == pre.input_at
            &&& post.output@ == pre.output@
            &&& post.fuel == pre.fuel
        },
    }
}

/// Aliasing law: `let` with an identifier argument shares the cell (see
/// [`crate::interpreter::Argument::eval`]), so two names bound to one cell
/// observe one value — after `=` overwrites the cell through either name
/// (see [`assign_post`]), looking the value up through the other name
/// yields the new value.
pub proof fn lemma_shared_cell_aliasing(
    cells: Seq<DataView>,
    s: VariableScope,
    x: Seq<char>,
    y: Seq<char>,
    c: usize,
    v: DataView,
)
    requires
        s.spec_lookup(x) == Some(c),
        s.spec_lookup(y) == Some(c),
        c < cells.len(),
    ensures
        cells.update(c as int, v)[s.spec_lookup(y)->Some_0 as int] == v,
{
}

/// Closure-capture law: the cells of a function's captured scope are fresh,
/// so overwriting any cell that existed when the function was defined — in
/// particular the cell of any outer variable, which a later `=` would
/// mutate — leaves every captured value exactly what the variable held at
/// definition time.
pub proof fn lemma_snapshot_unaffected<'p>(
    raw_args: Seq<Argument>,
    pre: Interpreter<'p>,
    post: Interpreter<'p>,
    spre: VariableScope,
    spost: VariableScope,
    r: Result<usize, Error>,
    j: int,
    t: usize,
    v: DataView,
)
    requires
        fn_post(raw_args, pre, post, spre, spost, r),
        spec_new(raw_args) is Ok,
        0 <= j < spre@.len(),
        spre@[j].1 < pre.cells@.len(),
        t < pre.cells@.len(),
    ensures
        ({
            let d = post.funcs.scope@.last()->Defined_0;
            &&& d.scope@[j].1 != t
            &&& cells_view(post.cells@)[d.scope@[j].1 as int]
                == cells_view(pre.cells@)[spre@[j].1 as int]
            &&& cells_view(post.cells@).update(t as int, v)[d.scope@[j].1 as int]
                == cells_view(pre.cells@)[spre@[j].1 as int]
        }),
{
    let d = post.funcs.scope@.last()->Defined_0;
    assert(d.scope@[j].1 == pre.cells@.len() + j);
    assert(cells_view(post.cells@)[d.scope@[j].1 as int]
        == (cells_view(pre.cells@)
            + Seq::new(spre@.len(), |k: int| cells_view(pre.cells@)[spre@[k].1 as int])
            + seq![DataView::Unit])[pre.cells@.len() + j]);
}

impl ContextFunction {
    /// Runs this built-in. `args` carries, per position, the raw argument or
    /// the evaluated cell as the signature demanded; `raw_args` are the
    /// call's raw arguments themselves, which `fn` reads as a definition.
    ///
    /// `let` and `=` change the current scope and the arena exactly as
    /// [`let_post`] and [`assign_post`] state. `if` runs its body on a copy
    /// of the current scope, so bindings made inside it vanish while cell
    /// updates persist, and the scope mapping is left exactly as it was; its
    /// result is a unit cell, or a fresh cell carrying the first
    /// control-flow signal a body statement produced. `while` likewise runs
    /// its body on a copy per iteration; its result is a unit cell (normal
    /// exit or `break`) or a fresh cell carrying a `return` signal, never a
    /// `break`/`continue` signal. `fn` appends a definition as [`fn_post`]
    /// states.
    pub fn execute<'p>(
        &self,
        args: &Vec<ContextArgument<'p>>,
        raw_args: &'p Vec<Argument>,
        it: &mut Interpreter<'p>,
        variable_scope: &mut VariableScope,
    ) -> (r: Result<usize, Error>)
        requires
            old(it).wf(),
            old(variable_scope).wf(old(it).cells@.len() as nat),
            forall|i: int| 0 <= i < args@.len() ==> match #[trigger] args@[i] {
                ContextArgument::Data(c) => c < old(it).cells@.len(),
                ContextArgument::Raw(_) => true,
            },
        ensures
            eval_frame(*old(it), *final(it), *old(variable_scope), *final(variable_scope)),
            r is Ok ==> r->Ok_0 < final(it).cells@.len(),
            semantics::ctx_exec(
                *self,
                semantics::state_view(*old(it)),
                old(variable_scope)@,
                semantics::ctx_args_view(args@),
                raw_args@,
            ) == Some((semantics::state_view(*final(it)), final(variable_scope)@, r)),
            *self == ContextFunction::Let ==> let_post(
                args@,
                *old(it),
                *final(it),
                *old(variable_scope),
                *final(variable_scope),
                r,
            ),
            *self == ContextFunction::Assign ==> assign_post(
                args@,
                *old(it),
                *final(it),
                *old(variable_scope),
                *final(variable_scope),
                r,
            ),
            *self == ContextFunction::If ==> *final(variable_scope) == *old(variable_scope)
                && (r is Ok ==> {
                    let k = cells_view(final(it).cells@)[r->Ok_0 as int].kind();
                    k == DataKind::Unit || k == DataKind::Flow
                }),
            *self == ContextFunction::If ==> if args@.len() < 1 {
                r == Err::<usize, Error>(Error::ArgumentCount) && *final(it) == *old(it)
            } else {
                match args@[0] {
                    ContextArgument::Raw(_) => r == Err::<usize, Error>(Error::ExpectedValue)
                        && *final(it) == *old(it),
                    ContextArgument::Data(c) => match cells_view(old(it).cells@)[c as int] {
                        DataView::Bool(false) => r == Ok::<usize, Error>(
                            old(it).cells@.len() as usize,
                        ) && pushes(*old(it), *final(it), DataView::Unit),
                        DataView::Bool(true) => true,
                        _ => r == Err::<usize, Error>(Error::ShapeMismatch(DataKind::Bool))
                            && *final(it) == *old(it),
                    },
                }
            },
            *self == ContextFunction::While ==> (r is Ok ==> {
                let v = cells_view(final(it).cells@)[r->Ok_0 as int];
                v == DataView::Unit || (v is Flow && v->Flow_0 is Return)
            }),
            *self == ContextFunction::While ==> if args@.len() < 1 {
                r == Err::<usize, Error>(Error::ArgumentCount) && *final(it) == *old(it)
                    && *final(variable_scope) == *old(variable_scope)
            } else {
                args@[0] is Data ==> r == Err::<usize, Error>(Error::ExpectedInvocation)
                    && *final(it) == *old(it)
                    && *final(variable_scope) == *old(variable_scope)
            },
            *self == ContextFunction::Fn ==> fn_post(
                raw_args@,
                *old(it),
                *final(it),
                *old(variable_scope),
                *final(variable_scope),
                r,
            ),
        decreases it.fuel, 3int,
    {
        let ghost pre = *it;
        let ghost spre = *variable_scope;
        let ghost st0 = semantics::state_view(*it);
        let ghost cargsv = semantics::ctx_args_view(args@);
        proof {
            lemma_evolves_refl(*it);
            crate::interpreter::lemma_prefix_refl(variable_scope@);
        }
        match self {
            ContextFunction::Let => {
                if args.len() < 2 {
                    return Err(Error::ArgumentCount);
                }
                let name = match &args[0] {
                    ContextArgument::Raw(a) => match *a {
                        Argument::Ident(n) => n.clone(),
                        _ => {
                            return Err(Error::ExpectedIdent);
                        },
                    },
                    _ => {
                        return Err(Error::ExpectedIdent);
                    },
                };
                let c = match &args[1] {
                    ContextArgument::Data(c) => *c,
                    _ => {
                        return Err(Error::ExpectedValue);
                    },
                };
                variable_scope.insert(name, c);
                let u = it.new_cell(Data::Unit);
                proof {
                    assert(semantics::state_view(*it) =~= st0.push_cell(DataView::Unit));
                }
                Ok(u)
            },
            ContextFunction::Assign => {
                if args.len() < 2 {
                    return Err(Error::ArgumentCount);
                }
                let name = match &args[0] {
                    ContextArgument::Raw(a) => match *a {
                        Argument::Ident(n) => n,
                        _ => {
                            return Err(Error::ExpectedIdent);
                        },
                    },
                    _ => {
                        return Err(Error::ExpectedIdent);
                    },
                };
                let c = match &args[1] {
                    ContextArgument::Data(c) => *c,
                    _ => {
                        return Err(Error::ExpectedValue);
                    },
                };
                match variable_scope.get(name) {
                    Some(target) => {
                        proof {
                            lemma_lookup_wf(variable_scope@, name@, it.cells@.len() as nat);
                            assert(data_wf(it.cells@[c as int]@, it.cells@.len() as nat));
                        }
                        let value = it.cells[c].clone();
                        it.set_cell(target, value);
                        let u = it.new_cell(Data::Unit);
                        proof {
                            assert(semantics::state_view(*it) =~= semantics::EvalState {
                                cells: st0.cells.update(target as int, st0.cells[c as int])
                                    .push(DataView::Unit),
                                ..st0
                            });
                        }
                        Ok(u)
                    },
                    None => Err(Error::VariableNotFound(name.clone())),
                }
            },
            ContextFunction::If => {
                if args.len() < 1 {
                    return Err(Error::ArgumentCount);
                }
                let pred = match &args[0] {
                    ContextArgument::Data(c) => match it.cells[*c].boolean() {
                        Ok(b) => b,
                        Err(e) => {
                            return Err(e);
                        },
                    },
                    _ => {
                        return Err(Error::ExpectedValue);
                    },
                };
                if !pred {
                    let u = it.new_cell(Data::Unit);
                    proof {
                        assert(semantics::state_view(*it) =~= st0.push_cell(DataView::Unit));
                    }
                    return Ok(u);
                }
                let mut block_scope = variable_scope.duplicate();
                proof {
                    assert(block_scope@ =~= spre@);
                }
                let mut k: usize = 1;
                while k < args.len()
                    invariant
                        1 <= k <= args@.len(),
                        *self == ContextFunction::If,
                        args@.len() >= 1,
                        args@[0] is Data,
                        cargsv == semantics::ctx_args_view(args@),
                        st0 == semantics::state_view(*old(it)),
                        cells_view(old(it).cells@)[args@[0]->Data_0 as int] == DataView::Bool(true),
                        pre == *old(it),
                        spre == *old(variable_scope),
                        *variable_scope == spre,
                        old(it).wf(),
                        old(variable_scope).wf(old(it).cells@.len() as nat),
                        it.wf(),
                        evolves(pre, *it),
                        block_scope.wf(it.cells@.len() as nat),
                        semantics::if_body(st0, spre@, cargsv, 1)
                            == semantics::if_body(
                                semantics::state_view(*it),
                                block_scope@,
                                cargsv,
                                k as int,
                            ),
                    decreases args@.len() - k,
                {
                    let stmt: &'p Argument = match &args[k] {
                        ContextArgument::Raw(a) => *a,
                        _ => {
                            return Err(Error::ExpectedInvocation);
                        },
                    };
                    let ghost prev = semantics::state_view(*it);
                    let ghost mid = *it;
                    match stmt.eval(it, &mut block_scope) {
                        Ok(c) => {
                            proof {
                                lemma_evolves_trans(pre, mid, *it);
                                assert(semantics::state_view(*it).fuel <= prev.fuel);
                            }
                            match &it.cells[c] {
                                Data::Flow(control) => {
                                    let control2 = *control;
                                    proof {
                                        assert(data_wf(it.cells@[c as int]@, it.cells@.len() as nat));
                                    }
                                    let ghost stopped = semantics::state_view(*it);
                                    let out = it.new_cell(Data::Flow(control2));
                                    proof {
                                        assert(semantics::state_view(*it)
                                            =~= stopped.push_cell(DataView::Flow(control2)));
                                    }
                                    return Ok(out);
                                },
                                _ => {},
                            }
                        },
                        Err(e) => {
                            proof {
                                lemma_evolves_trans(pre, mid, *it);
                            }
                            return Err(e);
                        },
                    }
                    k = k + 1;
                }
                let ghost done_state = semantics::state_view(*it);
                let u = it.new_cell(Data::Unit);
                proof {
                    assert(semantics::state_view(*it) =~= done_state.push_cell(DataView::Unit));
                }
                Ok(u)
            },
            ContextFunction::While => {
                if args.len() < 1 {
                    return Err(Error::ArgumentCount);
                }
                let predicate: &'p Argument = match &args[0] {
                    ContextArgument::Raw(a) => *a,
                    _ => {
                        return Err(Error::ExpectedInvocation);
                    },
                };
                proof {
                    assert(cargsv[0] == semantics::CtxArgV::Raw(*predicate));
                }
                loop
                    invariant
                        *self == ContextFunction::While,
                        args@.len() >= 1,
                        args@[0] is Raw,
                        cargsv == semantics::ctx_args_view(args@),
                        cargsv[0] == semantics::CtxArgV::Raw(*predicate),
                        st0 == semantics::state_view(*old(it)),
                        pre == *old(it),
                        spre == *old(variable_scope),
                        old(it).wf(),
                        old(variable_scope).wf(old(it).cells@.len() as nat),
                        it.wf(),
                        evolves(pre, *it),
                        spre@.is_prefix_of(variable_scope@),
                        variable_scope.wf(it.cells@.len() as nat),
                        semantics::while_loop(st0, spre@, *predicate, cargsv)
                            == semantics::while_loop(
                                semantics::state_view(*it),
                                variable_scope@,
                                *predicate,
                                cargsv,
                            ),
                    decreases it.fuel,
                {
                    if it.fuel == 0 {
                        return Err(Error::OutOfFuel);
                    }
                    let ghost iter_fuel = it.fuel;
                    let ghost top_state = semantics::state_view(*it);
                    let ghost top_scope = variable_scope@;
                    it.fuel = it.fuel - 1;
                    let ghost st_charged = semantics::EvalState {
                        fuel: (top_state.fuel - 1) as nat,
                        ..top_state
                    };
                    proof {
                        assert(semantics::state_view(*it) =~= st_charged);
                    }
                    let ghost top = *it;
                    let ghost stop = *variable_scope;
                    let pred_cell = match predicate.eval(it, variable_scope) {
                        Ok(c) => c,
                        Err(e) => {
                            proof {
                                lemma_evolves_trans(pre, top, *it);
                                lemma_prefix_trans(spre@, stop@, variable_scope@);
                            }
                            return Err(e);
                        },
                    };
                    proof {
                        lemma_evolves_trans(pre, top, *it);
                        lemma_prefix_trans(spre@, stop@, variable_scope@);
                        assert(semantics::state_view(*it).fuel <= st_charged.fuel);
                    }
                    let ghost body_state = semantics::state_view(*it);
                    let ghost body_scope = variable_scope@;
                    let pred = match it.cells[pred_cell].boolean() {
                        Ok(b) => b,
                        Err(e) => {
                            return Err(e);
                        },
                    };
                    if !pred {
                        let u = it.new_cell(Data::Unit);
                        proof {
                            assert(semantics::state_view(*it)
                                =~= body_state.push_cell(DataView::Unit));
                        }
                        return Ok(u);
                    }
                    // A continue signal ends the body early; either way the
                    // predicate is evaluated next.
                    let mut block_scope = variable_scope.duplicate();
                    proof {
                        assert(block_scope@ =~= body_scope);
                    }
                    let mut k: usize = 1;
                    let mut ended: bool = false;
                    while k < args.len() && !ended
                        invariant
                            1 <= k <= args@.len(),
                            *self == ContextFunction::While,
                            args@.len() >= 1,
                            args@[0] is Raw,
                            cargsv == semantics::ctx_args_view(args@),
                            cargsv[0] == semantics::CtxArgV::Raw(*predicate),
                            st0 == semantics::state_view(*old(it)),
                            pre == *old(it),
                            spre == *old(variable_scope),
                            old(it).wf(),
                            old(variable_scope).wf(old(it).cells@.len() as nat),
                            it.wf(),
                            evolves(pre, *it),
                            it.fuel < iter_fuel,
                            spre@.is_prefix_of(variable_scope@),
                            variable_scope@ == body_scope,
                            variable_scope.wf(it.cells@.len() as nat),
                            block_scope.wf(it.cells@.len() as nat),
                            semantics::state_view(*it).fuel <= body_state.fuel,
                            top_state.fuel == iter_fuel,
                            body_state.fuel < top_state.fuel,
                            semantics::while_loop(st0, spre@, *predicate, cargsv)
                                == semantics::while_loop(top_state, top_scope, *predicate, cargsv),
                            semantics::eval_arg(
                                semantics::EvalState {
                                    fuel: (top_state.fuel - 1) as nat,
                                    ..top_state
                                },
                                top_scope,
                                *predicate,
                            ) == Some((body_state, body_scope, Ok::<usize, Error>(pred_cell))),
                            pred_cell < body_state.cells.len(),
                            body_state.cells[pred_cell as int] == DataView::Bool(true),
                            if ended {
                                semantics::while_body(body_state, body_scope, cargsv, 1)
                                    == Some((
                                        semantics::state_view(*it),
                                        semantics::BodyOutcome::Finished,
                                    ))
                            } else {
                                semantics::while_body(body_state, body_scope, cargsv, 1)
                                    == semantics::while_body(
                                        semantics::state_view(*it),
                                        block_scope@,
                                        cargsv,
                                        k as int,
                                    )
                            },
                        decreases args@.len() - k, (if ended { 0int } else { 1int }),
                    {
                        let stmt: &'p Argument = match &args[k] {
                            ContextArgument::Raw(a) => *a,
                            _ => {
                                return Err(Error::ExpectedInvocation);
                            },
                        };
                        let ghost prev = semantics::state_view(*it);
                        let ghost mid = *it;
                        match stmt.eval(it, &mut block_scope) {
                            Ok(c) => {
                                proof {
                                    lemma_evolves_trans(pre, mid, *it);
                                    assert(semantics::state_view(*it).fuel <= prev.fuel);
                                }
                                match &it.cells[c] {
                                    Data::Flow(control) => match control {
                                        ControlFlow::Break => {
                                            let ghost stopped = semantics::state_view(*it);
                                            let u = it.new_cell(Data::Unit);
                                            proof {
                                                assert(semantics::state_view(*it)
                                                    =~= stopped.push_cell(DataView::Unit));
                                            }
                                            return Ok(u);
                                        },
                                        ControlFlow::Continue => {
                                            ended = true;
                                        },
                                        ControlFlow::Return(rc) => {
                                            let rc2 = *rc;
                                            proof {
                                                assert(data_wf(it.cells@[c as int]@, it.cells@.len() as nat));
                                            }
                                            let ghost stopped = semantics::state_view(*it);
                                            let out = it.new_cell(Data::Flow(ControlFlow::Return(rc2)));
                                            proof {
                                                assert(semantics::state_view(*it)
                                                    =~= stopped.push_cell(DataView::Flow(
                                                        ControlFlow::Return(rc2),
                                                    )));
                                            }
                                            return Ok(out);
                                        },
                                    },
                                    _ => {
                                        k = k + 1;
                                    },
                                }
                            },
                            Err(e) => {
                                proof {
                                    lemma_evolves_trans(pre, mid, *it);
                                }
                                return Err(e);
                            },
                        }
                    }
                    proof {
                        assert(semantics::while_loop(st0, spre@, *predicate, cargsv)
                            == semantics::while_loop(
                                semantics::state_view(*it),
                                variable_scope@,
                                *predicate,
                                cargsv,
                            ));
                    }
                }
            },
            ContextFunction::Fn => {
                let d = match DefinedFunction::new(raw_args, variable_scope, it) {
                    Ok(d) => d,
                    Err(e) => {
                        return Err(e);
                    },
                };
                let ghost mid = *it;
                let ghost dv = crate::interpreter::scope::defined_view(d);
                it.funcs.insert(FunctionSource::Defined(d));
                let u = it.new_cell(Data::Unit);
                proof {
                    assert(it.funcs.scope@.subrange(0, pre.funcs.scope@.len() as int)
                        =~= pre.funcs.scope@);
                    assert(cells_view(it.cells@) =~= cells_view(pre.cells@)
                        + Seq::new(spre@.len(), |j: int| cells_view(pre.cells@)[spre@[j].1 as int])
                        + seq![DataView::Unit]);
                    let parts = spec_new(raw_args@)->Ok_0;
                    assert(dv.argument_names =~= Seq::new(parts.params.len(), |k: int| parts.params[k].0));
                    assert(dv.body =~= parts.body);
                    assert(dv.scope =~= Seq::new(spre@.len(), |j: int| (spre@[j].0, (st0.cells.len() + j) as usize)));
                    assert(crate::interpreter::scope::funcs_view(it.funcs.scope@)
                        =~= st0.funcs.push(crate::interpreter::scope::RegEntry::Defined(dv)));
                    assert(semantics::state_view(*it) =~= semantics::EvalState {
                        funcs: st0.funcs.push(crate::interpreter::scope::RegEntry::Defined(dv)),
                        cells: st0.cells
                            + Seq::new(spre@.len(), |j: int| st0.cells[spre@[j].1 as int])
                            + seq![DataView::Unit],
                        ..st0
                    });
                }
                Ok(u)
            },
        }
    }
}

} // verus!
