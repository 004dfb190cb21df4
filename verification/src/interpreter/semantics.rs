//! The evaluation relation: a mathematical interpreter that says, step for
//! step, what evaluating a program does to the engine state. The contracts
//! of the executable evaluator equate its results with this relation.
//!
//! The relation recurses on the evaluation budget carried in the state.
//! Where a sub-evaluation would have to *increase* the budget for the
//! recursion to continue — which no evaluation step does — the relation
//! yields `None`; every contract of the executable evaluator shows that
//! case never arises.

use vstd::prelude::*;

use crate::interpreter::Argument;
use crate::interpreter::ControlFlow;
use crate::interpreter::DataView;
use crate::interpreter::Error;
use crate::interpreter::Interpreter;
use crate::interpreter::Invocation;
use crate::interpreter::cells_view;
use crate::interpreter::data_wf;
use crate::interpreter::context::ContextFunction;
use crate::interpreter::context::context_sig_view;
use crate::interpreter::defined::spec_new;
use crate::interpreter::defined::defined_sig;
use crate::interpreter::scope::DefinedView;
use crate::interpreter::scope::RegEntry;
use crate::interpreter::scope::SigView;
use crate::interpreter::scope::SignatureArgument;
use crate::interpreter::scope::funcs_view;
use crate::interpreter::scope::lookup_view;
use crate::interpreter::scope::spec_get;
use crate::interpreter::system::SystemFunction;
use crate::interpreter::system::and_from;
use crate::interpreter::system::arith_result;
use crate::interpreter::system::compare_result;
use crate::interpreter::system::or_from;
use crate::interpreter::system::true_count_from;
use crate::interpreter::text;

verus! {

/// The model of a variable scope: names bound to cells, latest first on
/// lookup.
pub type ScopeV = Seq<(Seq<char>, usize)>;

/// The model of the whole engine state.
#[verifier::ext_equal]
pub struct EvalState {
    pub funcs: Seq<RegEntry>,
    pub cells: Seq<DataView>,
    pub input: Seq<Seq<char>>,
    pub input_at: int,
    pub output: Seq<Seq<char>>,
    pub fuel: nat,
}

/// The outcome of one evaluation step: the state and scope after it and the
/// produced cell or error. `None` stands for the impossible budget-increase
/// case described in the module documentation.
pub type Step = Option<(EvalState, ScopeV, Result<usize, Error>)>;

/// The models of a vector of text lines.
pub open spec fn line_views(s: Seq<String>) -> Seq<Seq<char>> {
    Seq::new(s.len(), |i: int| s[i]@)
}

/// The model of the engine state a running interpreter holds.
pub open spec fn state_view<'p>(it: Interpreter<'p>) -> EvalState {
    EvalState {
        funcs: funcs_view(it.funcs.scope@),
        cells: cells_view(it.cells@),
        input: line_views(it.input@),
        input_at: it.input_at as int,
        output: line_views(it.output@),
        fuel: it.fuel as nat,
    }
}

impl EvalState {
    /// The state with one fresh cell holding `d` appended.
    pub open spec fn push_cell(self, d: DataView) -> EvalState {
        EvalState { cells: self.cells.push(d), ..self }
    }

    /// The index the next fresh cell gets.
    pub open spec fn fresh(self) -> usize {
        self.cells.len() as usize
    }
}

/// The model of one argument handed to a context built-in.
pub enum CtxArgV {
    Raw(Argument),
    Data(usize),
}

/// The models of the arguments handed to a context built-in.
pub open spec fn ctx_args_view<'p>(v: Seq<crate::interpreter::context::ContextArgument<'p>>) -> Seq<CtxArgV> {
    Seq::new(v.len(), |i: int| match v[i] {
        crate::interpreter::context::ContextArgument::Raw(a) => CtxArgV::Raw(*a),
        crate::interpreter::context::ContextArgument::Data(c) => CtxArgV::Data(c),
    })
}

/// How one pass over a loop body ended: it ran to its end (a consumed
/// `continue` signal counts as that, the rest of the pass being skipped),
/// a `break` or `return` signal stopped it, or a statement failed.
pub enum BodyOutcome {
    Finished,
    Broke,
    Returned(usize),
    Failed(Error),
}

/// What a system built-in does to the state, and its outcome, given the
/// evaluated argument cells. The functional form of
/// [`crate::interpreter::system::sys_post`].
pub open spec fn sys_step(f: SystemFunction, args: Seq<usize>, st: EvalState) -> (EvalState, Result<usize, Error>) {
    match f {
        SystemFunction::Stdin => {
            let line = if st.input_at < st.input.len() {
                st.input[st.input_at]
            } else {
                Seq::empty()
            };
            let advanced = if st.input_at < st.input.len() {
                st.input_at + 1
            } else {
                st.input_at
            };
            (
                EvalState { cells: st.cells.push(DataView::Str(line)), input_at: advanced, ..st },
                Ok(st.fresh()),
            )
        },
        SystemFunction::Number => {
            if args.len() == 0 {
                (st, Err(Error::ArgumentCount))
            } else {
                match st.cells[args[0] as int] {
                    DataView::Str(s) => match text::parse_num(s) {
                        Some(v) => (st.push_cell(DataView::Num(v)), Ok(st.fresh())),
                        None => (st, Err(Error::InvalidNumber)),
                    },
                    _ => (st, Err(Error::ShapeMismatch(crate::interpreter::DataKind::Str))),
                }
            }
        },
        SystemFunction::Trim => {
            if args.len() == 0 {
                (st, Err(Error::ArgumentCount))
            } else {
                match st.cells[args[0] as int] {
                    DataView::Str(s) => (st.push_cell(DataView::Str(text::trim_view(s))), Ok(st.fresh())),
                    _ => (st, Err(Error::ShapeMismatch(crate::interpreter::DataKind::Str))),
                }
            }
        },
        SystemFunction::Not => {
            if args.len() == 0 {
                (st, Err(Error::ArgumentCount))
            } else {
                match st.cells[args[0] as int] {
                    DataView::Bool(b) => (st.push_cell(DataView::Bool(!b)), Ok(st.fresh())),
                    _ => (st, Err(Error::ShapeMismatch(crate::interpreter::DataKind::Bool))),
                }
            }
        },
        SystemFunction::And => match and_from(st.cells, args, 0) {
            Ok(b) => (st.push_cell(DataView::Bool(b)), Ok(st.fresh())),
            Err(e) => (st, Err(e)),
        },
        SystemFunction::Or => match or_from(st.cells, args, 0) {
            Ok(b) => (st.push_cell(DataView::Bool(b)), Ok(st.fresh())),
            Err(e) => (st, Err(e)),
        },
        SystemFunction::Xor => match true_count_from(st.cells, args, 0) {
            Ok(c) => (st.push_cell(DataView::Bool(c == 1)), Ok(st.fresh())),
            Err(e) => (st, Err(e)),
        },
        SystemFunction::Add
        | SystemFunction::Sub
        | SystemFunction::Mul
        | SystemFunction::Div
        | SystemFunction::Mod => match arith_result(st.cells, args, f) {
            Ok(v) => (st.push_cell(DataView::Num(v)), Ok(st.fresh())),
            Err(e) => (st, Err(e)),
        },
        SystemFunction::Println => match text::list_items(st.cells, args, st.fuel, " "@) {
            Some(line) => (
                EvalState { cells: st.cells.push(DataView::Unit), output: st.output.push(line), ..st },
                Ok(st.fresh()),
            ),
            None => (st, Err(Error::OutOfFuel)),
        },
        SystemFunction::Break => (st.push_cell(DataView::Flow(ControlFlow::Break)), Ok(st.fresh())),
        SystemFunction::Continue => (st.push_cell(DataView::Flow(ControlFlow::Continue)), Ok(st.fresh())),
        SystemFunction::Return => {
            if args.len() == 0 {
                (st, Err(Error::ArgumentCount))
            } else {
                (st.push_cell(DataView::Flow(ControlFlow::Return(args[0]))), Ok(st.fresh()))
            }
        },
        SystemFunction::Cmp => {
            if args.len() < 2 {
                (st, Err(Error::ArgumentCount))
            } else {
                match text::deep_eq(st.cells, st.cells[args[0] as int], st.cells[args[1] as int], st.fuel) {
                    Some(b) => (st.push_cell(DataView::Bool(b)), Ok(st.fresh())),
                    None => (st, Err(Error::OutOfFuel)),
                }
            }
        },
        SystemFunction::GreaterThan
        | SystemFunction::GreaterThanOrEqual
        | SystemFunction::LessThan
        | SystemFunction::LessThanOrEqual => match compare_result(st.cells, args, f) {
            Ok(b) => (st.push_cell(DataView::Bool(b)), Ok(st.fresh())),
            Err(e) => (st, Err(e)),
        },
        SystemFunction::Push => {
            if args.len() == 0 {
                (st, Err(Error::ArgumentCount))
            } else {
                match st.cells[args[0] as int] {
                    DataView::List(l) => (
                        EvalState {
                            cells: st.cells.update(args[0] as int, DataView::List(l + args.skip(1)))
                                .push(DataView::Unit),
                            ..st
                        },
                        Ok(st.fresh()),
                    ),
                    _ => (st, Err(Error::ShapeMismatch(crate::interpreter::DataKind::List))),
                }
            }
        },
        SystemFunction::Pop => {
            if args.len() == 0 {
                (st, Err(Error::ArgumentCount))
            } else {
                match st.cells[args[0] as int] {
                    DataView::List(l) => if l.len() == 0 {
                        (st, Err(Error::OutOfBounds))
                    } else {
                        (
                            EvalState {
                                cells: st.cells.update(args[0] as int, DataView::List(l.drop_last())),
                                ..st
                            },
                            Ok(l.last()),
                        )
                    },
                    _ => (st, Err(Error::ShapeMismatch(crate::interpreter::DataKind::List))),
                }
            }
        },
        SystemFunction::Index => {
            if args.len() < 2 {
                (st, Err(Error::ArgumentCount))
            } else {
                match st.cells[args[0] as int] {
                    DataView::List(l) => match st.cells[args[1] as int] {
                        DataView::Num(n) => if 0 <= n < l.len() {
                            (st, Ok(l[n as int]))
                        } else {
                            (st, Err(Error::OutOfBounds))
                        },
                        _ => (st, Err(Error::ShapeMismatch(crate::interpreter::DataKind::Num))),
                    },
                    _ => (st, Err(Error::ShapeMismatch(crate::interpreter::DataKind::List))),
                }
            }
        },
        SystemFunction::Length => {
            if args.len() == 0 {
                (st, Err(Error::ArgumentCount))
            } else {
                match st.cells[args[0] as int] {
                    DataView::List(l) => if l.len() <= i64::MAX {
                        (st.push_cell(DataView::Num(l.len() as i64)), Ok(st.fresh()))
                    } else {
                        (st, Err(Error::InvalidNumber))
                    },
                    _ => (st, Err(Error::ShapeMismatch(crate::interpreter::DataKind::List))),
                }
            }
        },
        SystemFunction::List => (st.push_cell(DataView::List(args)), Ok(st.fresh())),
    }
}

/// A built-in that only appends one fresh cell moves the state model by
/// exactly one pushed cell.
proof fn lemma_pushes_view<'p>(pre: Interpreter<'p>, post: Interpreter<'p>, dv: DataView)
    requires
        crate::interpreter::system::pushes(pre, post, dv),
    ensures
        state_view(post) == state_view(pre).push_cell(dv),
{
    assert(line_views(post.input@) =~= line_views(pre.input@));
    assert(line_views(post.output@) =~= line_views(pre.output@));
    assert(funcs_view(post.funcs.scope@) =~= funcs_view(pre.funcs.scope@));
    assert(state_view(post) =~= state_view(pre).push_cell(dv));
}

/// The relational postcondition of a system built-in and its functional
/// form agree: what [`crate::interpreter::system::SystemFunction::execute`]
/// did is exactly one [`sys_step`].
pub proof fn lemma_sys_step_agrees<'p>(
    f: SystemFunction,
    args: Seq<usize>,
    pre: Interpreter<'p>,
    post: Interpreter<'p>,
    r: Result<usize, Error>,
)
    requires
        crate::interpreter::system::sys_post(f, args, pre, post, r),
    ensures
        sys_step(f, args, state_view(pre)) == (state_view(post), r),
{
    let st = state_view(pre);
    let (st2, r2) = sys_step(f, args, st);
    match f {
        SystemFunction::Stdin => {
            assert(line_views(post.output@) =~= line_views(pre.output@));
            assert(funcs_view(post.funcs.scope@) =~= funcs_view(pre.funcs.scope@));
            assert(line_views(post.input@) =~= line_views(pre.input@));
            assert(st2 =~= state_view(post));
        },
        SystemFunction::Println => {
            if r is Ok {
                assert(line_views(post.input@) =~= line_views(pre.input@));
                assert(funcs_view(post.funcs.scope@) =~= funcs_view(pre.funcs.scope@));
                let line = text::list_items(st.cells, args, st.fuel, " "@)->Some_0;
                assert(line_views(post.output@) =~= line_views(pre.output@).push(line)) by {
                    assert forall|i: int| 0 <= i < post.output@.len()
                        implies line_views(post.output@)[i]
                            == line_views(pre.output@).push(line)[i] by {
                        if i < pre.output@.len() {
                            assert(post.output@[i]
                                == post.output@.subrange(0, pre.output@.len() as int)[i]);
                        }
                    }
                }
                assert(st2 =~= state_view(post));
            }
        },
        SystemFunction::Push => {
            if r is Ok {
                assert(line_views(post.input@) =~= line_views(pre.input@));
                assert(line_views(post.output@) =~= line_views(pre.output@));
                assert(funcs_view(post.funcs.scope@) =~= funcs_view(pre.funcs.scope@));
                assert(st2 =~= state_view(post));
            }
        },
        SystemFunction::Pop => {
            if r is Ok {
                assert(line_views(post.input@) =~= line_views(pre.input@));
                assert(line_views(post.output@) =~= line_views(pre.output@));
                assert(funcs_view(post.funcs.scope@) =~= funcs_view(pre.funcs.scope@));
                assert(st2 =~= state_view(post));
            }
        },
        _ => {},
    }
    if r is Err {
        assert(post == pre);
    } else {
        match f {
            SystemFunction::Number => {
                lemma_pushes_view(pre, post, st2.cells.last());
            },
            SystemFunction::Trim => {
                lemma_pushes_view(pre, post, st2.cells.last());
            },
            SystemFunction::Not => {
                lemma_pushes_view(pre, post, st2.cells.last());
            },
            SystemFunction::And => {
                lemma_pushes_view(pre, post, st2.cells.last());
            },
            SystemFunction::Or => {
                lemma_pushes_view(pre, post, st2.cells.last());
            },
            SystemFunction::Xor => {
                lemma_pushes_view(pre, post, st2.cells.last());
            },
            SystemFunction::Add
            | SystemFunction::Sub
            | SystemFunction::Mul
            | SystemFunction::Div
            | SystemFunction::Mod => {
                lemma_pushes_view(pre, post, st2.cells.last());
            },
            SystemFunction::Break => {
                lemma_pushes_view(pre, post, DataView::Flow(ControlFlow::Break));
            },
            SystemFunction::Continue => {
                lemma_pushes_view(pre, post, DataView::Flow(ControlFlow::Continue));
            },
            SystemFunction::Return => {
                lemma_pushes_view(pre, post, DataView::Flow(ControlFlow::Return(args[0])));
            },
            SystemFunction::Cmp => {
                lemma_pushes_view(pre, post, st2.cells.last());
            },
            SystemFunction::GreaterThan
            | SystemFunction::GreaterThanOrEqual
            | SystemFunction::LessThan
            | SystemFunction::LessThanOrEqual => {
                lemma_pushes_view(pre, post, st2.cells.last());
            },
            SystemFunction::Length => {
                lemma_pushes_view(pre, post, st2.cells.last());
            },
            SystemFunction::List => {
                lemma_pushes_view(pre, post, DataView::List(args));
            },
            _ => {},
        }
    }
}

/// Evaluating a call: one unit of budget is consumed, the callee is
/// resolved by overload resolution, and the resolved entry runs; a failure
/// at any point is the call's outcome.
pub open spec fn eval_inv(st: EvalState, sc: ScopeV, inv: Invocation) -> Step
    decreases st.fuel, 6int, 0int,
{
    if st.fuel == 0 {
        Some((st, sc, Err(Error::OutOfFuel)))
    } else {
        let st1 = EvalState { fuel: (st.fuel - 1) as nat, ..st };
        match spec_get(st1.funcs, st1.cells, sc, inv.name@, inv.args@) {
            Err(e) => Some((st1, sc, Err(e))),
            Ok(None) => Some((st1, sc, Err(Error::FunctionNotFound(inv.name)))),
            Ok(Some(i)) => exec_entry(st1, sc, st1.funcs[i], inv.args@),
        }
    }
}

/// Evaluating one raw argument: a well-formed literal goes into a fresh
/// cell; an identifier yields the very cell it is bound to; a nested call
/// evaluates.
pub open spec fn eval_arg(st: EvalState, sc: ScopeV, a: Argument) -> Step
    decreases st.fuel, 7int, 0int,
{
    match a {
        Argument::Data(d) => if data_wf(d@, st.cells.len() as nat) {
            Some((st.push_cell(d@), sc, Ok(st.fresh())))
        } else {
            Some((st, sc, Err(Error::OutOfBounds)))
        },
        Argument::Ident(id) => match lookup_view(sc, id@) {
            Some(c) => Some((st, sc, Ok(c))),
            None => Some((st, sc, Err(Error::VariableNotFound(id)))),
        },
        Argument::Function(inv) => eval_inv(st, sc, inv),
    }
}

/// Evaluating the arguments from position `j` on, left to right, eagerly,
/// collecting the cells after `acc`.
pub open spec fn eval_args(st: EvalState, sc: ScopeV, args: Seq<Argument>, j: int, acc: Seq<usize>) -> Option<(EvalState, ScopeV, Result<Seq<usize>, Error>)>
    decreases st.fuel, 8int, args.len() - j,
{
    if j < 0 || j >= args.len() {
        Some((st, sc, Ok(acc)))
    } else {
        match eval_arg(st, sc, args[j]) {
            None => None,
            Some((st1, sc1, Err(e))) => Some((st1, sc1, Err(e))),
            Some((st1, sc1, Ok(c))) => if st1.fuel > st.fuel {
                None
            } else {
                eval_args(st1, sc1, args, j + 1, acc.push(c))
            },
        }
    }
}

/// Converting the arguments from position `j` on for a context built-in:
/// the declared slot (the last one for overflow positions) decides whether
/// the raw argument is passed through or evaluated first.
pub open spec fn ctx_args_from(st: EvalState, sc: ScopeV, args: Seq<Argument>, sv: SigView, j: int, acc: Seq<CtxArgV>) -> Option<(EvalState, ScopeV, Result<Seq<CtxArgV>, Error>)>
    decreases st.fuel, 8int, args.len() - j,
{
    if j < 0 || j >= args.len() {
        Some((st, sc, Ok(acc)))
    } else {
        let slot = sv.args[if j < sv.args.len() - 1 { j } else { sv.args.len() - 1 }];
        match slot {
            SignatureArgument::Raw => ctx_args_from(st, sc, args, sv, j + 1, acc.push(CtxArgV::Raw(args[j]))),
            _ => match eval_arg(st, sc, args[j]) {
                None => None,
                Some((st1, sc1, Err(e))) => Some((st1, sc1, Err(e))),
                Some((st1, sc1, Ok(c))) => if st1.fuel > st.fuel {
                    None
                } else {
                    ctx_args_from(st1, sc1, args, sv, j + 1, acc.push(CtxArgV::Data(c)))
                },
            },
        }
    }
}

/// Running a resolved registry entry on a call's raw arguments: a system
/// built-in and a user-defined function receive every argument evaluated
/// eagerly, left to right; a context built-in receives, per declared slot,
/// the raw argument or the evaluated cell.
pub open spec fn exec_entry(st: EvalState, sc: ScopeV, e: RegEntry, args: Seq<Argument>) -> Step
    decreases st.fuel, 10int, 0int,
{
    match e {
        RegEntry::System(f) => match eval_args(st, sc, args, 0, Seq::empty()) {
            None => None,
            Some((st1, sc1, Err(e2))) => Some((st1, sc1, Err(e2))),
            Some((st1, sc1, Ok(cs))) => {
                let (st2, r) = sys_step(f, cs, st1);
                Some((st2, sc1, r))
            },
        },
        RegEntry::Context(f) => match ctx_args_from(st, sc, args, context_sig_view(f), 0, Seq::empty()) {
            None => None,
            Some((st1, sc1, Err(e2))) => Some((st1, sc1, Err(e2))),
            Some((st1, sc1, Ok(cargs))) => if st1.fuel > st.fuel {
                None
            } else {
                ctx_exec(f, st1, sc1, cargs, args)
            },
        },
        RegEntry::Defined(dv) => match eval_args(st, sc, args, 0, Seq::empty()) {
            None => None,
            Some((st1, sc1, Err(e2))) => Some((st1, sc1, Err(e2))),
            Some((st1, sc1, Ok(cs))) => if st1.fuel > st.fuel {
                None
            } else {
                match defined_exec(st1, dv, cs) {
                    None => None,
                    Some((st2, r)) => Some((st2, sc1, r)),
                }
            },
        },
    }
}

/// Running a context built-in on its converted arguments. `let` and `=`
/// act on the current scope and arena; `if` and `while` run their bodies
/// on a copy of the scope; `fn` appends a definition whose captured scope
/// snapshots the current bindings into fresh cells.
pub open spec fn ctx_exec(f: ContextFunction, st: EvalState, sc: ScopeV, cargs: Seq<CtxArgV>, raw_args: Seq<Argument>) -> Step
    decreases st.fuel, 9int, 0int,
{
    match f {
        ContextFunction::Let => {
            if cargs.len() < 2 {
                Some((st, sc, Err(Error::ArgumentCount)))
            } else {
                match cargs[0] {
                    CtxArgV::Raw(a) => match a {
                        Argument::Ident(n) => match cargs[1] {
                            CtxArgV::Data(c) => Some((
                                st.push_cell(DataView::Unit),
                                sc.push((n@, c)),
                                Ok(st.fresh()),
                            )),
                            _ => Some((st, sc, Err(Error::ExpectedValue))),
                        },
                        _ => Some((st, sc, Err(Error::ExpectedIdent))),
                    },
                    _ => Some((st, sc, Err(Error::ExpectedIdent))),
                }
            }
        },
        ContextFunction::Assign => {
            if cargs.len() < 2 {
                Some((st, sc, Err(Error::ArgumentCount)))
            } else {
                match cargs[0] {
                    CtxArgV::Raw(a) => match a {
                        Argument::Ident(n) => match cargs[1] {
                            CtxArgV::Data(c) => match lookup_view(sc, n@) {
                                Some(target) => Some((
                                    EvalState {
                                        cells: st.cells.update(target as int, st.cells[c as int])
                                            .push(DataView::Unit),
                                        ..st
                                    },
                                    sc,
                                    Ok(st.fresh()),
                                )),
                                None => Some((st, sc, Err(Error::VariableNotFound(n)))),
                            },
                            _ => Some((st, sc, Err(Error::ExpectedValue))),
                        },
                        _ => Some((st, sc, Err(Error::ExpectedIdent))),
                    },
                    _ => Some((st, sc, Err(Error::ExpectedIdent))),
                }
            }
        },
        ContextFunction::If => {
            if cargs.len() < 1 {
                Some((st, sc, Err(Error::ArgumentCount)))
            } else {
                match cargs[0] {
                    CtxArgV::Raw(_) => Some((st, sc, Err(Error::ExpectedValue))),
                    CtxArgV::Data(c) => match st.cells[c as int] {
                        DataView::Bool(false) => Some((st.push_cell(DataView::Unit), sc, Ok(st.fresh()))),
                        DataView::Bool(true) => match if_body(st, sc, cargs, 1) {
                            None => None,
                            Some((st1, r)) => Some((st1, sc, r)),
                        },
                        _ => Some((st, sc, Err(Error::ShapeMismatch(crate::interpreter::DataKind::Bool)))),
                    },
                }
            }
        },
        ContextFunction::While => {
            if cargs.len() < 1 {
                Some((st, sc, Err(Error::ArgumentCount)))
            } else {
                match cargs[0] {
                    CtxArgV::Raw(p) => while_loop(st, sc, p, cargs),
                    _ => Some((st, sc, Err(Error::ExpectedInvocation))),
                }
            }
        },
        ContextFunction::Fn => {
            match spec_new(raw_args) {
                Err(e) => Some((st, sc, Err(e))),
                Ok(parts) => {
                    let dv = DefinedView {
                        signature: defined_sig(parts.name, parts.ret, parts.params),
                        argument_names: Seq::new(parts.params.len(), |k: int| parts.params[k].0),
                        body: parts.body,
                        scope: Seq::new(sc.len(), |j: int| (sc[j].0, (st.cells.len() + j) as usize)),
                    };
                    let snapshot = Seq::new(sc.len(), |j: int| st.cells[sc[j].1 as int]);
                    Some((
                        EvalState {
                            funcs: st.funcs.push(RegEntry::Defined(dv)),
                            cells: st.cells + snapshot + seq![DataView::Unit],
                            ..st
                        },
                        sc,
                        Ok((st.cells.len() + sc.len()) as usize),
                    ))
                },
            }
        },
    }
}

/// Running an `if` body from statement `k` on, in the block scope `block`:
/// statements run in order; the first whose value is a control-flow signal
/// stops the body, and a fresh cell carrying that signal is the result;
/// otherwise the result is a fresh unit cell.
pub open spec fn if_body(st: EvalState, block: ScopeV, cargs: Seq<CtxArgV>, k: int) -> Option<(EvalState, Result<usize, Error>)>
    decreases st.fuel, 8int, cargs.len() - k,
{
    if k < 1 || k >= cargs.len() {
        Some((st.push_cell(DataView::Unit), Ok(st.fresh())))
    } else {
        match cargs[k] {
            CtxArgV::Data(_) => Some((st, Err(Error::ExpectedInvocation))),
            CtxArgV::Raw(a) => match eval_arg(st, block, a) {
                None => None,
                Some((st1, b1, Err(e))) => Some((st1, Err(e))),
                Some((st1, b1, Ok(c))) => match st1.cells[c as int] {
                    DataView::Flow(ctrl) => Some((
                        st1.push_cell(DataView::Flow(ctrl)),
                        Ok(st1.fresh()),
                    )),
                    _ => if st1.fuel > st.fuel {
                        None
                    } else {
                        if_body(st1, b1, cargs, k + 1)
                    },
                },
            },
        }
    }
}

/// One pass over a `while` body from statement `k` on, in the block scope
/// `block`: statements run in order until one yields a control-flow
/// signal — `break` and `return` stop the loop, `continue` merely ends the
/// pass — or a statement fails.
pub open spec fn while_body(st: EvalState, block: ScopeV, cargs: Seq<CtxArgV>, k: int) -> Option<(EvalState, BodyOutcome)>
    decreases st.fuel, 8int, cargs.len() - k,
{
    if k < 1 || k >= cargs.len() {
        Some((st, BodyOutcome::Finished))
    } else {
        match cargs[k] {
            CtxArgV::Data(_) => Some((st, BodyOutcome::Failed(Error::ExpectedInvocation))),
            CtxArgV::Raw(a) => match eval_arg(st, block, a) {
                None => None,
                Some((st1, b1, Err(e))) => Some((st1, BodyOutcome::Failed(e))),
                Some((st1, b1, Ok(c))) => match st1.cells[c as int] {
                    DataView::Flow(ControlFlow::Break) => Some((st1, BodyOutcome::Broke)),
                    DataView::Flow(ControlFlow::Continue) => Some((st1, BodyOutcome::Finished)),
                    DataView::Flow(ControlFlow::Return(rc)) => Some((st1, BodyOutcome::Returned(rc))),
                    _ => if st1.fuel > st.fuel {
                        None
                    } else {
                        while_body(st1, b1, cargs, k + 1)
                    },
                },
            },
        }
    }
}

/// The `while` loop: each iteration consumes one unit of budget, evaluates
/// the raw predicate in the current scope, and — when it holds — runs the
/// body on a copy of the scope. A false predicate yields a fresh unit
/// cell; a `break` signal ends the loop with a fresh unit cell; a `return`
/// signal ends it with a fresh cell carrying the same signal, the carried
/// cell untouched.
pub open spec fn while_loop(st: EvalState, sc: ScopeV, p: Argument, cargs: Seq<CtxArgV>) -> Step
    decreases st.fuel, 8int, 0int,
{
    if st.fuel == 0 {
        Some((st, sc, Err(Error::OutOfFuel)))
    } else {
        let st1 = EvalState { fuel: (st.fuel - 1) as nat, ..st };
        match eval_arg(st1, sc, p) {
            None => None,
            Some((st2, sc2, Err(e))) => Some((st2, sc2, Err(e))),
            Some((st2, sc2, Ok(c))) => if st2.fuel >= st.fuel {
                None
            } else {
                match st2.cells[c as int] {
                    DataView::Bool(false) => Some((st2.push_cell(DataView::Unit), sc2, Ok(st2.fresh()))),
                    DataView::Bool(true) => match while_body(st2, sc2, cargs, 1) {
                        None => None,
                        Some((st3, BodyOutcome::Failed(e))) => Some((st3, sc2, Err(e))),
                        Some((st3, BodyOutcome::Broke)) => Some((
                            st3.push_cell(DataView::Unit),
                            sc2,
                            Ok(st3.fresh()),
                        )),
                        Some((st3, BodyOutcome::Returned(rc))) => Some((
                            st3.push_cell(DataView::Flow(ControlFlow::Return(rc))),
                            sc2,
                            Ok(st3.fresh()),
                        )),
                        Some((st3, BodyOutcome::Finished)) => if st3.fuel >= st.fuel {
                            None
                        } else {
                            while_loop(st3, sc2, p, cargs)
                        },
                    },
                    _ => Some((st2, sc2, Err(Error::ShapeMismatch(crate::interpreter::DataKind::Bool)))),
                }
            },
        }
    }
}

/// Running a user-defined function on evaluated argument cells: each
/// parameter is bound to its argument's cell — the very cell — in a copy
/// of the captured scope, then the body statements run in order. The first
/// `return` signal ends the run with its carried cell; a body without one
/// yields a fresh unit cell.
pub open spec fn defined_exec(st: EvalState, dv: DefinedView, args: Seq<usize>) -> Option<(EvalState, Result<usize, Error>)>
    decreases st.fuel, 9int, 0int,
{
    if args.len() < dv.argument_names.len() {
        Some((st, Err(Error::ArgumentCount)))
    } else {
        let sc = dv.scope + Seq::new(dv.argument_names.len(), |j: int| (dv.argument_names[j], args[j]));
        defined_body(st, sc, dv.body, 0)
    }
}

/// Running a user-defined body from statement `k` on.
pub open spec fn defined_body(st: EvalState, sc: ScopeV, body: Seq<Invocation>, k: int) -> Option<(EvalState, Result<usize, Error>)>
    decreases st.fuel, 8int, body.len() - k,
{
    if k < 0 || k >= body.len() {
        Some((st.push_cell(DataView::Unit), Ok(st.fresh())))
    } else {
        match eval_inv(st, sc, body[k]) {
            None => None,
            Some((st1, sc1, Err(e))) => Some((st1, Err(e))),
            Some((st1, sc1, Ok(c))) => match st1.cells[c as int] {
                DataView::Flow(ControlFlow::Return(rc)) => Some((st1, Ok(rc))),
                _ => if st1.fuel > st.fuel {
                    None
                } else {
                    defined_body(st1, sc1, body, k + 1)
                },
            },
        }
    }
}

/// The registry every run starts from: all system built-ins, then all
/// context built-ins, in registration order.
pub open spec fn builtin_entries() -> Seq<RegEntry> {
    seq![
        RegEntry::System(SystemFunction::Stdin),
        RegEntry::System(SystemFunction::Number),
        RegEntry::System(SystemFunction::Trim),
        RegEntry::System(SystemFunction::Not),
        RegEntry::System(SystemFunction::And),
        RegEntry::System(SystemFunction::Or),
        RegEntry::System(SystemFunction::Xor),
        RegEntry::System(SystemFunction::Add),
        RegEntry::System(SystemFunction::Sub),
        RegEntry::System(SystemFunction::Mul),
        RegEntry::System(SystemFunction::Div),
        RegEntry::System(SystemFunction::Mod),
        RegEntry::System(SystemFunction::Println),
        RegEntry::System(SystemFunction::Break),
        RegEntry::System(SystemFunction::Continue),
        RegEntry::System(SystemFunction::Return),
        RegEntry::System(SystemFunction::Cmp),
        RegEntry::System(SystemFunction::GreaterThan),
        RegEntry::System(SystemFunction::GreaterThanOrEqual),
        RegEntry::System(SystemFunction::LessThan),
        RegEntry::System(SystemFunction::LessThanOrEqual),
        RegEntry::System(SystemFunction::Push),
        RegEntry::System(SystemFunction::Pop),
        RegEntry::System(SystemFunction::Index),
        RegEntry::System(SystemFunction::Length),
        RegEntry::System(SystemFunction::List),
        RegEntry::Context(ContextFunction::Let),
        RegEntry::Context(ContextFunction::If),
        RegEntry::Context(ContextFunction::Assign),
        RegEntry::Context(ContextFunction::While),
        RegEntry::Context(ContextFunction::Fn),
    ]
}

/// The state a run starts from: the built-in registry, the four root
/// constants in cells zero to three, the given input, no output yet, and
/// the given budget.
pub open spec fn seeded_state(input: Seq<Seq<char>>, fuel: nat) -> EvalState {
    EvalState {
        funcs: builtin_entries(),
        cells: seq![
            DataView::Bool(true),
            DataView::Bool(false),
            DataView::Flow(ControlFlow::Break),
            DataView::Flow(ControlFlow::Continue),
        ],
        input,
        input_at: 0,
        output: Seq::empty(),
        fuel,
    }
}

/// The root scope every run starts from.
pub open spec fn root_scope() -> ScopeV {
    seq![
        ("true"@, 0usize),
        ("false"@, 1usize),
        ("break"@, 2usize),
        ("continue"@, 3usize),
    ]
}

/// Running the statements of a program from position `i` on: each in
/// order, its result — a control-flow value included — discarded; the
/// first failure ends the run with the output printed so far.
pub open spec fn run_program_from(st: EvalState, sc: ScopeV, program: Seq<Invocation>, i: int) -> (Seq<Seq<char>>, Option<Error>)
    decreases program.len() - i,
{
    if i < 0 || i >= program.len() {
        (st.output, None)
    } else {
        match eval_inv(st, sc, program[i]) {
            None => (st.output, None),
            Some((st1, sc1, Ok(_))) => run_program_from(st1, sc1, program, i + 1),
            Some((st1, _, Err(e))) => (st1.output, Some(e)),
        }
    }
}

/// Running a whole program from the seeded state: what [`crate::interpreter::execute`]
/// returns.
pub open spec fn run_program(program: Seq<Invocation>, input: Seq<Seq<char>>, fuel: nat) -> (Seq<Seq<char>>, Option<Error>) {
    run_program_from(seeded_state(input, fuel), root_scope(), program, 0)
}

} // verus!
