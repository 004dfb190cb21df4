//! Built-ins that receive fully evaluated argument cells.

use vstd::prelude::*;

use vstd::pervasive::VecAdditionalExecFns;

use crate::interpreter::ControlFlow;
use crate::interpreter::Data;
use crate::interpreter::DataKind;
use crate::interpreter::DataView;
use crate::interpreter::Error;
use crate::interpreter::Interpreter;
use crate::interpreter::args_wf;
use crate::interpreter::cells_view;
use crate::interpreter::data_wf;
use crate::interpreter::evolves;
use crate::interpreter::lemma_cells_wf_push;
use crate::interpreter::lemma_cells_wf_update;
use crate::interpreter::lemma_sources_wf_mono;
use crate::interpreter::text;
use crate::interpreter::scope::FunctionSignature;
use crate::interpreter::scope::ReturnType;
use crate::interpreter::scope::SigView;
use crate::interpreter::scope::SignatureArgument;
use crate::interpreter::scope::signature;
use crate::interpreter::consts::arg_any;
use crate::interpreter::consts::arg_boolean;
use crate::interpreter::consts::arg_list;
use crate::interpreter::consts::arg_number;
use crate::interpreter::consts::arg_string;
use crate::interpreter::consts::return_any;
use crate::interpreter::consts::return_boolean;
use crate::interpreter::consts::return_control;
use crate::interpreter::consts::return_list;
use crate::interpreter::consts::return_number;
use crate::interpreter::consts::return_string;
use crate::interpreter::consts::return_unit;
use crate::util::OptionalStatic;

verus! {

/// A built-in with the same power as a user-defined function: it receives
/// evaluated cells, never the raw arguments.
#[derive(Clone, Copy, PartialEq, Eq, Structural, Debug)]
pub enum SystemFunction {
    Stdin,
    Number,
    Trim,
    Not,
    And,
    Or,
    Xor,
    Add,
    Sub,
    Mul,
    Div,
    Mod,
    Println,
    Break,
    Continue,
    Return,
    Cmp,
    GreaterThan,
    GreaterThanOrEqual,
    LessThan,
    LessThanOrEqual,
    Push,
    Pop,
    Index,
    Length,
    List,
}

/// The signature table of the system built-ins.
pub open spec fn system_sig_view(f: SystemFunction) -> SigView {
    match f {
        SystemFunction::Stdin => SigView {
            name: "stdin"@,
            args: seq![],
            repeating: false,
            return_type: ReturnType::Data(DataKind::Str),
        },
        SystemFunction::Number => SigView {
            name: "number"@,
            args: seq![SignatureArgument::Data(DataKind::Str)],
            repeating: false,
            return_type: ReturnType::Data(DataKind::Num),
        },
        SystemFunction::Trim => SigView {
            name: "trim"@,
            args: seq![SignatureArgument::Data(DataKind::Str)],
            repeating: false,
            return_type: ReturnType::Data(DataKind::Str),
        },
        SystemFunction::Not => SigView {
            name: "!"@,
            args: seq![SignatureArgument::Data(DataKind::Bool)],
            repeating: false,
            return_type: ReturnType::Data(DataKind::Bool),
        },
        SystemFunction::And => SigView {
            name: "&&"@,
            args: seq![SignatureArgument::Data(DataKind::Bool)],
            repeating: true,
            return_type: ReturnType::Data(DataKind::Bool),
        },
        SystemFunction::Or => SigView {
            name: "||"@,
            args: seq![SignatureArgument::Data(DataKind::Bool)],
            repeating: true,
            return_type: ReturnType::Data(DataKind::Bool),
        },
        SystemFunction::Xor => SigView {
            name: "^"@,
            args: seq![SignatureArgument::Data(DataKind::Bool)],
            repeating: true,
            return_type: ReturnType::Data(DataKind::Bool),
        },
        SystemFunction::Add => SigView {
            name: "+"@,
            args: seq![SignatureArgument::Data(DataKind::Num)],
            repeating: true,
            return_type: ReturnType::Data(DataKind::Num),
        },
        SystemFunction::Sub => SigView {
            name: "-"@,
            args: seq![SignatureArgument::Data(DataKind::Num)],
            repeating: true,
            return_type: ReturnType::Data(DataKind::Num),
        },
        SystemFunction::Mul => SigView {
            name: "*"@,
            args: seq![SignatureArgument::Data(DataKind::Num)],
            repeating: true,
            return_type: ReturnType::Data(DataKind::Num),
        },
        SystemFunction::Div => SigView {
            name: "/"@,
            args: seq![SignatureArgument::Data(DataKind::Num)],
            repeating: true,
            return_type: ReturnType::Data(DataKind::Num),
        },
        SystemFunction::Mod => SigView {
            name: "%"@,
            args: seq![SignatureArgument::Data(DataKind::Num)],
            repeating: true,
            return_type: ReturnType::Data(DataKind::Num),
        },
        SystemFunction::Println => SigView {
            name: "println"@,
            args: seq![SignatureArgument::Any],
            repeating: true,
            return_type: ReturnType::Data(DataKind::Unit),
        },
        SystemFunction::Break => SigView {
            name: "break"@,
            args: seq![],
            repeating: false,
            return_type: ReturnType::Data(DataKind::Flow),
        },
        SystemFunction::Continue => SigView {
            name: "continue"@,
            args: seq![],
            repeating: false,
            return_type: ReturnType::Data(DataKind::Flow),
        },
        SystemFunction::Return => SigView {
            name: "return"@,
            args: seq![SignatureArgument::Any],
            repeating: false,
            return_type: ReturnType::Data(DataKind::Flow),
        },
        SystemFunction::Cmp => SigView {
            name: "=="@,
            args: seq![SignatureArgument::Any, SignatureArgument::Any],
            repeating: false,
            return_type: ReturnType::Data(DataKind::Bool),
        },
        SystemFunction::GreaterThan => SigView {
            name: ">"@,
            args: seq![SignatureArgument::Data(DataKind::Num), SignatureArgument::Data(DataKind::Num)],
            repeating: false,
            return_type: ReturnType::Data(DataKind::Bool),
        },
        SystemFunction::GreaterThanOrEqual => SigView {
            name: ">="@,
            args: seq![SignatureArgument::Data(DataKind::Num), SignatureArgument::Data(DataKind::Num)],
            repeating: false,
            return_type: ReturnType::Data(DataKind::Bool),
        },
        SystemFunction::LessThan => SigView {
            name: "<"@,
            args: seq![SignatureArgument::Data(DataKind::Num), SignatureArgument::Data(DataKind::Num)],
            repeating: false,
            return_type: ReturnType::Data(DataKind::Bool),
        },
        SystemFunction::LessThanOrEqual => SigView {
            name: "<="@,
            args: seq![SignatureArgument::Data(DataKind::Num), SignatureArgument::Data(DataKind::Num)],
            repeating: false,
            return_type: ReturnType::Data(DataKind::Bool),
        },
        SystemFunction::Push => SigView {
            name: "push"@,
            args: seq![SignatureArgument::Data(DataKind::List), SignatureArgument::Any],
            repeating: true,
            return_type: ReturnType::Data(DataKind::Unit),
        },
        SystemFunction::Pop => SigView {
            name: "pop"@,
            args: seq![SignatureArgument::Data(DataKind::List)],
            repeating: true,
            return_type: ReturnType::Data(DataKind::Unit),
        },
        SystemFunction::Index => SigView {
            name: "index"@,
            args: seq![SignatureArgument::Data(DataKind::List), SignatureArgument::Data(DataKind::Num)],
            repeating: true,
            return_type: ReturnType::Any,
        },
        SystemFunction::Length => SigView {
            name: "length"@,
            args: seq![SignatureArgument::Data(DataKind::List)],
            repeating: true,
            return_type: ReturnType::Data(DataKind::Num),
        },
        SystemFunction::List => SigView {
            name: "list"@,
            args: seq![SignatureArgument::Any],
            repeating: true,
            return_type: ReturnType::Data(DataKind::List),
        },
    }
}

impl SystemFunction {
    /// This built-in's signature.
    pub fn signature(&self) -> (r: OptionalStatic<FunctionSignature>)
        ensures
            r.value()@ == system_sig_view(*self),
    {
        let r = match self {
            SystemFunction::Stdin => signature("stdin", Vec::new(), false, return_string()),
            SystemFunction::Number => signature("number", vec![arg_string()], false, return_number()),
            SystemFunction::Trim => signature("trim", vec![arg_string()], false, return_string()),
            SystemFunction::Not => signature("!", vec![arg_boolean()], false, return_boolean()),
            SystemFunction::And => signature("&&", vec![arg_boolean()], true, return_boolean()),
            SystemFunction::Or => signature("||", vec![arg_boolean()], true, return_boolean()),
            SystemFunction::Xor => signature("^", vec![arg_boolean()], true, return_boolean()),
            SystemFunction::Add => signature("+", vec![arg_number()], true, return_number()),
            SystemFunction::Sub => signature("-", vec![arg_number()], true, return_number()),
            SystemFunction::Mul => signature("*", vec![arg_number()], true, return_number()),
            SystemFunction::Div => signature("/", vec![arg_number()], true, return_number()),
            SystemFunction::Mod => signature("%", vec![arg_number()], true, return_number()),
            SystemFunction::Println => signature("println", vec![arg_any()], true, return_unit()),
            SystemFunction::Break => signature("break", Vec::new(), false, return_control()),
            SystemFunction::Continue => signature("continue", Vec::new(), false, return_control()),
            SystemFunction::Return => signature("return", vec![arg_any()], false, return_control()),
            SystemFunction::Cmp => signature("==", vec![arg_any(), arg_any()], false, return_boolean()),
            SystemFunction::GreaterThan => signature(">", vec![arg_number(), arg_number()], false, return_boolean()),
            SystemFunction::GreaterThanOrEqual => signature(">=", vec![arg_number(), arg_number()], false, return_boolean()),
            SystemFunction::LessThan => signature("<", vec![arg_number(), arg_number()], false, return_boolean()),
            SystemFunction::LessThanOrEqual => signature("<=", vec![arg_number(), arg_number()], false, return_boolean()),
            SystemFunction::Push => signature("push", vec![arg_list(), arg_any()], true, return_unit()),
            SystemFunction::Pop => signature("pop", vec![arg_list()], true, return_unit()),
            SystemFunction::Index => signature("index", vec![arg_list(), arg_number()], true, return_any()),
            SystemFunction::Length => signature("length", vec![arg_list()], true, return_number()),
            SystemFunction::List => signature("list", vec![arg_any()], true, return_list()),
        };
        proof {
            assert(r@ =~= system_sig_view(*self));
        }
        OptionalStatic::Owned(r)
    }
}

/// One step of the left fold the arithmetic built-ins perform: addition,
/// subtraction and multiplication wrap around; division and remainder yield
/// zero where the divisor is zero or the exact result does not fit.
pub open spec fn apply_num_op(f: SystemFunction, a: i64, b: i64) -> i64 {
    match f {
        SystemFunction::Add => a.wrapping_add(b),
        SystemFunction::Sub => a.wrapping_sub(b),
        SystemFunction::Mul => a.wrapping_mul(b),
        SystemFunction::Div => match a.checked_div(b) {
            Some(v) => v,
            None => 0,
        },
        SystemFunction::Mod => match a.checked_rem(b) {
            Some(v) => v,
            None => 0,
        },
        _ => 0,
    }
}

/// The left fold of an arithmetic built-in over the argument values from
/// position `j` on, starting from `acc`.
pub open spec fn fold_nums(cv: Seq<DataView>, args: Seq<usize>, j: int, acc: i64, f: SystemFunction) -> Result<i64, Error>
    decreases args.len() - j,
{
    if j < 0 || j >= args.len() {
        Ok(acc)
    } else {
        match cv[args[j] as int] {
            DataView::Num(b) => fold_nums(cv, args, j + 1, apply_num_op(f, acc, b), f),
            _ => Err(Error::ShapeMismatch(DataKind::Num)),
        }
    }
}

/// What an arithmetic built-in computes: the left fold over all trailing
/// arguments starting from the first; at least one argument is owed, and
/// every argument must hold a number.
pub open spec fn arith_result(cv: Seq<DataView>, args: Seq<usize>, f: SystemFunction) -> Result<i64, Error> {
    if args.len() == 0 {
        Err(Error::ArgumentCount)
    } else {
        match cv[args[0] as int] {
            DataView::Num(a) => fold_nums(cv, args, 1, a, f),
            _ => Err(Error::ShapeMismatch(DataKind::Num)),
        }
    }
}

/// Conjunction over the argument values from position `j` on; stops at the
/// first false value, so later values are not inspected.
pub open spec fn and_from(cv: Seq<DataView>, args: Seq<usize>, j: int) -> Result<bool, Error>
    decreases args.len() - j,
{
    if j < 0 || j >= args.len() {
        Ok(true)
    } else {
        match cv[args[j] as int] {
            DataView::Bool(true) => and_from(cv, args, j + 1),
            DataView::Bool(false) => Ok(false),
            _ => Err(Error::ShapeMismatch(DataKind::Bool)),
        }
    }
}

/// Disjunction over the argument values from position `j` on; stops at the
/// first true value, so later values are not inspected.
pub open spec fn or_from(cv: Seq<DataView>, args: Seq<usize>, j: int) -> Result<bool, Error>
    decreases args.len() - j,
{
    if j < 0 || j >= args.len() {
        Ok(false)
    } else {
        match cv[args[j] as int] {
            DataView::Bool(true) => Ok(true),
            DataView::Bool(false) => or_from(cv, args, j + 1),
            _ => Err(Error::ShapeMismatch(DataKind::Bool)),
        }
    }
}

/// How many argument values from position `j` on are true; every argument
/// is inspected and must hold a boolean.
pub open spec fn true_count_from(cv: Seq<DataView>, args: Seq<usize>, j: int) -> Result<int, Error>
    decreases args.len() - j,
{
    if j < 0 || j >= args.len() {
        Ok(0)
    } else {
        match cv[args[j] as int] {
            DataView::Bool(b) => match true_count_from(cv, args, j + 1) {
                Ok(c) => Ok(c + if b { 1int } else { 0int }),
                Err(e) => Err(e),
            },
            _ => Err(Error::ShapeMismatch(DataKind::Bool)),
        }
    }
}

/// What a comparison built-in computes on two numbers.
pub open spec fn apply_cmp(f: SystemFunction, a: i64, b: i64) -> bool {
    match f {
        SystemFunction::GreaterThan => a > b,
        SystemFunction::GreaterThanOrEqual => a >= b,
        SystemFunction::LessThan => a < b,
        SystemFunction::LessThanOrEqual => a <= b,
        _ => false,
    }
}

/// What a numeric comparison built-in yields: both arguments are owed and
/// must hold numbers.
pub open spec fn compare_result(cv: Seq<DataView>, args: Seq<usize>, f: SystemFunction) -> Result<bool, Error> {
    if args.len() < 2 {
        Err(Error::ArgumentCount)
    } else {
        match cv[args[0] as int] {
            DataView::Num(a) => match cv[args[1] as int] {
                DataView::Num(b) => Ok(apply_cmp(f, a, b)),
                _ => Err(Error::ShapeMismatch(DataKind::Num)),
            },
            _ => Err(Error::ShapeMismatch(DataKind::Num)),
        }
    }
}

/// The line `stdin` yields: the next unconsumed input line, or the empty
/// string once input is exhausted.
pub open spec fn stdin_line<'p>(pre: Interpreter<'p>) -> Seq<char> {
    if pre.input_at < pre.input@.len() {
        pre.input@[pre.input_at as int]@
    } else {
        Seq::empty()
    }
}

/// The state transition of a built-in that only appends one fresh cell
/// holding `dv`: everything else, the registry, the streams and the budget,
/// stays as it was.
pub open spec fn pushes<'p>(pre: Interpreter<'p>, post: Interpreter<'p>, dv: DataView) -> bool {
    &&& post.cells@.len() == pre.cells@.len() + 1
    &&& cells_view(post.cells@) == cells_view(pre.cells@).push(dv)
    &&& post.funcs.scope@ == pre.funcs.scope@
    &&& post.input@ == pre.input@
    &&& post.input_at == pre.input_at
    &&& post.output@ == pre.output@
    &&& post.fuel == pre.fuel
}

/// The full behaviour of a system built-in, as a relation between the state
/// before the call, the state after it, the evaluated argument cells, and
/// the outcome. Every failure leaves the state exactly as it was.
pub open spec fn sys_post<'p>(
    f: SystemFunction,
    args: Seq<usize>,
    pre: Interpreter<'p>,
    post: Interpreter<'p>,
    r: Result<usize, Error>,
) -> bool {
    let cv = cells_view(pre.cells@);
    match f {
        SystemFunction::Stdin => {
            &&& r == Ok::<usize, Error>(pre.cells@.len() as usize)
            &&& post.cells@.len() == pre.cells@.len() + 1
            &&& cells_view(post.cells@) == cv.push(DataView::Str(stdin_line(pre)))
            &&& post.funcs.scope@ == pre.funcs.scope@
            &&& post.input@ == pre.input@
            &&& post.input_at == if pre.input_at < pre.input@.len() {
                pre.input_at + 1
            } else {
                pre.input_at as int
            }
            &&& post.output@ == pre.output@
            &&& post.fuel == pre.fuel
        },
        SystemFunction::Number => {
            let outcome = if args.len() == 0 {
                Err(Error::ArgumentCount)
            } else {
                match cv[args[0] as int] {
                    DataView::Str(s) => match text::parse_num(s) {
                        Some(v) => Ok(v),
                        None => Err(Error::InvalidNumber),
                    },
                    _ => Err(Error::ShapeMismatch(DataKind::Str)),
                }
            };
            match outcome {
                Ok(v) => r == Ok::<usize, Error>(pre.cells@.len() as usize)
                    && pushes(pre, post, DataView::Num(v)),
                Err(e) => r == Err::<usize, Error>(e) && post == pre,
            }
        },
        SystemFunction::Trim => {
            let outcome = if args.len() == 0 {
                Err(Error::ArgumentCount)
            } else {
                match cv[args[0] as int] {
                    DataView::Str(s) => Ok(text::trim_view(s)),
                    _ => Err(Error::ShapeMismatch(DataKind::Str)),
                }
            };
            match outcome {
                Ok(s) => r == Ok::<usize, Error>(pre.cells@.len() as usize)
                    && pushes(pre, post, DataView::Str(s)),
                Err(e) => r == Err::<usize, Error>(e) && post == pre,
            }
        },
        SystemFunction::Not => {
            let outcome = if args.len() == 0 {
                Err(Error::ArgumentCount)
            } else {
                match cv[args[0] as int] {
                    DataView::Bool(b) => Ok(!b),
                    _ => Err(Error::ShapeMismatch(DataKind::Bool)),
                }
            };
            match outcome {
                Ok(b) => r == Ok::<usize, Error>(pre.cells@.len() as usize)
                    && pushes(pre, post, DataView::Bool(b)),
                Err(e) => r == Err::<usize, Error>(e) && post == pre,
            }
        },
        SystemFunction::And => match and_from(cv, args, 0) {
            Ok(b) => r == Ok::<usize, Error>(pre.cells@.len() as usize)
                && pushes(pre, post, DataView::Bool(b)),
            Err(e) => r == Err::<usize, Error>(e) && post == pre,
        },
        SystemFunction::Or => match or_from(cv, args, 0) {
            Ok(b) => r == Ok::<usize, Error>(pre.cells@.len() as usize)
                && pushes(pre, post, DataView::Bool(b)),
            Err(e) => r == Err::<usize, Error>(e) && post == pre,
        },
        SystemFunction::Xor => match true_count_from(cv, args, 0) {
            Ok(c) => r == Ok::<usize, Error>(pre.cells@.len() as usize)
                && pushes(pre, post, DataView::Bool(c == 1)),
            Err(e) => r == Err::<usize, Error>(e) && post == pre,
        },
        SystemFunction::Add
        | SystemFunction::Sub
        | SystemFunction::Mul
        | SystemFunction::Div
        | SystemFunction::Mod => match arith_result(cv, args, f) {
            Ok(v) => r == Ok::<usize, Error>(pre.cells@.len() as usize)
                && pushes(pre, post, DataView::Num(v)),
            Err(e) => r == Err::<usize, Error>(e) && post == pre,
        },
        SystemFunction::Println => match text::list_items(cv, args, pre.fuel as nat, " "@) {
            Some(line) => {
                &&& r == Ok::<usize, Error>(pre.cells@.len() as usize)
                &&& post.cells@.len() == pre.cells@.len() + 1
                &&& cells_view(post.cells@) == cv.push(DataView::Unit)
                &&& post.funcs.scope@ == pre.funcs.scope@
                &&& post.input@ == pre.input@
                &&& post.input_at == pre.input_at
                &&& post.output@.len() == pre.output@.len() + 1
                &&& post.output@.subrange(0, pre.output@.len() as int) == pre.output@
                &&& post.output@.last()@ == line
                &&& post.fuel == pre.fuel
            },
            None => r == Err::<usize, Error>(Error::OutOfFuel) && post == pre,
        },
        SystemFunction::Break => r == Ok::<usize, Error>(pre.cells@.len() as usize)
            && pushes(pre, post, DataView::Flow(ControlFlow::Break)),
        SystemFunction::Continue => r == Ok::<usize, Error>(pre.cells@.len() as usize)
            && pushes(pre, post, DataView::Flow(ControlFlow::Continue)),
        SystemFunction::Return => {
            if args.len() == 0 {
                r == Err::<usize, Error>(Error::ArgumentCount) && post == pre
            } else {
                r == Ok::<usize, Error>(pre.cells@.len() as usize)
                    && pushes(pre, post, DataView::Flow(ControlFlow::Return(args[0])))
            }
        },
        SystemFunction::Cmp => {
            if args.len() < 2 {
                r == Err::<usize, Error>(Error::ArgumentCount) && post == pre
            } else {
                match text::deep_eq(cv, cv[args[0] as int], cv[args[1] as int], pre.fuel as nat) {
                    Some(b) => r == Ok::<usize, Error>(pre.cells@.len() as usize)
                        && pushes(pre, post, DataView::Bool(b)),
                    None => r == Err::<usize, Error>(Error::OutOfFuel) && post == pre,
                }
            }
        },
        SystemFunction::GreaterThan
        | SystemFunction::GreaterThanOrEqual
        | SystemFunction::LessThan
        | SystemFunction::LessThanOrEqual => match compare_result(cv, args, f) {
            Ok(b) => r == Ok::<usize, Error>(pre.cells@.len() as usize)
                && pushes(pre, post, DataView::Bool(b)),
            Err(e) => r == Err::<usize, Error>(e) && post == pre,
        },
        SystemFunction::Push => {
            let outcome = if args.len() == 0 {
                Err(Error::ArgumentCount)
            } else {
                match cv[args[0] as int] {
                    DataView::List(l) => Ok(l + args.skip(1)),
                    _ => Err(Error::ShapeMismatch(DataKind::List)),
                }
            };
            match outcome {
                Ok(l2) => {
                    &&& r == Ok::<usize, Error>(pre.cells@.len() as usize)
                    &&& post.cells@.len() == pre.cells@.len() + 1
                    &&& cells_view(post.cells@)
                        == cv.update(args[0] as int, DataView::List(l2)).push(DataView::Unit)
                    &&& post.funcs.scope@ == pre.funcs.scope@
                    &&& post.input@ == pre.input@
                    &&& post.input_at == pre.input_at
                    &&& post.output@ == pre.output@
                    &&& post.fuel == pre.fuel
                },
                Err(e) => r == Err::<usize, Error>(e) && post == pre,
            }
        },
        SystemFunction::Pop => {
            let outcome = if args.len() == 0 {
                Err(Error::ArgumentCount)
            } else {
                match cv[args[0] as int] {
                    DataView::List(l) => if l.len() == 0 {
                        Err(Error::OutOfBounds)
                    } else {
                        Ok(l)
                    },
                    _ => Err(Error::ShapeMismatch(DataKind::List)),
                }
            };
            match outcome {
                Ok(l) => {
                    &&& r == Ok::<usize, Error>(l.last())
                    &&& post.cells@.len() == pre.cells@.len()
                    &&& cells_view(post.cells@)
                        == cv.update(args[0] as int, DataView::List(l.drop_last()))
                    &&& post.funcs.scope@ == pre.funcs.scope@
                    &&& post.input@ == pre.input@
                    &&& post.input_at == pre.input_at
                    &&& post.output@ == pre.output@
                    &&& post.fuel == pre.fuel
                },
                Err(e) => r == Err::<usize, Error>(e) && post == pre,
            }
        },
        SystemFunction::Index => {
            let outcome = if args.len() < 2 {
                Err(Error::ArgumentCount)
            } else {
                match cv[args[0] as int] {
                    DataView::List(l) => match cv[args[1] as int] {
                        DataView::Num(n) => if 0 <= n < l.len() {
                            Ok(l[n as int])
                        } else {
                            Err(Error::OutOfBounds)
                        },
                        _ => Err(Error::ShapeMismatch(DataKind::Num)),
                    },
                    _ => Err(Error::ShapeMismatch(DataKind::List)),
                }
            };
            post == pre && r == outcome
        },
        SystemFunction::Length => {
            let outcome = if args.len() == 0 {
                Err(Error::ArgumentCount)
            } else {
                match cv[args[0] as int] {
                    DataView::List(l) => if l.len() <= i64::MAX {
                        Ok(l.len() as i64)
                    } else {
                        Err(Error::InvalidNumber)
                    },
                    _ => Err(Error::ShapeMismatch(DataKind::List)),
                }
            };
            match outcome {
                Ok(v) => r == Ok::<usize, Error>(pre.cells@.len() as usize)
                    && pushes(pre, post, DataView::Num(v)),
                Err(e) => r == Err::<usize, Error>(e) && post == pre,
            }
        },
        SystemFunction::List => r == Ok::<usize, Error>(pre.cells@.len() as usize)
            && pushes(pre, post, DataView::List(args)),
    }
}

/// Variadic arithmetic edge law: the fold over a single number yields that
/// number unchanged, and a call with no arguments at all is an
/// argument-count failure — the fold is owed at least its starting value.
pub proof fn lemma_variadic_arith_edges(cv: Seq<DataView>, c: usize, n: i64, f: SystemFunction)
    requires
        f == SystemFunction::Add || f == SystemFunction::Sub || f == SystemFunction::Mul
            || f == SystemFunction::Div || f == SystemFunction::Mod,
        0 <= c < cv.len(),
        cv[c as int] == DataView::Num(n),
    ensures
        arith_result(cv, seq![c], f) == Ok::<i64, Error>(n),
        arith_result(cv, Seq::empty(), f) == Err::<i64, Error>(Error::ArgumentCount),
{
    assert(fold_nums(cv, seq![c], 1, n, f) == Ok::<i64, Error>(n));
}

/// List-mutation aliasing law: `push` extends the list inside its first
/// argument's cell in place (see [`sys_post`]), so the longer list is
/// visible through every name bound to that cell, not only the one the
/// call went through.
pub proof fn lemma_push_visible_through_aliases<'p>(
    args: Seq<usize>,
    pre: Interpreter<'p>,
    post: Interpreter<'p>,
    r: Result<usize, Error>,
    s: crate::interpreter::scope::VariableScope,
    y: Seq<char>,
)
    requires
        sys_post(SystemFunction::Push, args, pre, post, r),
        args.len() > 0,
        args[0] < pre.cells@.len(),
        cells_view(pre.cells@)[args[0] as int] is List,
        s.spec_lookup(y) == Some(args[0]),
    ensures
        cells_view(post.cells@)[s.spec_lookup(y)->Some_0 as int] == DataView::List(
            cells_view(pre.cells@)[args[0] as int]->List_0 + args.skip(1),
        ),
{
}

/// Copies the cell indices `v[from..to]`.
fn copy_range(v: &Vec<usize>, from: usize, to: usize) -> (r: Vec<usize>)
    requires
        from <= to <= v@.len(),
    ensures
        r@ == v@.subrange(from as int, to as int),
{
    let mut r: Vec<usize> = Vec::new();
    let mut i: usize = from;
    while i < to
        invariant
            from <= i <= to <= v@.len(),
            r@ =~= v@.subrange(from as int, i as int),
        decreases to - i,
    {
        r.push(v[i]);
        i = i + 1;
    }
    proof {
        assert(r@ =~= v@.subrange(from as int, to as int));
    }
    r
}

/// Conjunction of the argument values, stopping at the first false one.
fn eval_and(cells: &Vec<Data>, args: &Vec<usize>) -> (r: Result<bool, Error>)
    requires
        args_wf(args@, cells@.len() as nat),
    ensures
        r == and_from(cells_view(cells@), args@, 0),
{
    let ghost cv = cells_view(cells@);
    let mut j: usize = 0;
    while j < args.len()
        invariant
            0 <= j <= args@.len(),
            args_wf(args@, cells@.len() as nat),
            cv == cells_view(cells@),
            and_from(cv, args@, 0) == and_from(cv, args@, j as int),
        decreases args@.len() - j,
    {
        match &cells[args[j]] {
            Data::Bool(b) => {
                if !*b {
                    return Ok(false);
                }
            },
            _ => {
                return Err(Error::ShapeMismatch(DataKind::Bool));
            },
        }
        j = j + 1;
    }
    Ok(true)
}

/// Disjunction of the argument values, stopping at the first true one.
fn eval_or(cells: &Vec<Data>, args: &Vec<usize>) -> (r: Result<bool, Error>)
    requires
        args_wf(args@, cells@.len() as nat),
    ensures
        r == or_from(cells_view(cells@), args@, 0),
{
    let ghost cv = cells_view(cells@);
    let mut j: usize = 0;
    while j < args.len()
        invariant
            0 <= j <= args@.len(),
            args_wf(args@, cells@.len() as nat),
            cv == cells_view(cells@),
            or_from(cv, args@, 0) == or_from(cv, args@, j as int),
        decreases args@.len() - j,
    {
        match &cells[args[j]] {
            Data::Bool(b) => {
                if *b {
                    return Ok(true);
                }
            },
            _ => {
                return Err(Error::ShapeMismatch(DataKind::Bool));
            },
        }
        j = j + 1;
    }
    Ok(false)
}

/// How many argument values are true; every one must hold a boolean.
fn eval_true_count(cells: &Vec<Data>, args: &Vec<usize>) -> (r: Result<usize, Error>)
    requires
        args_wf(args@, cells@.len() as nat),
    ensures
        match true_count_from(cells_view(cells@), args@, 0) {
            Ok(c) => r is Ok && r->Ok_0 == c,
            Err(e) => r == Err::<usize, Error>(e),
        },
{
    let ghost cv = cells_view(cells@);
    let mut j: usize = 0;
    let mut count: usize = 0;
    while j < args.len()
        invariant
            0 <= j <= args@.len(),
            count <= j,
            args_wf(args@, cells@.len() as nat),
            cv == cells_view(cells@),
            match true_count_from(cv, args@, j as int) {
                Ok(c) => true_count_from(cv, args@, 0) == Ok::<int, Error>(c + count as int),
                Err(e) => true_count_from(cv, args@, 0) == Err::<int, Error>(e),
            },
        decreases args@.len() - j,
    {
        match &cells[args[j]] {
            Data::Bool(b) => {
                if *b {
                    count = count + 1;
                }
            },
            _ => {
                return Err(Error::ShapeMismatch(DataKind::Bool));
            },
        }
        j = j + 1;
    }
    Ok(count)
}

/// The left fold of an arithmetic built-in over the argument values,
/// starting from the first one.
fn eval_arith(f: SystemFunction, cells: &Vec<Data>, args: &Vec<usize>) -> (r: Result<i64, Error>)
    requires
        args_wf(args@, cells@.len() as nat),
        f == SystemFunction::Add || f == SystemFunction::Sub || f == SystemFunction::Mul
            || f == SystemFunction::Div || f == SystemFunction::Mod,
    ensures
        r == arith_result(cells_view(cells@), args@, f),
{
    let ghost cv = cells_view(cells@);
    if args.len() == 0 {
        return Err(Error::ArgumentCount);
    }
    let mut acc: i64 = match &cells[args[0]] {
        Data::Num(a) => *a,
        _ => {
            return Err(Error::ShapeMismatch(DataKind::Num));
        },
    };
    let mut j: usize = 1;
    while j < args.len()
        invariant
            1 <= j <= args@.len(),
            args_wf(args@, cells@.len() as nat),
            cv == cells_view(cells@),
            f == SystemFunction::Add || f == SystemFunction::Sub || f == SystemFunction::Mul
                || f == SystemFunction::Div || f == SystemFunction::Mod,
            arith_result(cv, args@, f) == fold_nums(cv, args@, j as int, acc, f),
        decreases args@.len() - j,
    {
        let b = match &cells[args[j]] {
            Data::Num(b) => *b,
            _ => {
                return Err(Error::ShapeMismatch(DataKind::Num));
            },
        };
        acc = match f {
            SystemFunction::Add => acc.wrapping_add(b),
            SystemFunction::Sub => acc.wrapping_sub(b),
            SystemFunction::Mul => acc.wrapping_mul(b),
            SystemFunction::Div => match acc.checked_div(b) {
                Some(v) => v,
                None => 0,
            },
            _ => match acc.checked_rem(b) {
                Some(v) => v,
                None => 0,
            },
        };
        j = j + 1;
    }
    Ok(acc)
}

impl SystemFunction {
    /// Runs this built-in on the already evaluated argument cells. The
    /// outcome and the exact state transition are given by [`sys_post`];
    /// every failure leaves the state exactly as it was.
    pub fn execute<'p>(&self, args: &Vec<usize>, it: &mut Interpreter<'p>) -> (r: Result<usize, Error>)
        requires
            old(it).wf(),
            args_wf(args@, old(it).cells@.len() as nat),
        ensures
            final(it).wf(),
            evolves(*old(it), *final(it)),
            sys_post(*self, args@, *old(it), *final(it), r),
            r is Ok ==> r->Ok_0 < final(it).cells@.len(),
    {
        let ghost pre = *it;
        match self {
            SystemFunction::Stdin => {
                let c = if it.input_at < it.input.len() {
                    let line = it.input[it.input_at].clone();
                    it.input_at = it.input_at + 1;
                    it.new_cell(Data::Str(line))
                } else {
                    it.new_cell(Data::Str(String::new()))
                };
                Ok(c)
            },
            SystemFunction::Number => {
                if args.len() == 0 {
                    return Err(Error::ArgumentCount);
                }
                let v = match &it.cells[args[0]] {
                    Data::Str(s) => match text::parse_number(s) {
                        Ok(v) => v,
                        Err(e) => {
                            return Err(e);
                        },
                    },
                    _ => {
                        return Err(Error::ShapeMismatch(DataKind::Str));
                    },
                };
                Ok(it.new_cell(Data::Num(v)))
            },
            SystemFunction::Trim => {
                if args.len() == 0 {
                    return Err(Error::ArgumentCount);
                }
                let t = match &it.cells[args[0]] {
                    Data::Str(s) => text::trim_string(s),
                    _ => {
                        return Err(Error::ShapeMismatch(DataKind::Str));
                    },
                };
                Ok(it.new_cell(Data::Str(t)))
            },
            SystemFunction::Not => {
                if args.len() == 0 {
                    return Err(Error::ArgumentCount);
                }
                let b = match &it.cells[args[0]] {
                    Data::Bool(b) => *b,
                    _ => {
                        return Err(Error::ShapeMismatch(DataKind::Bool));
                    },
                };
                Ok(it.new_cell(Data::Bool(!b)))
            },
            SystemFunction::And => {
                match eval_and(&it.cells, args) {
                    Ok(b) => Ok(it.new_cell(Data::Bool(b))),
                    Err(e) => Err(e),
                }
            },
            SystemFunction::Or => {
                match eval_or(&it.cells, args) {
                    Ok(b) => Ok(it.new_cell(Data::Bool(b))),
                    Err(e) => Err(e),
                }
            },
            SystemFunction::Xor => {
                match eval_true_count(&it.cells, args) {
                    Ok(c) => Ok(it.new_cell(Data::Bool(c == 1))),
                    Err(e) => Err(e),
                }
            },
            SystemFunction::Add
            | SystemFunction::Sub
            | SystemFunction::Mul
            | SystemFunction::Div
            | SystemFunction::Mod => {
                match eval_arith(*self, &it.cells, args) {
                    Ok(v) => Ok(it.new_cell(Data::Num(v))),
                    Err(e) => Err(e),
                }
            },
            SystemFunction::Println => {
                let mut line = String::new();
                match text::write_items(&it.cells, args, 0, it.fuel, " ", &mut line) {
                    Ok(_) => {
                        proof {
                            assert(args@.skip(0) =~= args@);
                        }
                        it.output.push(line);
                        let c = it.new_cell(Data::Unit);
                        proof {
                            assert(it.output@.subrange(0, pre.output@.len() as int)
                                =~= pre.output@);
                        }
                        Ok(c)
                    },
                    Err(e) => {
                        proof {
                            assert(args@.skip(0) =~= args@);
                        }
                        Err(e)
                    },
                }
            },
            SystemFunction::Break => Ok(it.new_cell(Data::Flow(ControlFlow::Break))),
            SystemFunction::Continue => Ok(it.new_cell(Data::Flow(ControlFlow::Continue))),
            SystemFunction::Return => {
                if args.len() == 0 {
                    return Err(Error::ArgumentCount);
                }
                Ok(it.new_cell(Data::Flow(ControlFlow::Return(args[0]))))
            },
            SystemFunction::Cmp => {
                if args.len() < 2 {
                    return Err(Error::ArgumentCount);
                }
                match text::data_eq(&it.cells, &it.cells[args[0]], &it.cells[args[1]], it.fuel) {
                    Ok(b) => Ok(it.new_cell(Data::Bool(b))),
                    Err(e) => Err(e),
                }
            },
            SystemFunction::GreaterThan
            | SystemFunction::GreaterThanOrEqual
            | SystemFunction::LessThan
            | SystemFunction::LessThanOrEqual => {
                if args.len() < 2 {
                    return Err(Error::ArgumentCount);
                }
                let a = match it.cells[args[0]].number() {
                    Ok(a) => a,
                    Err(e) => {
                        return Err(e);
                    },
                };
                let b = match it.cells[args[1]].number() {
                    Ok(b) => b,
                    Err(e) => {
                        return Err(e);
                    },
                };
                let v = match self {
                    SystemFunction::GreaterThan => a > b,
                    SystemFunction::GreaterThanOrEqual => a >= b,
                    SystemFunction::LessThan => a < b,
                    _ => a <= b,
                };
                Ok(it.new_cell(Data::Bool(v)))
            },
            SystemFunction::Push => {
                if args.len() == 0 {
                    return Err(Error::ArgumentCount);
                }
                let c0 = args[0];
                let mut l = match &it.cells[c0] {
                    Data::List(v) => copy_range(v, 0, v.len()),
                    _ => {
                        return Err(Error::ShapeMismatch(DataKind::List));
                    },
                };
                let ghost l0 = l@;
                let mut k: usize = 1;
                while k < args.len()
                    invariant
                        1 <= k <= args@.len(),
                        l@ =~= l0 + args@.subrange(1, k as int),
                    decreases args@.len() - k,
                {
                    l.push(args[k]);
                    k = k + 1;
                }
                proof {
                    assert(l@ =~= l0 + args@.skip(1));
                    assert(l0 =~= cells_view(pre.cells@)[c0 as int]->List_0);
                }
                it.set_cell(c0, Data::List(l));
                let c = it.new_cell(Data::Unit);
                Ok(c)
            },
            SystemFunction::Pop => {
                if args.len() == 0 {
                    return Err(Error::ArgumentCount);
                }
                let c0 = args[0];
                let (last, shorter) = match &it.cells[c0] {
                    Data::List(v) => {
                        if v.len() == 0 {
                            return Err(Error::OutOfBounds);
                        }
                        (v[v.len() - 1], copy_range(v, 0, v.len() - 1))
                    },
                    _ => {
                        return Err(Error::ShapeMismatch(DataKind::List));
                    },
                };
                proof {
                    let l = cells_view(pre.cells@)[c0 as int]->List_0;
                    assert(shorter@ =~= l.drop_last());
                }
                it.set_cell(c0, Data::List(shorter));
                Ok(last)
            },
            SystemFunction::Index => {
                if args.len() < 2 {
                    return Err(Error::ArgumentCount);
                }
                match &it.cells[args[0]] {
                    Data::List(v) => match &it.cells[args[1]] {
                        Data::Num(n) => {
                            if *n < 0 {
                                return Err(Error::OutOfBounds);
                            }
                            if (*n as u64) < (v.len() as u64) {
                                let ni = *n as usize;
                                proof {
                                    assert(data_wf(pre.cells@[args@[0] as int]@, pre.cells@.len() as nat));
                                    assert(v@[ni as int] < pre.cells@.len());
                                }
                                Ok(v[ni])
                            } else {
                                Err(Error::OutOfBounds)
                            }
                        },
                        _ => Err(Error::ShapeMismatch(DataKind::Num)),
                    },
                    _ => Err(Error::ShapeMismatch(DataKind::List)),
                }
            },
            SystemFunction::Length => {
                if args.len() == 0 {
                    return Err(Error::ArgumentCount);
                }
                let n = match it.cells[args[0]].list() {
                    Ok(v) => v.len(),
                    Err(e) => {
                        return Err(e);
                    },
                };
                if n as u64 > i64::MAX as u64 {
                    return Err(Error::InvalidNumber);
                }
                Ok(it.new_cell(Data::Num(n as i64)))
            },
            SystemFunction::List => {
                let l = copy_range(args, 0, args.len());
                proof {
                    assert(l@ =~= args@);
                }
                Ok(it.new_cell(Data::List(l)))
            },
        }
    }
}

} // verus!
