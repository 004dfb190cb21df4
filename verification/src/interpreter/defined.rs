//! User-defined functions: created by a `fn` invocation, stored in the
//! function registry, executed against a snapshot of the defining scope.

use vstd::prelude::*;
use vstd::string::StringExecFns;

use crate::interpreter::Argument;
use crate::interpreter::Data;
use crate::interpreter::DataKind;
use crate::interpreter::Error;
use crate::interpreter::Interpreter;
use crate::interpreter::Invocation;
use crate::interpreter::cells_view;
use crate::interpreter::data_wf;
use crate::interpreter::scope::FunctionSignature;
use crate::interpreter::scope::ReturnType;
use crate::interpreter::scope::SigView;
use crate::interpreter::scope::SignatureArgument;
use crate::interpreter::scope::VariableScope;

verus! {

/// A user-defined function. Its body borrows invocation nodes of the program
/// tree (lifetime `'p`); its captured scope is a snapshot of the defining
/// scope's bindings, copied into fresh cells at definition time, so the
/// function does not observe later assignments to outer variables.
pub struct DefinedFunction<'p> {
    pub body: Vec<&'p Invocation>,
    pub signature: FunctionSignature,
    pub scope: VariableScope,
    pub argument_names: Vec<String>,
}

impl<'p> DefinedFunction<'p> {
    /// The captured scope points into an arena of `n_cells` cells, and there
    /// is one parameter name per declared signature slot.
    pub open spec fn wf(&self, n_cells: nat) -> bool {
        &&& self.scope.wf(n_cells)
        &&& self.argument_names@.len() == self.signature.args@.len()
        &&& !self.signature.repeating
    }

    /// This function's signature.
    pub fn signature(&self) -> (r: FunctionSignature)
        ensures
            r@ == self.signature@,
    {
        self.signature.clone()
    }
}

/// The shape named by a type identifier in a `fn` definition's parameter
/// list or return position.
pub open spec fn type_kind(s: Seq<char>) -> Option<DataKind> {
    if s == "str"@ || s == "string"@ {
        Some(DataKind::Str)
    } else if s == "num"@ || s == "number"@ {
        Some(DataKind::Num)
    } else if s == "bool"@ || s == "boolean"@ {
        Some(DataKind::Bool)
    } else if s == "void"@ {
        Some(DataKind::Unit)
    } else {
        None
    }
}

/// Maps a type identifier to the shape it names.
pub fn str_to_data_kind(s: &String) -> (r: Option<DataKind>)
    ensures
        r == type_kind(s@),
{
    if *s == String::from_str("str") || *s == String::from_str("string") {
        Some(DataKind::Str)
    } else if *s == String::from_str("num") || *s == String::from_str("number") {
        Some(DataKind::Num)
    } else if *s == String::from_str("bool") || *s == String::from_str("boolean") {
        Some(DataKind::Bool)
    } else if *s == String::from_str("void") {
        Some(DataKind::Unit)
    } else {
        None
    }
}

/// What reading a `fn` invocation's arguments past the name and return type
/// yields: leading `(identifier, identifier)` pairs are typed parameters,
/// read until an argument pair that is not two identifiers is seen; every
/// remaining argument is a body statement and must be a nested call.
pub open spec fn parse_fn(args: Seq<Argument>, i: int, in_sig: bool) -> Result<(Seq<(Seq<char>, DataKind)>, Seq<Invocation>), Error>
    decreases args.len() - i,
{
    if i < 0 || i >= args.len() {
        Ok((Seq::empty(), Seq::empty()))
    } else if in_sig {
        if i + 1 < args.len() {
            match args[i + 1] {
                Argument::Ident(tname) => match args[i] {
                    Argument::Ident(pname) => match type_kind(tname@) {
                        Some(k) => match parse_fn(args, i + 2, true) {
                            Ok(rest) => Ok((seq![(pname@, k)] + rest.0, rest.1)),
                            Err(e) => Err(e),
                        },
                        None => Err(Error::MalformedFunction),
                    },
                    _ => Err(Error::ExpectedIdent),
                },
                _ => match args[i] {
                    Argument::Function(inv1) => match args[i + 1] {
                        Argument::Function(inv2) => match parse_fn(args, i + 2, false) {
                            Ok(rest) => Ok((rest.0, seq![inv1, inv2] + rest.1)),
                            Err(e) => Err(e),
                        },
                        _ => Err(Error::ExpectedInvocation),
                    },
                    _ => Err(Error::ExpectedInvocation),
                },
            }
        } else {
            match args[i] {
                Argument::Function(inv) => Ok((Seq::empty(), seq![inv])),
                _ => Err(Error::ExpectedInvocation),
            }
        }
    } else {
        match args[i] {
            Argument::Function(inv) => match parse_fn(args, i + 1, false) {
                Ok(rest) => Ok((rest.0, seq![inv] + rest.1)),
                Err(e) => Err(e),
            },
            _ => Err(Error::ExpectedInvocation),
        }
    }
}

/// Past the parameter list, reading a `fn` invocation's arguments yields
/// body statements only.
pub proof fn lemma_parse_fn_body_only(args: Seq<Argument>, i: int)
    ensures
        parse_fn(args, i, false) is Ok
            ==> parse_fn(args, i, false)->Ok_0.0 == Seq::<(Seq<char>, DataKind)>::empty(),
    decreases args.len() - i,
{
    if 0 <= i < args.len() {
        lemma_parse_fn_body_only(args, i + 1);
    }
}

/// The parameter list that a name vector and a slot vector spell.
pub open spec fn params_of(names: Seq<String>, types: Seq<SignatureArgument>) -> Seq<(Seq<char>, DataKind)> {
    Seq::new(names.len(), |k: int| (names[k]@, types[k]->Data_0))
}

/// The body statements that a vector of borrowed invocations spells.
pub open spec fn bodies_of<'p>(b: Seq<&'p Invocation>) -> Seq<Invocation> {
    Seq::new(b.len(), |k: int| *b[k])
}

/// The parts of a well-formed `fn` invocation: the function's name, its
/// declared return shape, its typed parameters and its body statements.
pub struct FnParts {
    pub name: Seq<char>,
    pub ret: DataKind,
    pub params: Seq<(Seq<char>, DataKind)>,
    pub body: Seq<Invocation>,
}

/// What reading a whole `fn` invocation's raw arguments yields: the first
/// argument names the function, the second names its return shape, and the
/// rest parse as parameters and body.
pub open spec fn spec_new(args: Seq<Argument>) -> Result<FnParts, Error> {
    if args.len() < 1 {
        Err(Error::MalformedFunction)
    } else {
        match args[0] {
            Argument::Ident(name) => if args.len() < 2 {
                Err(Error::MalformedFunction)
            } else {
                match args[1] {
                    Argument::Ident(tname) => match type_kind(tname@) {
                        Some(ret) => match parse_fn(args, 2, true) {
                            Ok(rest) => Ok(FnParts { name: name@, ret, params: rest.0, body: rest.1 }),
                            Err(e) => Err(e),
                        },
                        None => Err(Error::MalformedFunction),
                    },
                    _ => Err(Error::ExpectedIdent),
                }
            },
            _ => Err(Error::ExpectedIdent),
        }
    }
}

/// The declared signature of a definition with the given name, parameters
/// and return shape: one exact-shape slot per parameter, not repeating.
pub open spec fn defined_sig(name: Seq<char>, ret: DataKind, params: Seq<(Seq<char>, DataKind)>) -> SigView {
    SigView {
        name,
        args: Seq::new(params.len(), |i: int| SignatureArgument::Data(params[i].1)),
        repeating: false,
        return_type: ReturnType::Data(ret),
    }
}

impl<'p> DefinedFunction<'p> {
    /// Builds a user-defined function from the raw arguments of a `fn`
    /// invocation and the scope active at definition time. The captured
    /// scope is a snapshot: each binding's current value is copied into a
    /// fresh cell, so the function does not observe later assignments to
    /// outer variables.
    #[verifier::rlimit(60)]
    pub fn new(arguments: &'p Vec<Argument>, captured: &VariableScope, it: &mut Interpreter<'p>) -> (r: Result<DefinedFunction<'p>, Error>)
        requires
            old(it).wf(),
            captured.wf(old(it).cells@.len() as nat),
        ensures
            final(it).wf(),
            final(it).funcs.scope@ == old(it).funcs.scope@,
            final(it).input@ == old(it).input@,
            final(it).input_at == old(it).input_at,
            final(it).output@ == old(it).output@,
            final(it).fuel == old(it).fuel,
            match spec_new(arguments@) {
                Err(e) => r == Err::<DefinedFunction<'p>, Error>(e) && *final(it) == *old(it),
                Ok(parts) => {
                    &&& r is Ok
                    &&& {
                        let d = r->Ok_0;
                        &&& d.signature@ == defined_sig(parts.name, parts.ret, parts.params)
                        &&& d.argument_names@.len() == parts.params.len()
                        &&& forall|k: int| 0 <= k < parts.params.len()
                            ==> (#[trigger] d.argument_names@[k])@ == parts.params[k].0
                        &&& d.body@.len() == parts.body.len()
                        &&& forall|k: int| 0 <= k < parts.body.len()
                            ==> *(#[trigger] d.body@[k]) == parts.body[k]
                        &&& d.scope@.len() == captured@.len()
                        &&& forall|j: int| 0 <= j < captured@.len()
                            ==> (#[trigger] d.scope@[j]).0 == captured@[j].0
                                && d.scope@[j].1 == old(it).cells@.len() + j
                        &&& d.wf(final(it).cells@.len() as nat)
                    }
                    &&& final(it).cells@.len() == old(it).cells@.len() + captured@.len()
                    &&& cells_view(final(it).cells@) == cells_view(old(it).cells@)
                        + Seq::new(captured@.len(), |j: int| cells_view(old(it).cells@)[captured@[j].1 as int])
                },
            },
    {
        let ghost pre = *it;
        if arguments.len() < 1 {
            return Err(Error::MalformedFunction);
        }
        let name = match &arguments[0] {
            Argument::Ident(n) => n.clone(),
            _ => {
                return Err(Error::ExpectedIdent);
            },
        };
        if arguments.len() < 2 {
            return Err(Error::MalformedFunction);
        }
        let ret = match &arguments[1] {
            Argument::Ident(t) => match str_to_data_kind(t) {
                Some(k) => k,
                None => {
                    return Err(Error::MalformedFunction);
                },
            },
            _ => {
                return Err(Error::ExpectedIdent);
            },
        };
        let mut argument_names: Vec<String> = Vec::new();
        let mut argument_types: Vec<SignatureArgument> = Vec::new();
        let mut body: Vec<&'p Invocation> = Vec::new();
        let mut in_sig: bool = true;
        let mut i: usize = 2;
        let ghost whole = parse_fn(arguments@, 2, true);
        let ghost name_v = name@;
        proof {
            if whole is Ok {
                assert(params_of(argument_names@, argument_types@) + whole->Ok_0.0
                    =~= whole->Ok_0.0);
                assert(bodies_of(body@) + whole->Ok_0.1 =~= whole->Ok_0.1);
            }
        }
        while i < arguments.len()
            invariant
                2 <= i <= arguments@.len(),
                *it == *old(it),
                old(it).wf(),
                whole == parse_fn(arguments@, 2, true),
                spec_new(arguments@) == (match whole {
                    Ok(rest) => Ok::<FnParts, Error>(FnParts {
                        name: name_v,
                        ret,
                        params: rest.0,
                        body: rest.1,
                    }),
                    Err(e) => Err::<FnParts, Error>(e),
                }),
                argument_names@.len() == argument_types@.len(),
                forall|k: int| 0 <= k < argument_types@.len()
                    ==> (#[trigger] argument_types@[k]) is Data,
                match parse_fn(arguments@, i as int, in_sig) {
                    Ok(rest) => {
                        &&& whole is Ok
                        &&& whole->Ok_0.0 == params_of(argument_names@, argument_types@) + rest.0
                        &&& whole->Ok_0.1 == bodies_of(body@) + rest.1
                        &&& !in_sig ==> rest.0.len() == 0
                    },
                    Err(e) => whole == Err::<(Seq<(Seq<char>, DataKind)>, Seq<Invocation>), Error>(e),
                },
            decreases arguments@.len() - i,
        {
            if in_sig {
                if i + 1 < arguments.len() {
                    let second_ident = match &arguments[i + 1] {
                        Argument::Ident(_) => true,
                        _ => false,
                    };
                    if second_ident {
                        let pname = match &arguments[i] {
                            Argument::Ident(p) => p.clone(),
                            _ => {
                                return Err(Error::ExpectedIdent);
                            },
                        };
                        let tname = match &arguments[i + 1] {
                            Argument::Ident(t) => t,
                            _ => {
                                return Err(Error::ExpectedIdent);
                            },
                        };
                        match str_to_data_kind(tname) {
                            Some(k) => {
                                let ghost old_names = argument_names@;
                                let ghost old_types = argument_types@;
                                let ghost pname_v = pname@;
                                argument_names.push(pname);
                                argument_types.push(SignatureArgument::Data(k));
                                proof {
                                    let rest = parse_fn(arguments@, i as int, true);
                                    let rest2 = parse_fn(arguments@, i + 2, true);
                                    if rest2 is Ok {
                                        assert(rest == Ok::<_, Error>((
                                            seq![(pname_v, k)] + rest2->Ok_0.0,
                                            rest2->Ok_0.1,
                                        )));
                                        assert(params_of(argument_names@, argument_types@)
                                            =~= params_of(old_names, old_types).push((pname_v, k)));
                                        assert(params_of(old_names, old_types)
                                            + (seq![(pname_v, k)] + rest2->Ok_0.0)
                                            =~= params_of(old_names, old_types).push((pname_v, k))
                                                + rest2->Ok_0.0);
                                    }
                                }
                                i = i + 2;
                            },
                            None => {
                                return Err(Error::MalformedFunction);
                            },
                        }
                    } else {
                        let inv1 = match &arguments[i] {
                            Argument::Function(inv) => inv,
                            _ => {
                                return Err(Error::ExpectedInvocation);
                            },
                        };
                        let inv2 = match &arguments[i + 1] {
                            Argument::Function(inv) => inv,
                            _ => {
                                return Err(Error::ExpectedInvocation);
                            },
                        };
                        let ghost old_body = body@;
                        body.push(inv1);
                        body.push(inv2);
                        proof {
                            let rest = parse_fn(arguments@, i as int, true);
                            let rest2 = parse_fn(arguments@, i + 2, false);
                            lemma_parse_fn_body_only(arguments@, i + 2);
                            if rest2 is Ok {
                                assert(rest == Ok::<_, Error>((
                                    rest2->Ok_0.0,
                                    seq![*inv1, *inv2] + rest2->Ok_0.1,
                                )));
                                assert(bodies_of(body@)
                                    =~= bodies_of(old_body).push(*inv1).push(*inv2));
                                assert(bodies_of(old_body) + (seq![*inv1, *inv2] + rest2->Ok_0.1)
                                    =~= bodies_of(old_body).push(*inv1).push(*inv2)
                                        + rest2->Ok_0.1);
                            }
                        }
                        in_sig = false;
                        i = i + 2;
                    }
                } else {
                    let inv = match &arguments[i] {
                        Argument::Function(inv) => inv,
                        _ => {
                            return Err(Error::ExpectedInvocation);
                        },
                    };
                    let ghost old_body = body@;
                    body.push(inv);
                    proof {
                        let rest = parse_fn(arguments@, i as int, true);
                        assert(rest == Ok::<_, Error>((
                            Seq::<(Seq<char>, DataKind)>::empty(),
                            seq![*inv],
                        )));
                        assert(bodies_of(body@) =~= bodies_of(old_body).push(*inv));
                        assert(bodies_of(old_body) + seq![*inv]
                            =~= bodies_of(old_body).push(*inv));
                        assert(bodies_of(body@) + Seq::<Invocation>::empty()
                            =~= bodies_of(body@));
                    }
                    i = i + 1;
                }
            } else {
                let inv = match &arguments[i] {
                    Argument::Function(inv) => inv,
                    _ => {
                        return Err(Error::ExpectedInvocation);
                    },
                };
                let ghost old_body = body@;
                body.push(inv);
                proof {
                    let rest = parse_fn(arguments@, i as int, false);
                    let rest2 = parse_fn(arguments@, i + 1, false);
                    lemma_parse_fn_body_only(arguments@, i + 1);
                    if rest2 is Ok {
                        assert(rest == Ok::<_, Error>((
                            rest2->Ok_0.0,
                            seq![*inv] + rest2->Ok_0.1,
                        )));
                        assert(bodies_of(body@) =~= bodies_of(old_body).push(*inv));
                        assert(bodies_of(old_body) + (seq![*inv] + rest2->Ok_0.1)
                            =~= bodies_of(old_body).push(*inv) + rest2->Ok_0.1);
                    }
                }
                i = i + 1;
            }
        }
        proof {
            if whole is Ok {
                assert(whole->Ok_0.0 =~= params_of(argument_names@, argument_types@));
                assert(whole->Ok_0.1 =~= bodies_of(body@));
            }
        }
        let ghost parts = spec_new(arguments@);
        // Snapshot the defining scope: copy each binding's current value
        // into a fresh cell.
        let mut snapshot: Vec<crate::interpreter::scope::ScopeEntry> = Vec::new();
        let mut j: usize = 0;
        while j < captured.entries.len()
            invariant
                0 <= j <= captured.entries@.len(),
                captured.wf(pre.cells@.len() as nat),
                it.wf(),
                it.funcs.scope@ == pre.funcs.scope@,
                it.input@ == pre.input@,
                it.input_at == pre.input_at,
                it.output@ == pre.output@,
                it.fuel == pre.fuel,
                it.cells@.len() == pre.cells@.len() + j,
                cells_view(it.cells@) == cells_view(pre.cells@)
                    + Seq::new(j as nat, |k: int| cells_view(pre.cells@)[captured@[k].1 as int]),
                snapshot@.len() == j,
                forall|k: int| 0 <= k < j ==> (#[trigger] snapshot@[k]).name@ == captured@[k].0
                    && snapshot@[k].cell == pre.cells@.len() + k,
            decreases captured.entries@.len() - j,
        {
            let src = captured.entries[j].cell;
            proof {
                assert(captured@[j as int].1 == src);
                assert(src < pre.cells@.len());
                assert(data_wf(it.cells@[src as int]@, it.cells@.len() as nat));
            }
            let val = it.cells[src].clone();
            let ghost before = *it;
            let c = it.new_cell(val);
            snapshot.push(crate::interpreter::scope::ScopeEntry {
                name: captured.entries[j].name.clone(),
                cell: c,
            });
            proof {
                assert(cells_view(before.cells@)[src as int] == cells_view(pre.cells@)[src as int]);
                assert(cells_view(it.cells@) =~= cells_view(pre.cells@)
                    + Seq::new((j + 1) as nat, |k: int| cells_view(pre.cells@)[captured@[k].1 as int]));
            }
            j = j + 1;
        }
        let signature = FunctionSignature {
            name,
            args: argument_types,
            repeating: false,
            return_type: ReturnType::Data(ret),
        };
        let d = DefinedFunction {
            body,
            signature,
            scope: VariableScope { entries: snapshot },
            argument_names,
        };
        proof {
            assert(d.signature@.args =~= defined_sig(parts->Ok_0.name, parts->Ok_0.ret, parts->Ok_0.params).args);
            assert(d.signature@ == defined_sig(parts->Ok_0.name, parts->Ok_0.ret, parts->Ok_0.params));
        }
        Ok(d)
    }
}

impl<'p> DefinedFunction<'p> {
    /// Runs this function on already evaluated argument cells: binds each
    /// parameter name to its argument's cell in a fresh copy of the captured
    /// scope, then runs the body statements in order. The first statement
    /// whose result is a `return` signal ends the run, and its carried cell
    /// — the very cell, not a copy — is the result; remaining statements are
    /// never run. A body that finishes without a `return` yields a fresh
    /// unit cell.
    pub fn execute(&self, args: &Vec<usize>, it: &mut Interpreter<'p>) -> (r: Result<usize, Error>)
        requires
            old(it).wf(),
            crate::interpreter::args_wf(args@, old(it).cells@.len() as nat),
            self.wf(old(it).cells@.len() as nat),
        ensures
            final(it).wf(),
            crate::interpreter::evolves(*old(it), *final(it)),
            r is Ok ==> r->Ok_0 < final(it).cells@.len(),
            crate::interpreter::semantics::defined_exec(
                crate::interpreter::semantics::state_view(*old(it)),
                crate::interpreter::scope::defined_view(*self),
                args@,
            ) == Some((crate::interpreter::semantics::state_view(*final(it)), r)),
        decreases it.fuel, 3int,
    {
        let ghost pre = *it;
        let ghost st0 = crate::interpreter::semantics::state_view(*it);
        let ghost dv = crate::interpreter::scope::defined_view(*self);
        proof {
            crate::interpreter::lemma_evolves_refl(*it);
        }
        if args.len() < self.argument_names.len() {
            return Err(Error::ArgumentCount);
        }
        // Load the arguments into a copy of the captured scope.
        let mut scope = self.scope.duplicate();
        let mut i: usize = 0;
        while i < self.argument_names.len()
            invariant
                0 <= i <= self.argument_names@.len(),
                self.argument_names@.len() <= args@.len(),
                dv == crate::interpreter::scope::defined_view(*self),
                crate::interpreter::args_wf(args@, pre.cells@.len() as nat),
                scope.wf(pre.cells@.len() as nat),
                scope@ =~= self.scope@ + Seq::new(
                    i as nat,
                    |j: int| (dv.argument_names[j], args@[j]),
                ),
            decreases self.argument_names@.len() - i,
        {
            scope.insert(self.argument_names[i].clone(), args[i]);
            proof {
                assert(scope@ =~= self.scope@ + Seq::new(
                    (i + 1) as nat,
                    |j: int| (dv.argument_names[j], args@[j]),
                ));
            }
            i = i + 1;
        }
        let ghost sc_full = dv.scope + Seq::new(
            dv.argument_names.len(),
            |j: int| (dv.argument_names[j], args@[j]),
        );
        proof {
            assert(scope@ =~= sc_full);
        }
        // Run the body, stopping at the first `return` signal.
        let mut k: usize = 0;
        while k < self.body.len()
            invariant
                0 <= k <= self.body@.len(),
                pre == *old(it),
                st0 == crate::interpreter::semantics::state_view(*old(it)),
                dv == crate::interpreter::scope::defined_view(*self),
                dv.argument_names.len() <= args@.len(),
                sc_full == dv.scope + Seq::new(
                    dv.argument_names.len(),
                    |j: int| (dv.argument_names[j], args@[j]),
                ),
                it.wf(),
                crate::interpreter::evolves(pre, *it),
                scope.wf(it.cells@.len() as nat),
                crate::interpreter::semantics::defined_body(st0, sc_full, dv.body, 0)
                    == crate::interpreter::semantics::defined_body(
                        crate::interpreter::semantics::state_view(*it),
                        scope@,
                        dv.body,
                        k as int,
                    ),
            decreases self.body@.len() - k,
        {
            let stmt: &'p Invocation = self.body[k];
            proof {
                assert(dv.body[k as int] == *stmt);
            }
            let ghost prev = crate::interpreter::semantics::state_view(*it);
            let ghost mid = *it;
            match stmt.evaluate(it, &mut scope) {
                Ok(c) => {
                    proof {
                        crate::interpreter::lemma_evolves_trans(pre, mid, *it);
                        assert(crate::interpreter::semantics::state_view(*it).fuel <= prev.fuel);
                    }
                    match &it.cells[c] {
                        Data::Flow(crate::interpreter::ControlFlow::Return(rc)) => {
                            proof {
                                assert(crate::interpreter::data_wf(
                                    it.cells@[c as int]@,
                                    it.cells@.len() as nat,
                                ));
                            }
                            return Ok(*rc);
                        },
                        _ => {},
                    }
                },
                Err(e) => {
                    proof {
                        crate::interpreter::lemma_evolves_trans(pre, mid, *it);
                    }
                    return Err(e);
                },
            }
            k = k + 1;
        }
        let ghost done_state = crate::interpreter::semantics::state_view(*it);
        let u = it.new_cell(Data::Unit);
        proof {
            assert(crate::interpreter::semantics::state_view(*it)
                =~= done_state.push_cell(crate::interpreter::DataView::Unit));
        }
        Ok(u)
    }
}

impl<'p> Clone for DefinedFunction<'p> {
    /// A definition with the same body, signature, captured bindings and
    /// parameter names.
    fn clone(&self) -> (r: Self)
        ensures
            r.body@ =~= self.body@,
            r.signature@ == self.signature@,
            r.scope@ =~= self.scope@,
            r.argument_names@.len() == self.argument_names@.len(),
            forall|i: int| 0 <= i < self.argument_names@.len()
                ==> (#[trigger] r.argument_names@[i])@ == self.argument_names@[i]@,
    {
        let mut body: Vec<&'p Invocation> = Vec::new();
        let mut i: usize = 0;
        while i < self.body.len()
            invariant
                i <= self.body.len(),
                body@ =~= self.body@.subrange(0, i as int),
            decreases self.body.len() - i,
        {
            body.push(self.body[i]);
            i = i + 1;
        }
        proof {
            assert(body@ =~= self.body@);
        }
        let mut argument_names: Vec<String> = Vec::new();
        let mut j: usize = 0;
        while j < self.argument_names.len()
            invariant
                j <= self.argument_names.len(),
                argument_names@.len() == j,
                forall|k: int| 0 <= k < j
                    ==> (#[trigger] argument_names@[k])@ == self.argument_names@[k]@,
            decreases self.argument_names.len() - j,
        {
            argument_names.push(self.argument_names[j].clone());
            j = j + 1;
        }
        DefinedFunction {
            body,
            signature: self.signature.clone(),
            scope: self.scope.duplicate(),
            argument_names,
        }
    }
}

} // verus!
