//! Signatures, the variable scope and the function registry, and the
//! overload resolution that picks a registered definition for a call.

use vstd::prelude::*;
use vstd::string::StringExecFns;

use crate::interpreter::Argument;
use crate::interpreter::Data;
use crate::interpreter::DataKind;
use crate::interpreter::DataView;
use crate::interpreter::Error;
use crate::interpreter::FunctionSource;
use crate::interpreter::Invocation;
use crate::interpreter::cells_view;

verus! {

/// The per-position acceptance rule of a signature slot.
#[derive(Clone, Copy, PartialEq, Eq, Structural, Debug)]
pub enum SignatureArgument {
    /// Accept any argument and pass it through unevaluated.
    Raw,
    /// Accept any argument and evaluate it.
    Any,
    /// Accept only arguments whose resolved runtime shape equals the tag.
    Data(DataKind),
}

/// The declared result shape of a callable, consulted by overload resolution
/// to predict a nested call's shape without executing it.
#[derive(Clone, Copy, PartialEq, Eq, Structural, Debug)]
pub enum ReturnType {
    Data(DataKind),
    Any,
}

/// The signature of a callable: its name, the per-position acceptance rules,
/// whether the last declared slot is reused for all overflow positions, and
/// the declared result shape.
pub struct FunctionSignature {
    pub name: String,
    pub args: Vec<SignatureArgument>,
    pub repeating: bool,
    pub return_type: ReturnType,
}

/// The mathematical model of a [`FunctionSignature`].
#[verifier::ext_equal]
pub struct SigView {
    pub name: Seq<char>,
    pub args: Seq<SignatureArgument>,
    pub repeating: bool,
    pub return_type: ReturnType,
}

impl View for FunctionSignature {
    type V = SigView;

    open spec fn view(&self) -> SigView {
        SigView {
            name: self.name@,
            args: self.args@,
            repeating: self.repeating,
            return_type: self.return_type,
        }
    }
}

impl Clone for FunctionSignature {
    /// A signature with the same model.
    fn clone(&self) -> (r: Self)
        ensures
            r@ == self@,
    {
        let mut args: Vec<SignatureArgument> = Vec::new();
        let mut i: usize = 0;
        while i < self.args.len()
            invariant
                i <= self.args.len(),
                args@ =~= self.args@.subrange(0, i as int),
            decreases self.args.len() - i,
        {
            args.push(self.args[i]);
            i = i + 1;
        }
        proof {
            assert(args@ =~= self.args@);
        }
        FunctionSignature {
            name: self.name.clone(),
            args,
            repeating: self.repeating,
            return_type: self.return_type,
        }
    }
}

/// Builds a signature from its parts.
pub fn signature(name: &str, args: Vec<SignatureArgument>, repeating: bool, return_type: ReturnType) -> (r: FunctionSignature)
    ensures
        r@ == (SigView { name: name@, args: args@, repeating, return_type }),
{
    FunctionSignature { name: String::from_str(name), args, repeating, return_type }
}

/// One variable binding: an identifier and the cell it refers to.
pub struct ScopeEntry {
    pub name: String,
    pub cell: usize,
}

/// A variable scope: an ordered sequence of identifier-to-cell bindings,
/// where the binding added last shadows earlier bindings of the same name.
///
/// A child scope used for a block body is a copy of the parent's bindings:
/// the cells are shared, so assignment inside the block is visible outside,
/// while bindings introduced inside the block vanish with the copy.
pub struct VariableScope {
    pub entries: Vec<ScopeEntry>,
}

impl View for VariableScope {
    type V = Seq<(Seq<char>, usize)>;

    open spec fn view(&self) -> Seq<(Seq<char>, usize)> {
        Seq::new(self.entries@.len(), |i: int| (self.entries@[i].name@, self.entries@[i].cell))
    }
}

/// The cell that a name refers to: the binding added last wins.
pub open spec fn lookup_view(s: Seq<(Seq<char>, usize)>, name: Seq<char>) -> Option<usize>
    decreases s.len(),
{
    if s.len() == 0 {
        None
    } else if s.last().0 == name {
        Some(s.last().1)
    } else {
        lookup_view(s.drop_last(), name)
    }
}

impl VariableScope {
    /// A scope with no bindings.
    pub fn new() -> (r: Self)
        ensures
            r@ =~= Seq::<(Seq<char>, usize)>::empty(),
    {
        VariableScope { entries: Vec::new() }
    }

    /// Every binding refers to a cell of an arena of `n_cells` cells.
    pub open spec fn wf(&self, n_cells: nat) -> bool {
        forall|i: int| 0 <= i < self@.len() ==> (#[trigger] self@[i]).1 < n_cells
    }

    /// The cell bound to `name`, if any.
    pub open spec fn spec_lookup(&self, name: Seq<char>) -> Option<usize> {
        lookup_view(self@, name)
    }

    /// Looks up the cell bound to `name`.
    pub fn get(&self, name: &String) -> (r: Option<usize>)
        ensures
            r == self.spec_lookup(name@),
    {
        let mut i: usize = self.entries.len();
        proof {
            assert(self@.subrange(0, i as int) =~= self@);
        }
        while i > 0
            invariant
                i <= self.entries.len(),
                lookup_view(self@.subrange(0, i as int), name@) == self.spec_lookup(name@),
            decreases i,
        {
            i = i - 1;
            if self.entries[i].name == *name {
                proof {
                    assert(self@.subrange(0, i + 1 as int).last() == (self.entries@[i as int].name@, self.entries@[i as int].cell));
                }
                return Some(self.entries[i].cell);
            }
            proof {
                assert(self@.subrange(0, i + 1 as int).drop_last() =~= self@.subrange(0, i as int));
            }
        }
        proof {
            assert(self@.subrange(0, 0) =~= Seq::<(Seq<char>, usize)>::empty());
        }
        None
    }

    /// Binds `name` to `cell` in this scope, shadowing any earlier binding of
    /// the same name.
    pub fn insert(&mut self, name: String, cell: usize)
        ensures
            final(self)@ =~= old(self)@.push((name@, cell)),
    {
        let ghost before = self@;
        self.entries.push(ScopeEntry { name, cell });
    }

    /// A copy of this scope: the same names bound to the same cells.
    pub fn duplicate(&self) -> (r: Self)
        ensures
            r@ =~= self@,
    {
        let mut entries: Vec<ScopeEntry> = Vec::new();
        let mut i: usize = 0;
        while i < self.entries.len()
            invariant
                i <= self.entries.len(),
                entries@.len() == i,
                forall|j: int| 0 <= j < i ==> (#[trigger] entries@[j]).name@ == self.entries@[j].name@
                    && entries@[j].cell == self.entries@[j].cell,
            decreases self.entries.len() - i,
        {
            entries.push(ScopeEntry { name: self.entries[i].name.clone(), cell: self.entries[i].cell });
            i = i + 1;
        }
        VariableScope { entries }
    }
}

/// The model of a user-defined registry entry: its signature, parameter
/// names, body statements and captured bindings, all at the mathematical
/// level.
pub struct DefinedView {
    pub signature: SigView,
    pub argument_names: Seq<Seq<char>>,
    pub body: Seq<Invocation>,
    pub scope: Seq<(Seq<char>, usize)>,
}

/// The model of one registry entry.
pub enum RegEntry {
    System(crate::interpreter::system::SystemFunction),
    Context(crate::interpreter::context::ContextFunction),
    Defined(DefinedView),
}

/// The character sequences a vector of names spells.
pub open spec fn names_views(names: Seq<String>) -> Seq<Seq<char>> {
    Seq::new(names.len(), |i: int| names[i]@)
}

/// The model of a user-defined function.
pub open spec fn defined_view<'p>(d: crate::interpreter::defined::DefinedFunction<'p>) -> DefinedView {
    DefinedView {
        signature: d.signature@,
        argument_names: names_views(d.argument_names@),
        body: crate::interpreter::defined::bodies_of(d.body@),
        scope: d.scope@,
    }
}

/// The model of a registry entry, by its source.
pub open spec fn source_view<'p>(s: FunctionSource<'p>) -> RegEntry {
    match s {
        FunctionSource::System(f) => RegEntry::System(f),
        FunctionSource::Context(f) => RegEntry::Context(f),
        FunctionSource::Defined(d) => RegEntry::Defined(defined_view(d)),
    }
}

/// The model of a whole registry, entry by entry.
pub open spec fn funcs_view<'p>(s: Seq<FunctionSource<'p>>) -> Seq<RegEntry> {
    Seq::new(s.len(), |i: int| source_view(s[i]))
}

/// The signature a registry entry declares.
pub open spec fn entry_sig(e: RegEntry) -> SigView {
    match e {
        RegEntry::System(f) => crate::interpreter::system::system_sig_view(f),
        RegEntry::Context(f) => crate::interpreter::context::context_sig_view(f),
        RegEntry::Defined(dv) => dv.signature,
    }
}

/// The model of a registered definition's signature, by its source.
pub open spec fn sig_view_of<'p>(src: FunctionSource<'p>) -> SigView {
    entry_sig(source_view(src))
}

/// The declared slot that checks call position `j`: for a repeating
/// signature the last declared slot is reused for every overflow position.
pub open spec fn slot_for(sv: SigView, j: int) -> SignatureArgument {
    if sv.repeating {
        sv.args[if j < sv.args.len() - 1 { j } else { sv.args.len() - 1 }]
    } else {
        sv.args[j]
    }
}

/// The shape a raw argument resolves to for matching purposes: the shape of
/// a literal, the shape of the value an identifier is currently bound to, or
/// the declared return shape of the definition a nested call resolves to.
/// Resolution fails where the identifier is unbound or the nested call has
/// no matching definition.
pub open spec fn spec_return_type(
    reg: Seq<RegEntry>,
    cells: Seq<DataView>,
    scope: Seq<(Seq<char>, usize)>,
    arg: Argument,
) -> Result<ReturnType, Error>
    decreases arg, 0int, 0int,
{
    match arg {
        Argument::Data(d) => Ok(ReturnType::Data(d@.kind())),
        Argument::Ident(id) => match lookup_view(scope, id@) {
            Some(c) => Ok(ReturnType::Data(cells[c as int].kind())),
            None => Err(Error::VariableNotFound(id)),
        },
        Argument::Function(inv) => match spec_get(reg, cells, scope, inv.name@, inv.args@) {
            Ok(Some(i)) => Ok(entry_sig(reg[i]).return_type),
            Ok(None) => Err(Error::FunctionNotFound(inv.name)),
            Err(e) => Err(e),
        },
    }
}

/// Whether the slots of `sv` accept the call arguments from position `j` on.
pub open spec fn spec_accepts_from(
    reg: Seq<RegEntry>,
    cells: Seq<DataView>,
    scope: Seq<(Seq<char>, usize)>,
    sv: SigView,
    args: Seq<Argument>,
    j: int,
) -> Result<bool, Error>
    decreases args, 1int, args.len() - j,
{
    if j < 0 || j >= args.len() {
        Ok(true)
    } else {
        match slot_for(sv, j) {
            SignatureArgument::Raw => spec_accepts_from(reg, cells, scope, sv, args, j + 1),
            SignatureArgument::Any => spec_accepts_from(reg, cells, scope, sv, args, j + 1),
            SignatureArgument::Data(k) => match spec_return_type(reg, cells, scope, args[j]) {
                Ok(ReturnType::Any) => spec_accepts_from(reg, cells, scope, sv, args, j + 1),
                Ok(ReturnType::Data(k2)) => if k2 == k {
                    spec_accepts_from(reg, cells, scope, sv, args, j + 1)
                } else {
                    Ok(false)
                },
                Err(e) => Err(e),
            },
        }
    }
}

/// Whether a signature accepts a call's arguments: a non-repeating
/// signature must be given exactly as many arguments as it declares; a
/// repeating one (which declares at least one slot) checks position `j`
/// against declared slot `min(j, declared - 1)`.
pub open spec fn spec_sig_accepts(
    reg: Seq<RegEntry>,
    cells: Seq<DataView>,
    scope: Seq<(Seq<char>, usize)>,
    sv: SigView,
    args: Seq<Argument>,
) -> Result<bool, Error>
    decreases args, 2int, 0int,
{
    if sv.repeating {
        if sv.args.len() == 0 {
            Ok(false)
        } else {
            spec_accepts_from(reg, cells, scope, sv, args, 0)
        }
    } else {
        if args.len() != sv.args.len() {
            Ok(false)
        } else {
            spec_accepts_from(reg, cells, scope, sv, args, 0)
        }
    }
}

/// The first registry entry at position `i` or later whose signature has the
/// call's name and accepts its arguments.
pub open spec fn spec_get_from(
    reg: Seq<RegEntry>,
    cells: Seq<DataView>,
    scope: Seq<(Seq<char>, usize)>,
    name: Seq<char>,
    args: Seq<Argument>,
    i: int,
) -> Result<Option<int>, Error>
    decreases args, 3int, reg.len() - i,
{
    if i < 0 || i >= reg.len() {
        Ok(None)
    } else if entry_sig(reg[i]).name == name {
        match spec_sig_accepts(reg, cells, scope, entry_sig(reg[i]), args) {
            Ok(true) => Ok(Some(i)),
            Ok(false) => spec_get_from(reg, cells, scope, name, args, i + 1),
            Err(e) => Err(e),
        }
    } else {
        spec_get_from(reg, cells, scope, name, args, i + 1)
    }
}

/// Overload resolution: the first registered definition, in registry order,
/// whose signature has the call's name and accepts its arguments; `Ok(None)`
/// where no definition matches; an error where resolving an argument's shape
/// fails. No ambiguity is detected: later matches are simply never reached.
pub open spec fn spec_get(
    reg: Seq<RegEntry>,
    cells: Seq<DataView>,
    scope: Seq<(Seq<char>, usize)>,
    name: Seq<char>,
    args: Seq<Argument>,
) -> Result<Option<int>, Error>
    decreases args, 4int, 0int,
{
    spec_get_from(reg, cells, scope, name, args, 0)
}

/// Shadowing law: a new binding wins every lookup of its own name and
/// changes no lookup of any other name.
pub proof fn lemma_lookup_after_insert(s: Seq<(Seq<char>, usize)>, name: Seq<char>, cell: usize, other: Seq<char>)
    ensures
        lookup_view(s.push((name, cell)), name) == Some(cell),
        other != name ==> lookup_view(s.push((name, cell)), other) == lookup_view(s, other),
{
    assert(s.push((name, cell)).drop_last() =~= s);
}

/// A successful scope lookup yields a cell inside the arena.
pub proof fn lemma_lookup_wf(s: Seq<(Seq<char>, usize)>, name: Seq<char>, n: nat)
    requires
        forall|i: int| 0 <= i < s.len() ==> (#[trigger] s[i]).1 < n,
        lookup_view(s, name) is Some,
    ensures
        lookup_view(s, name)->Some_0 < n,
    decreases s.len(),
{
    if s.len() > 0 && s.last().0 != name {
        lemma_lookup_wf(s.drop_last(), name, n);
    }
}

/// The function registry: the ordered sequence of every callable definition,
/// seeded with the built-ins and extended (never shrunk) at runtime by `fn`
/// invocations. Name and signature collisions are resolved by first-match
/// order.
pub struct FunctionScope<'p> {
    pub scope: Vec<FunctionSource<'p>>,
}

/// Checks a candidate signature against a call's arguments.
fn sig_accepts<'p>(
    function_scope: &FunctionScope<'p>,
    sig: &FunctionSignature,
    args: &Vec<Argument>,
    cells: &Vec<Data>,
    variable_scope: &VariableScope,
) -> (r: Result<bool, Error>)
    requires
        variable_scope.wf(cells@.len() as nat),
    ensures
        r == spec_sig_accepts(
            funcs_view(function_scope.scope@),
            cells_view(cells@),
            variable_scope@,
            sig@,
            args@,
        ),
    decreases args, 2int, 0int,
{
    let ghost reg = funcs_view(function_scope.scope@);
    let ghost cv = cells_view(cells@);
    let ghost sc = variable_scope@;
    if sig.repeating {
        if sig.args.len() == 0 {
            return Ok(false);
        }
    } else {
        if args.len() != sig.args.len() {
            return Ok(false);
        }
    }
    let mut j: usize = 0;
    while j < args.len()
        invariant
            j <= args.len(),
            variable_scope.wf(cells@.len() as nat),
            sig@.repeating ==> sig@.args.len() > 0,
            !sig@.repeating ==> args@.len() == sig@.args.len(),
            spec_accepts_from(reg, cv, sc, sig@, args@, 0)
                == spec_accepts_from(reg, cv, sc, sig@, args@, j as int),
            reg == funcs_view(function_scope.scope@),
            cv == cells_view(cells@),
            sc == variable_scope@,
        decreases args@.len() - j,
    {
        let slot = if sig.repeating {
            if j < sig.args.len() - 1 {
                sig.args[j]
            } else {
                sig.args[sig.args.len() - 1]
            }
        } else {
            sig.args[j]
        };
        proof {
            assert(slot == slot_for(sig@, j as int));
        }
        match slot {
            SignatureArgument::Raw => {},
            SignatureArgument::Any => {},
            SignatureArgument::Data(k) => {
                match args[j].return_type(function_scope, cells, variable_scope) {
                    Ok(ReturnType::Any) => {},
                    Ok(ReturnType::Data(k2)) => {
                        if k2 != k {
                            return Ok(false);
                        }
                    },
                    Err(e) => {
                        return Err(e);
                    },
                }
            },
        }
        j = j + 1;
    }
    Ok(true)
}

/// Scanning from position `k`, resolution finds `i`: the first entry at or
/// past `k` whose signature carries the name and accepts the arguments.
proof fn lemma_get_from_finds(
    reg: Seq<RegEntry>,
    cells: Seq<DataView>,
    scope: Seq<(Seq<char>, usize)>,
    name: Seq<char>,
    args: Seq<Argument>,
    i: int,
    k: int,
)
    requires
        0 <= k <= i < reg.len(),
        entry_sig(reg[i]).name == name,
        spec_sig_accepts(reg, cells, scope, entry_sig(reg[i]), args) == Ok::<bool, Error>(true),
        forall|j: int| k <= j < i && entry_sig(#[trigger] reg[j]).name == name
            ==> spec_sig_accepts(reg, cells, scope, entry_sig(reg[j]), args)
                == Ok::<bool, Error>(false),
    ensures
        spec_get_from(reg, cells, scope, name, args, k) == Ok::<Option<int>, Error>(Some(i)),
    decreases i - k,
{
    if k < i {
        lemma_get_from_finds(reg, cells, scope, name, args, i, k + 1);
    }
}

/// Overload resolution law, positive half: a call whose name and argument
/// shapes match a registered signature resolves to that definition — the
/// first such, in registration order, when every earlier definition of the
/// same name rejects the arguments.
pub proof fn lemma_overload_resolution(
    reg: Seq<RegEntry>,
    cells: Seq<DataView>,
    scope: Seq<(Seq<char>, usize)>,
    name: Seq<char>,
    args: Seq<Argument>,
    i: int,
)
    requires
        0 <= i < reg.len(),
        entry_sig(reg[i]).name == name,
        spec_sig_accepts(reg, cells, scope, entry_sig(reg[i]), args) == Ok::<bool, Error>(true),
        forall|j: int| 0 <= j < i && entry_sig(#[trigger] reg[j]).name == name
            ==> spec_sig_accepts(reg, cells, scope, entry_sig(reg[j]), args)
                == Ok::<bool, Error>(false),
    ensures
        spec_get(reg, cells, scope, name, args) == Ok::<Option<int>, Error>(Some(i)),
{
    lemma_get_from_finds(reg, cells, scope, name, args, i, 0);
}

/// Overload resolution law, negative half on arity: a non-repeating
/// signature accepts no call whose argument count differs from its declared
/// count.
pub proof fn lemma_arity_mismatch(
    reg: Seq<RegEntry>,
    cells: Seq<DataView>,
    scope: Seq<(Seq<char>, usize)>,
    sv: SigView,
    args: Seq<Argument>,
)
    requires
        !sv.repeating,
        args.len() != sv.args.len(),
    ensures
        spec_sig_accepts(reg, cells, scope, sv, args) == Ok::<bool, Error>(false),
{
}

/// From position `k` on, a mismatching shape at position `j` keeps the
/// signature from accepting the call.
proof fn lemma_accepts_from_rejects(
    reg: Seq<RegEntry>,
    cells: Seq<DataView>,
    scope: Seq<(Seq<char>, usize)>,
    sv: SigView,
    args: Seq<Argument>,
    j: int,
    k: int,
)
    requires
        0 <= k <= j < args.len(),
        slot_for(sv, j) is Data,
        spec_return_type(reg, cells, scope, args[j]) is Ok,
        spec_return_type(reg, cells, scope, args[j])->Ok_0 is Data,
        spec_return_type(reg, cells, scope, args[j])->Ok_0->Data_0 != slot_for(sv, j)->Data_0,
    ensures
        spec_accepts_from(reg, cells, scope, sv, args, k) != Ok::<bool, Error>(true),
    decreases j - k,
{
    if k < j {
        lemma_accepts_from_rejects(reg, cells, scope, sv, args, j, k + 1);
    }
}

/// Overload resolution law, negative half on shapes: a signature whose slot
/// for some position demands a shape that the argument there does not
/// resolve to accepts no such call.
pub proof fn lemma_shape_mismatch(
    reg: Seq<RegEntry>,
    cells: Seq<DataView>,
    scope: Seq<(Seq<char>, usize)>,
    sv: SigView,
    args: Seq<Argument>,
    j: int,
)
    requires
        0 <= j < args.len(),
        sv.repeating ==> sv.args.len() >= 1,
        slot_for(sv, j) is Data,
        spec_return_type(reg, cells, scope, args[j]) is Ok,
        spec_return_type(reg, cells, scope, args[j])->Ok_0 is Data,
        spec_return_type(reg, cells, scope, args[j])->Ok_0->Data_0 != slot_for(sv, j)->Data_0,
    ensures
        spec_sig_accepts(reg, cells, scope, sv, args) != Ok::<bool, Error>(true),
{
    if !sv.repeating && args.len() != sv.args.len() {
    } else {
        lemma_accepts_from_rejects(reg, cells, scope, sv, args, j, 0);
    }
}

/// Repeating-signature law, slot half: a repeating signature that declares
/// one slot checks the argument at every position, however far past the
/// declared list, against that single slot.
pub proof fn lemma_repeating_single_slot(sv: SigView, j: int)
    requires
        sv.repeating,
        sv.args.len() == 1,
        0 <= j,
    ensures
        slot_for(sv, j) == sv.args[0],
{
}

/// From position `k` on, a repeating single-slot signature accepts the call
/// when its one slot accepts every argument.
proof fn lemma_repeating_accepts_from(
    reg: Seq<RegEntry>,
    cells: Seq<DataView>,
    scope: Seq<(Seq<char>, usize)>,
    sv: SigView,
    args: Seq<Argument>,
    k: int,
)
    requires
        sv.repeating,
        sv.args.len() == 1,
        0 <= k,
        forall|j: int| 0 <= j < args.len() ==> match sv.args[0] {
            SignatureArgument::Raw => true,
            SignatureArgument::Any => true,
            SignatureArgument::Data(kind) => {
                let t = spec_return_type(reg, cells, scope, #[trigger] args[j]);
                t == Ok::<ReturnType, Error>(ReturnType::Any)
                    || t == Ok::<ReturnType, Error>(ReturnType::Data(kind))
            },
        },
    ensures
        spec_accepts_from(reg, cells, scope, sv, args, k) == Ok::<bool, Error>(true),
    decreases args.len() - k,
{
    if k < args.len() {
        lemma_repeating_accepts_from(reg, cells, scope, sv, args, k + 1);
    }
}

/// Repeating-signature law, acceptance half: a one-slot repeating signature
/// matches calls of every length — zero arguments included — whose every
/// argument that single slot accepts.
pub proof fn lemma_repeating_accepts(
    reg: Seq<RegEntry>,
    cells: Seq<DataView>,
    scope: Seq<(Seq<char>, usize)>,
    sv: SigView,
    args: Seq<Argument>,
)
    requires
        sv.repeating,
        sv.args.len() == 1,
        forall|j: int| 0 <= j < args.len() ==> match sv.args[0] {
            SignatureArgument::Raw => true,
            SignatureArgument::Any => true,
            SignatureArgument::Data(kind) => {
                let t = spec_return_type(reg, cells, scope, #[trigger] args[j]);
                t == Ok::<ReturnType, Error>(ReturnType::Any)
                    || t == Ok::<ReturnType, Error>(ReturnType::Data(kind))
            },
        },
    ensures
        spec_sig_accepts(reg, cells, scope, sv, args) == Ok::<bool, Error>(true),
{
    lemma_repeating_accepts_from(reg, cells, scope, sv, args, 0);
}

/// The seed of every registry: all system built-ins, then all context
/// built-ins, in a fixed order.
pub open spec fn builtin_registry<'p>() -> Seq<FunctionSource<'p>> {
    seq![
        FunctionSource::System(crate::interpreter::system::SystemFunction::Stdin),
        FunctionSource::System(crate::interpreter::system::SystemFunction::Number),
        FunctionSource::System(crate::interpreter::system::SystemFunction::Trim),
        FunctionSource::System(crate::interpreter::system::SystemFunction::Not),
        FunctionSource::System(crate::interpreter::system::SystemFunction::And),
        FunctionSource::System(crate::interpreter::system::SystemFunction::Or),
        FunctionSource::System(crate::interpreter::system::SystemFunction::Xor),
        FunctionSource::System(crate::interpreter::system::SystemFunction::Add),
        FunctionSource::System(crate::interpreter::system::SystemFunction::Sub),
        FunctionSource::System(crate::interpreter::system::SystemFunction::Mul),
        FunctionSource::System(crate::interpreter::system::SystemFunction::Div),
        FunctionSource::System(crate::interpreter::system::SystemFunction::Mod),
        FunctionSource::System(crate::interpreter::system::SystemFunction::Println),
        FunctionSource::System(crate::interpreter::system::SystemFunction::Break),
        FunctionSource::System(crate::interpreter::system::SystemFunction::Continue),
        FunctionSource::System(crate::interpreter::system::SystemFunction::Return),
        FunctionSource::System(crate::interpreter::system::SystemFunction::Cmp),
        FunctionSource::System(crate::interpreter::system::SystemFunction::GreaterThan),
        FunctionSource::System(crate::interpreter::system::SystemFunction::GreaterThanOrEqual),
        FunctionSource::System(crate::interpreter::system::SystemFunction::LessThan),
        FunctionSource::System(crate::interpreter::system::SystemFunction::LessThanOrEqual),
        FunctionSource::System(crate::interpreter::system::SystemFunction::Push),
        FunctionSource::System(crate::interpreter::system::SystemFunction::Pop),
        FunctionSource::System(crate::interpreter::system::SystemFunction::Index),
        FunctionSource::System(crate::interpreter::system::SystemFunction::Length),
        FunctionSource::System(crate::interpreter::system::SystemFunction::List),
        FunctionSource::Context(crate::interpreter::context::ContextFunction::Let),
        FunctionSource::Context(crate::interpreter::context::ContextFunction::If),
        FunctionSource::Context(crate::interpreter::context::ContextFunction::Assign),
        FunctionSource::Context(crate::interpreter::context::ContextFunction::While),
        FunctionSource::Context(crate::interpreter::context::ContextFunction::Fn),
    ]
}

impl<'p> Default for FunctionScope<'p> {
    /// A registry holding exactly the built-ins, in registration order.
    fn default() -> (r: Self)
        ensures
            r.scope@ == builtin_registry::<'p>(),
    {
        let mut scope: Vec<FunctionSource<'p>> = Vec::new();
        scope.push(FunctionSource::System(crate::interpreter::system::SystemFunction::Stdin));
        scope.push(FunctionSource::System(crate::interpreter::system::SystemFunction::Number));
        scope.push(FunctionSource::System(crate::interpreter::system::SystemFunction::Trim));
        scope.push(FunctionSource::System(crate::interpreter::system::SystemFunction::Not));
        scope.push(FunctionSource::System(crate::interpreter::system::SystemFunction::And));
        scope.push(FunctionSource::System(crate::interpreter::system::SystemFunction::Or));
        scope.push(FunctionSource::System(crate::interpreter::system::SystemFunction::Xor));
        scope.push(FunctionSource::System(crate::interpreter::system::SystemFunction::Add));
        scope.push(FunctionSource::System(crate::interpreter::system::SystemFunction::Sub));
        scope.push(FunctionSource::System(crate::interpreter::system::SystemFunction::Mul));
        scope.push(FunctionSource::System(crate::interpreter::system::SystemFunction::Div));
        scope.push(FunctionSource::System(crate::interpreter::system::SystemFunction::Mod));
        scope.push(FunctionSource::System(crate::interpreter::system::SystemFunction::Println));
        scope.push(FunctionSource::System(crate::interpreter::system::SystemFunction::Break));
        scope.push(FunctionSource::System(crate::interpreter::system::SystemFunction::Continue));
        scope.push(FunctionSource::System(crate::interpreter::system::SystemFunction::Return));
        scope.push(FunctionSource::System(crate::interpreter::system::SystemFunction::Cmp));
        scope.push(FunctionSource::System(crate::interpreter::system::SystemFunction::GreaterThan));
        scope.push(FunctionSource::System(crate::interpreter::system::SystemFunction::GreaterThanOrEqual));
        scope.push(FunctionSource::System(crate::interpreter::system::SystemFunction::LessThan));
        scope.push(FunctionSource::System(crate::interpreter::system::SystemFunction::LessThanOrEqual));
        scope.push(FunctionSource::System(crate::interpreter::system::SystemFunction::Push));
        scope.push(FunctionSource::System(crate::interpreter::system::SystemFunction::Pop));
        scope.push(FunctionSource::System(crate::interpreter::system::SystemFunction::Index));
        scope.push(FunctionSource::System(crate::interpreter::system::SystemFunction::Length));
        scope.push(FunctionSource::System(crate::interpreter::system::SystemFunction::List));
        scope.push(FunctionSource::Context(crate::interpreter::context::ContextFunction::Let));
        scope.push(FunctionSource::Context(crate::interpreter::context::ContextFunction::If));
        scope.push(FunctionSource::Context(crate::interpreter::context::ContextFunction::Assign));
        scope.push(FunctionSource::Context(crate::interpreter::context::ContextFunction::While));
        scope.push(FunctionSource::Context(crate::interpreter::context::ContextFunction::Fn));
        proof {
            assert(scope@ =~= builtin_registry::<'p>());
        }
        FunctionScope { scope }
    }
}

/// Seeds a fresh root scope: the constants `true` and `false`, and the
/// `break` and `continue` signals usable as plain identifiers, each in a
/// fresh cell.
pub fn default_variable_scope<'p>(it: &mut crate::interpreter::Interpreter<'p>) -> (r: VariableScope)
    requires
        old(it).wf(),
    ensures
        final(it).wf(),
        final(it).cells@.len() == old(it).cells@.len() + 4,
        cells_view(final(it).cells@) == cells_view(old(it).cells@) + seq![
            DataView::Bool(true),
            DataView::Bool(false),
            DataView::Flow(crate::interpreter::ControlFlow::Break),
            DataView::Flow(crate::interpreter::ControlFlow::Continue),
        ],
        final(it).funcs.scope@ == old(it).funcs.scope@,
        final(it).input@ == old(it).input@,
        final(it).input_at == old(it).input_at,
        final(it).output@ == old(it).output@,
        final(it).fuel == old(it).fuel,
        r@ == seq![
            ("true"@, old(it).cells@.len() as usize),
            ("false"@, (old(it).cells@.len() + 1) as usize),
            ("break"@, (old(it).cells@.len() + 2) as usize),
            ("continue"@, (old(it).cells@.len() + 3) as usize),
        ],
        r.wf(final(it).cells@.len() as nat),
{
    let c_true = it.new_cell(Data::Bool(true));
    let c_false = it.new_cell(Data::Bool(false));
    let c_break = it.new_cell(Data::Flow(crate::interpreter::ControlFlow::Break));
    let c_continue = it.new_cell(Data::Flow(crate::interpreter::ControlFlow::Continue));
    let mut entries: Vec<ScopeEntry> = Vec::new();
    entries.push(ScopeEntry { name: String::from_str("true"), cell: c_true });
    entries.push(ScopeEntry { name: String::from_str("false"), cell: c_false });
    entries.push(ScopeEntry { name: String::from_str("break"), cell: c_break });
    entries.push(ScopeEntry { name: String::from_str("continue"), cell: c_continue });
    let r = VariableScope { entries };
    proof {
        assert(cells_view(it.cells@) =~= cells_view(old(it).cells@) + seq![
            DataView::Bool(true),
            DataView::Bool(false),
            DataView::Flow(crate::interpreter::ControlFlow::Break),
            DataView::Flow(crate::interpreter::ControlFlow::Continue),
        ]);
        assert(r@ =~= seq![
            ("true"@, old(it).cells@.len() as usize),
            ("false"@, (old(it).cells@.len() + 1) as usize),
            ("break"@, (old(it).cells@.len() + 2) as usize),
            ("continue"@, (old(it).cells@.len() + 3) as usize),
        ]);
    }
    r
}

impl<'p> FunctionScope<'p> {
    /// Resolves a call: the first registered definition whose signature has
    /// the call's name and accepts its arguments, scanning in registration
    /// order; `Ok(None)` where no definition matches; an error where
    /// resolving an argument's shape fails on an unbound identifier or an
    /// unknown nested call.
    pub fn get(
        &self,
        name: &String,
        args: &Vec<Argument>,
        cells: &Vec<Data>,
        variable_scope: &VariableScope,
    ) -> (r: Result<Option<usize>, Error>)
        requires
            variable_scope.wf(cells@.len() as nat),
        ensures
            ({
                let s = spec_get(funcs_view(self.scope@), cells_view(cells@), variable_scope@, name@, args@);
                match r {
                    Ok(Some(i)) => i < self.scope@.len()
                        && s == Ok::<Option<int>, Error>(Some(i as int)),
                    Ok(None) => s == Ok::<Option<int>, Error>(None::<int>),
                    Err(e) => s == Err::<Option<int>, Error>(e),
                }
            }),
        decreases args, 4int, 0int,
    {
        let ghost reg = funcs_view(self.scope@);
        let ghost cv = cells_view(cells@);
        let ghost sc = variable_scope@;
        let mut i: usize = 0;
        while i < self.scope.len()
            invariant
                i <= self.scope@.len(),
                variable_scope.wf(cells@.len() as nat),
                spec_get_from(reg, cv, sc, name@, args@, 0)
                    == spec_get_from(reg, cv, sc, name@, args@, i as int),
                reg == funcs_view(self.scope@),
                cv == cells_view(cells@),
                sc == variable_scope@,
            decreases self.scope@.len() - i,
        {
            let holder = self.scope[i].signature();
            let sig = holder.get_ref();
            if sig.name == *name {
                match sig_accepts(self, sig, args, cells, variable_scope) {
                    Ok(true) => {
                        return Ok(Some(i));
                    },
                    Ok(false) => {},
                    Err(e) => {
                        return Err(e);
                    },
                }
            }
            i = i + 1;
        }
        Ok(None)
    }

    /// Appends a definition to the registry.
    pub fn insert(&mut self, function: FunctionSource<'p>)
        ensures
            final(self).scope@ =~= old(self).scope@.push(function),
    {
        self.scope.push(function);
    }
}

} // verus!
