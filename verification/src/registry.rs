//! The module registry: assembles named functions, classes and constants
//! into a host-importable namespace, built once at load time and immutable
//! thereafter.
//!
//! Loading is atomic: either every export registers, or the whole load
//! fails with the first registration error and no partial module exists.
//! Invocation resolves an export, binds the invocation, runs the body and
//! translates any native failure.

use vstd::prelude::*;

use crate::bind::bind;
use crate::bind::spec_bind;
use crate::bind::BoundCall;
use crate::bind::BoundV;
use crate::error::bind_error_to_host;
use crate::error::name_not_found;
use crate::error::not_callable;
use crate::error::spec_bind_error_message;
use crate::error::spec_translate;
use crate::error::translate;
use crate::error::HostExcV;
use crate::error::HostException;
use crate::error::HostExceptionCategory;
use crate::error::NativeErrV;
use crate::error::NativeError;
use crate::error::NativeErrorKind;
use crate::handle::methods_view;
use crate::handle::ClassDef;
use crate::handle::MethodDefV;
use crate::signature::sig_well_formed;
use crate::signature::signature_shape_valid;
use crate::signature::Invocation;
use crate::signature::InvV;
use crate::signature::NativeSignature;
use crate::signature::SigV;
use crate::value::clone_dynamic;
use crate::value::clone_string;
use crate::value::dyn_view;
use crate::value::dyns_view;
use crate::value::str_eq;
use crate::value::DynVal;
use crate::value::DynamicValue;
use crate::value::NatVal;
use crate::value::NativeValue;
use vstd::string::StringExecFns;

verus! {

/// What a registered function does with its bound arguments.
#[derive(Debug)]
pub enum FunctionImpl {
    /// Sums the fixed integer arguments.
    SumFixedInts,
    /// Answers a fixed integer.
    ConstInt(i64),
    /// Answers a fixed greeting string.
    Greeting(String),
    /// Reflects the call back: a banner, the variadic-positional values,
    /// and each variadic-keyword pair as a two-element sequence.
    EchoArgs,
    /// Fails with an input/output failure carrying the given message.
    RaiseIo(String),
}

/// The mathematical model of a `FunctionImpl`.
pub enum FunImplV {
    SumFixedInts,
    ConstInt(int),
    Greeting(Seq<char>),
    EchoArgs,
    RaiseIo(Seq<char>),
}

/// A registered native function: its signature, its documentation string,
/// and its body.
#[derive(Debug)]
pub struct FunctionDef {
    pub signature: NativeSignature,
    pub doc: String,
    pub body: FunctionImpl,
}

/// The mathematical model of a `FunctionDef`.
pub struct FunctionDefV {
    pub signature: SigV,
    pub doc: Seq<char>,
    pub body: FunImplV,
}

impl View for FunctionDef {
    type V = FunctionDefV;

    open spec fn view(&self) -> FunctionDefV {
        FunctionDefV {
            signature: self.signature@,
            doc: self.doc@,
            body: match &self.body {
                FunctionImpl::SumFixedInts => FunImplV::SumFixedInts,
                FunctionImpl::ConstInt(c) => FunImplV::ConstInt(*c as int),
                FunctionImpl::Greeting(s) => FunImplV::Greeting(s@),
                FunctionImpl::EchoArgs => FunImplV::EchoArgs,
                FunctionImpl::RaiseIo(m) => FunImplV::RaiseIo(m@),
            },
        }
    }
}

/// One export of a module: a function, a class, or a constant.
#[derive(Debug)]
pub enum ModuleEntry {
    Function(FunctionDef),
    Class(ClassDef),
    Constant(DynamicValue),
}

/// The mathematical model of a `ModuleEntry`.
pub enum EntryV {
    Function(FunctionDefV),
    Class(Seq<MethodDefV>, Seq<char>),
    Constant(DynVal),
}

impl View for ModuleEntry {
    type V = EntryV;

    open spec fn view(&self) -> EntryV {
        match self {
            ModuleEntry::Function(f) => EntryV::Function(f@),
            ModuleEntry::Class(c) => EntryV::Class(methods_view(c.methods@), c.doc@),
            ModuleEntry::Constant(v) => EntryV::Constant(dyn_view(*v)),
        }
    }
}

/// The models of a sequence of named exports.
pub open spec fn entries_view(s: Seq<(String, ModuleEntry)>) -> Seq<(Seq<char>, EntryV)> {
    s.map_values(|p: (String, ModuleEntry)| (p.0@, p.1@))
}

/// Why a module failed to load.
#[derive(Debug)]
pub enum RegistrationError {
    /// Two exports share this name.
    DuplicateExportName(String),
    /// This export's signature shape is invalid: two of its parameters
    /// share a name.
    InvalidSignatureShape(String),
}

/// The mathematical model of a `RegistrationError`.
pub enum RegErrV {
    DuplicateExportName(Seq<char>),
    InvalidSignatureShape(Seq<char>),
}

impl View for RegistrationError {
    type V = RegErrV;

    open spec fn view(&self) -> RegErrV {
        match self {
            RegistrationError::DuplicateExportName(n) => RegErrV::DuplicateExportName(n@),
            RegistrationError::InvalidSignatureShape(n) => RegErrV::InvalidSignatureShape(n@),
        }
    }
}

/// An export's signatures are well formed: the one of a function, or the
/// one of each method of a class.
pub open spec fn spec_entry_wf(e: EntryV) -> bool {
    match e {
        EntryV::Function(f) => sig_well_formed(f.signature),
        EntryV::Class(methods, _) => forall|m: int|
            0 <= m < methods.len() ==> sig_well_formed((#[trigger] methods[m]).signature),
        EntryV::Constant(_) => true,
    }
}

/// What scanning the exports from index `i` on yields: acceptance, or the
/// first registration error, naming the offending export.
pub open spec fn spec_registration_check(entries: Seq<(Seq<char>, EntryV)>, i: int) -> Result<
    (),
    RegErrV,
>
    decreases entries.len() - i,
{
    if i < 0 || i >= entries.len() {
        Ok(())
    } else if exists|j: int| 0 <= j < i && (#[trigger] entries[j]).0 == entries[i].0 {
        Err(RegErrV::DuplicateExportName(entries[i].0))
    } else if !spec_entry_wf(entries[i].1) {
        Err(RegErrV::InvalidSignatureShape(entries[i].0))
    } else {
        spec_registration_check(entries, i + 1)
    }
}

/// A loaded module: every export name distinct, every signature well
/// formed.
pub open spec fn spec_module_wf(entries: Seq<(Seq<char>, EntryV)>) -> bool {
    &&& forall|i: int, j: int|
        0 <= i < j < entries.len() ==> (#[trigger] entries[i]).0 != (#[trigger] entries[j]).0
    &&& forall|i: int| 0 <= i < entries.len() ==> spec_entry_wf((#[trigger] entries[i]).1)
}

/// A host-importable module: a name, a documentation string, and an
/// immutable mapping from export names to entries. Built only by
/// `register`; nothing mutates it afterwards.
#[derive(Debug)]
pub struct ModuleDescriptor {
    pub name: String,
    pub doc: String,
    entries: Vec<(String, ModuleEntry)>,
}

/// The mathematical model of a `ModuleDescriptor`.
pub struct ModuleV {
    pub name: Seq<char>,
    pub doc: Seq<char>,
    pub entries: Seq<(Seq<char>, EntryV)>,
}

impl View for ModuleDescriptor {
    type V = ModuleV;

    closed spec fn view(&self) -> ModuleV {
        ModuleV { name: self.name@, doc: self.doc@, entries: entries_view(self.entries@) }
    }
}

/// Whether any export before index `i` carries the name `nm`.
fn name_in_prefix(exports: &Vec<(String, ModuleEntry)>, nm: &String, i: usize) -> (r: bool)
    requires
        i <= exports@.len(),
    ensures
        r == exists|j: int|
            0 <= j < i && (#[trigger] entries_view(exports@)[j]).0 == nm@,
{
    let mut j: usize = 0;
    while j < i
        invariant
            j <= i <= exports@.len(),
            forall|m: int| 0 <= m < j ==> (#[trigger] entries_view(exports@)[m]).0 != nm@,
        decreases i - j,
    {
        if str_eq(&exports[j].0, nm) {
            proof {
                assert(entries_view(exports@)[j as int].0 == nm@);
            }
            return true;
        }
        proof {
            assert(entries_view(exports@)[j as int].0 != nm@);
        }
        j += 1;
    }
    false
}

/// Checks one export's signature shapes.
fn entry_shape_valid(e: &ModuleEntry) -> (r: bool)
    ensures
        r == spec_entry_wf(e@),
{
    match e {
        ModuleEntry::Function(f) => signature_shape_valid(&f.signature),
        ModuleEntry::Class(c) => {
            let k = c.methods.len();
            let mut m: usize = 0;
            while m < k
                invariant
                    m <= k,
                    k == c.methods@.len(),
                    e@ == EntryV::Class(methods_view(c.methods@), c.doc@),
                    forall|b: int|
                        0 <= b < m ==> sig_well_formed(
                            (#[trigger] methods_view(c.methods@)[b]).signature,
                        ),
                decreases k - m,
            {
                if !signature_shape_valid(&c.methods[m].signature) {
                    proof {
                        let mv = methods_view(c.methods@);
                        assert(e@ == EntryV::Class(mv, c.doc@));
                        assert(0 <= (m as int) && (m as int) < mv.len());
                        assert(!sig_well_formed(mv[m as int].signature));
                        assert(!spec_entry_wf(e@));
                    }
                    return false;
                }
                proof {
                    assert(sig_well_formed(methods_view(c.methods@)[m as int].signature));
                }
                m += 1;
            }
            true
        },
        ModuleEntry::Constant(_) => true,
    }
}

/// Builds a module from its exports, atomically: either every export
/// registers and the descriptor holds them all, in order, or the load
/// fails with the first registration error and no module exists.
pub fn register(name: String, doc: String, exports: Vec<(String, ModuleEntry)>) -> (r: Result<
    ModuleDescriptor,
    RegistrationError,
>)
    ensures
        r matches Ok(d) ==> {
            &&& spec_registration_check(entries_view(exports@), 0) is Ok
            &&& d@.name == name@
            &&& d@.doc == doc@
            &&& d@.entries == entries_view(exports@)
            &&& spec_module_wf(d@.entries)
        },
        r matches Err(e) ==> spec_registration_check(entries_view(exports@), 0) == Err::<
            (),
            RegErrV,
        >(e@),
{
    let k = exports.len();
    let mut i: usize = 0;
    while i < k
        invariant
            i <= k,
            k == exports@.len(),
            spec_registration_check(entries_view(exports@), 0) == spec_registration_check(
                entries_view(exports@),
                i as int,
            ),
            forall|a: int, b: int|
                0 <= a < b < i ==> (#[trigger] entries_view(exports@)[a]).0 != (
                #[trigger] entries_view(exports@)[b]).0,
            forall|a: int|
                0 <= a < i ==> spec_entry_wf((#[trigger] entries_view(exports@)[a]).1),
        decreases k - i,
    {
        if name_in_prefix(&exports, &exports[i].0, i) {
            return Err(RegistrationError::DuplicateExportName(clone_string(&exports[i].0)));
        }
        if !entry_shape_valid(&exports[i].1) {
            return Err(RegistrationError::InvalidSignatureShape(clone_string(&exports[i].0)));
        }
        proof {
            assert(entries_view(exports@)[i as int].0 == exports@[i as int].0@);
        }
        i += 1;
    }
    Ok(ModuleDescriptor { name, doc, entries: exports })
}

/// Law: two exports under one name within a single load fail the whole
/// load; no module with a duplicate name is ever built.
pub proof fn lemma_duplicate_export_fails(entries: Seq<(Seq<char>, EntryV)>, i: int, j: int)
    requires
        0 <= i < j < entries.len(),
        entries[i].0 == entries[j].0,
    ensures
        spec_registration_check(entries, 0) is Err,
{
    lemma_check_fails_from(entries, i, j, 0);
}

/// Scanning from any position at or before the duplicate fails.
proof fn lemma_check_fails_from(entries: Seq<(Seq<char>, EntryV)>, i: int, j: int, p: int)
    requires
        0 <= i < j < entries.len(),
        entries[i].0 == entries[j].0,
        0 <= p <= j,
    ensures
        spec_registration_check(entries, p) is Err,
    decreases j - p,
{
    if p == j {
        assert(0 <= i < p && entries[i].0 == entries[p].0);
    } else {
        if !(exists|m: int| 0 <= m < p && (#[trigger] entries[m]).0 == entries[p].0)
            && spec_entry_wf(entries[p].1) {
            lemma_check_fails_from(entries, i, j, p + 1);
        }
    }
}

/// The first export at or after `j` named `nm`, or `entries.len()` when
/// none is.
pub open spec fn spec_export_index(entries: Seq<(Seq<char>, EntryV)>, nm: Seq<char>, j: int) -> int
    decreases entries.len() - j,
{
    if j < 0 || j >= entries.len() {
        entries.len() as int
    } else if entries[j].0 == nm {
        j
    } else {
        spec_export_index(entries, nm, j + 1)
    }
}

impl ModuleDescriptor {
    /// The position of the export named `nm`, or the export count when no
    /// export carries that name.
    fn find_export(&self, nm: &String) -> (r: usize)
        ensures
            r as int == spec_export_index(self@.entries, nm@, 0),
            r <= self@.entries.len(),
    {
        let k = self.entries.len();
        let mut j: usize = 0;
        while j < k
            invariant
                j <= k,
                k == self.entries@.len(),
                spec_export_index(self@.entries, nm@, 0) == spec_export_index(
                    self@.entries,
                    nm@,
                    j as int,
                ),
            decreases k - j,
        {
            if str_eq(&self.entries[j].0, nm) {
                proof {
                    assert(self@.entries[j as int].0 == nm@);
                }
                return j;
            }
            proof {
                assert(self@.entries[j as int].0 != nm@);
            }
            j += 1;
        }
        k
    }

    /// Resolves an export by name: the entry registered under it, or
    /// nothing when the name is not found.
    pub fn resolve<'a>(&'a self, nm: &String) -> (r: Option<&'a ModuleEntry>)
        ensures
            r matches Some(e) ==> {
                let i = spec_export_index(self@.entries, nm@, 0);
                &&& i < self@.entries.len()
                &&& e@ == self@.entries[i].1
            },
            r is None ==> spec_export_index(self@.entries, nm@, 0) == self@.entries.len(),
    {
        let i = self.find_export(nm);
        if i == self.entries.len() {
            None
        } else {
            Some(&self.entries[i].1)
        }
    }

    /// Invokes the export named `nm` with a host invocation, yielding the
    /// function's result as a dynamic value, or the host exception that
    /// the failure translates to.
    pub fn invoke(&self, nm: &String, inv: &Invocation) -> (r: Result<DynamicValue, HostException>)
        ensures
            r matches Ok(d) ==> spec_invoke(self@, nm@, inv@) == Ok::<DynVal, HostExcV>(d@),
            r matches Err(e) ==> spec_invoke(self@, nm@, inv@) == Err::<DynVal, HostExcV>(e@),
    {
        let i = self.find_export(nm);
        if i == self.entries.len() {
            return Err(name_not_found(nm));
        }
        match &self.entries[i].1 {
            ModuleEntry::Constant(_) => Err(not_callable(nm)),
            ModuleEntry::Class(_) => Err(not_callable(nm)),
            ModuleEntry::Function(f) => match bind(&f.signature, inv) {
                Err(be) => Err(bind_error_to_host(&be)),
                Ok(bound) => match call_function(&f.body, &bound) {
                    Err(ne) => Err(translate(ne)),
                    Ok(d) => Ok(d),
                },
            },
        }
    }
}

/// What invoking an export yields.
pub open spec fn spec_invoke(m: ModuleV, nm: Seq<char>, inv: InvV) -> Result<DynVal, HostExcV> {
    let i = spec_export_index(m.entries, nm, 0);
    if i >= m.entries.len() {
        Err(
            HostExcV {
                category: HostExceptionCategory::RuntimeError,
                message: "name not found: "@ + nm,
            },
        )
    } else {
        match m.entries[i].1 {
            EntryV::Function(f) => match spec_bind(f.signature, inv) {
                Err(be) => Err(
                    HostExcV {
                        category: HostExceptionCategory::ValueError,
                        message: spec_bind_error_message(be),
                    },
                ),
                Ok(b) => match spec_call_function(f.body, b) {
                    Ok(d) => Ok(d),
                    Err(ne) => Err(spec_translate(ne)),
                },
            },
            _ => Err(
                HostExcV {
                    category: HostExceptionCategory::RuntimeError,
                    message: "export is not callable: "@ + nm,
                },
            ),
        }
    }
}

/// What summing the fixed integer arguments from `i` on, starting from
/// `acc`, yields: the total, or the first failure (a non-integer
/// argument, or a sum leaving the 64-bit range).
pub open spec fn spec_sum_ints(args: Seq<NatVal>, i: int, acc: int) -> Result<int, NativeErrV>
    decreases args.len() - i,
{
    if i < 0 || i >= args.len() {
        Ok(acc)
    } else {
        match args[i] {
            NatVal::I64(x) => if -9223372036854775808 <= acc + x <= 9223372036854775807 {
                spec_sum_ints(args, i + 1, acc + x)
            } else {
                Err(
                    NativeErrV {
                        kind: NativeErrorKind::OutOfRange,
                        message: "integer overflow"@,
                    },
                )
            },
            _ => Err(
                NativeErrV {
                    kind: NativeErrorKind::InvalidArgument,
                    message: "expected an integer"@,
                },
            ),
        }
    }
}

/// What the echo body yields: a banner, then the variadic-positional
/// values, then each variadic-keyword pair as a two-element sequence.
pub open spec fn spec_echo(b: BoundV) -> DynVal {
    DynVal::Sequence(
        seq![DynVal::Str("hello from native code"@)] + b.varargs + b.kwargs.map_values(
            |p: (Seq<char>, DynVal)| DynVal::Sequence(seq![DynVal::Str(p.0), p.1]),
        ),
    )
}

/// What a function body yields for a bound call.
pub open spec fn spec_call_function(body: FunImplV, b: BoundV) -> Result<DynVal, NativeErrV> {
    match body {
        FunImplV::SumFixedInts => match spec_sum_ints(b.fixed_args, 0, 0) {
            Ok(total) => Ok(DynVal::Int(total)),
            Err(e) => Err(e),
        },
        FunImplV::ConstInt(c) => Ok(DynVal::Int(c)),
        FunImplV::Greeting(s) => Ok(DynVal::Str(s)),
        FunImplV::EchoArgs => Ok(spec_echo(b)),
        FunImplV::RaiseIo(m) => Err(
            NativeErrV { kind: NativeErrorKind::IoFailure, message: m },
        ),
    }
}

/// Sums the fixed integer arguments from `i` on.
fn sum_ints(args: &Vec<NativeValue>, i: usize, acc: i64) -> (r: Result<i64, NativeError>)
    requires
        i <= args@.len(),
    ensures
        r matches Ok(total) ==> spec_sum_ints(crate::value::nats_view(args@), i as int, acc as int)
            == Ok::<int, NativeErrV>(total as int),
        r matches Err(e) ==> spec_sum_ints(crate::value::nats_view(args@), i as int, acc as int)
            == Err::<int, NativeErrV>(e@),
    decreases args@.len() - i,
{
    if i == args.len() {
        Ok(acc)
    } else {
        match &args[i] {
            NativeValue::I64(x) => match acc.checked_add(*x) {
                Some(next) => sum_ints(args, i + 1, next),
                None => Err(NativeError {
                    kind: NativeErrorKind::OutOfRange,
                    message: String::from_str("integer overflow"),
                }),
            },
            _ => Err(NativeError {
                kind: NativeErrorKind::InvalidArgument,
                message: String::from_str("expected an integer"),
            }),
        }
    }
}

/// Reflects a bound call back to the host as one dynamic sequence.
fn echo_args(b: &BoundCall) -> (d: DynamicValue)
    ensures
        d@ == spec_echo(b@),
{
    let mut out: Vec<DynamicValue> = Vec::new();
    out.push(DynamicValue::Str(String::from_str("hello from native code")));
    let mut i: usize = 0;
    while i < b.varargs.len()
        invariant
            i <= b.varargs@.len(),
            out@.len() == 1 + i,
            dyn_view(out@[0]) == DynVal::Str("hello from native code"@),
            forall|m: int|
                0 <= m < i ==> dyn_view(#[trigger] out@[1 + m]) == dyns_view(b.varargs@)[m],
        decreases b.varargs@.len() - i,
    {
        let ghost out_before = out@;
        out.push(clone_dynamic(&b.varargs[i]));
        proof {
            assert(forall|m: int| 0 <= m < out_before.len() ==> out@[m] == out_before[m]);
        }
        i += 1;
    }
    let ghost vcount = 1 + b.varargs@.len();
    let mut j: usize = 0;
    while j < b.kwargs.len()
        invariant
            vcount == 1 + b.varargs@.len(),
            j <= b.kwargs@.len(),
            out@.len() == vcount + j,
            dyn_view(out@[0]) == DynVal::Str("hello from native code"@),
            forall|m: int|
                0 <= m < b.varargs@.len() ==> dyn_view(#[trigger] out@[1 + m]) == dyns_view(
                    b.varargs@,
                )[m],
            forall|m: int|
                0 <= m < j ==> dyn_view(#[trigger] out@[vcount + m]) == DynVal::Sequence(
                    seq![
                        DynVal::Str(crate::signature::named_view(b.kwargs@)[m].0),
                        crate::signature::named_view(b.kwargs@)[m].1,
                    ],
                ),
        decreases b.kwargs@.len() - j,
    {
        let nm = clone_string(&b.kwargs[j].0);
        let v = clone_dynamic(&b.kwargs[j].1);
        let mut pair: Vec<DynamicValue> = Vec::new();
        pair.push(DynamicValue::Str(nm));
        pair.push(v);
        let entry = DynamicValue::Sequence(pair);
        proof {
            assert(dyn_view(entry) == DynVal::Sequence(
                seq![
                    DynVal::Str(crate::signature::named_view(b.kwargs@)[j as int].0),
                    crate::signature::named_view(b.kwargs@)[j as int].1,
                ],
            )) by {
                assert(dyns_view(entry->Sequence_0@) =~= seq![
                    DynVal::Str(crate::signature::named_view(b.kwargs@)[j as int].0),
                    crate::signature::named_view(b.kwargs@)[j as int].1,
                ]);
            }
        }
        let ghost out_before = out@;
        out.push(entry);
        proof {
            assert(forall|m: int| 0 <= m < out_before.len() ==> out@[m] == out_before[m]);
        }
        j += 1;
    }
    proof {
        let rhs = seq![DynVal::Str("hello from native code"@)] + b@.varargs
            + b@.kwargs.map_values(
            |p: (Seq<char>, DynVal)| DynVal::Sequence(seq![DynVal::Str(p.0), p.1]),
        );
        assert(dyns_view(out@).len() == rhs.len());
        assert forall|m: int| 0 <= m < rhs.len() implies dyns_view(out@)[m] == rhs[m] by {
            assert(dyns_view(out@)[m] == dyn_view(out@[m]));
            if m == 0 {
                assert(rhs[m] == DynVal::Str("hello from native code"@));
            } else if m < vcount {
                assert(rhs[m] == b@.varargs[m - 1]);
                assert(dyn_view(out@[1 + (m - 1)]) == dyns_view(b.varargs@)[m - 1]);
            } else {
                assert(rhs[m] == b@.kwargs.map_values(
                    |p: (Seq<char>, DynVal)| DynVal::Sequence(seq![DynVal::Str(p.0), p.1]),
                )[m - vcount]);
                assert(dyn_view(out@[vcount + (m - vcount)]) == DynVal::Sequence(
                    seq![
                        DynVal::Str(crate::signature::named_view(b.kwargs@)[m - vcount].0),
                        crate::signature::named_view(b.kwargs@)[m - vcount].1,
                    ],
                ));
            }
        }
        assert(dyns_view(out@) =~= rhs);
    }
    DynamicValue::Sequence(out)
}

/// Runs a function body on a bound call.
fn call_function(body: &FunctionImpl, b: &BoundCall) -> (r: Result<DynamicValue, NativeError>)
    ensures
        r matches Ok(d) ==> spec_call_function(fun_impl_view(body), b@) == Ok::<
            DynVal,
            NativeErrV,
        >(d@),
        r matches Err(e) ==> spec_call_function(fun_impl_view(body), b@) == Err::<
            DynVal,
            NativeErrV,
        >(e@),
{
    match body {
        FunctionImpl::SumFixedInts => match sum_ints(&b.fixed_args, 0, 0) {
            Ok(total) => Ok(DynamicValue::Int(total)),
            Err(e) => Err(e),
        },
        FunctionImpl::ConstInt(c) => Ok(DynamicValue::Int(*c)),
        FunctionImpl::Greeting(s) => Ok(DynamicValue::Str(clone_string(s))),
        FunctionImpl::EchoArgs => Ok(echo_args(b)),
        FunctionImpl::RaiseIo(m) => Err(NativeError {
            kind: NativeErrorKind::IoFailure,
            message: clone_string(m),
        }),
    }
}

/// The model of a function body.
pub open spec fn fun_impl_view(body: &FunctionImpl) -> FunImplV {
    match body {
        FunctionImpl::SumFixedInts => FunImplV::SumFixedInts,
        FunctionImpl::ConstInt(c) => FunImplV::ConstInt(*c as int),
        FunctionImpl::Greeting(s) => FunImplV::Greeting(s@),
        FunctionImpl::EchoArgs => FunImplV::EchoArgs,
        FunctionImpl::RaiseIo(m) => FunImplV::RaiseIo(m@),
    }
}

} // verus!
