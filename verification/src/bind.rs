//! The argument binder: maps a host invocation onto a native signature.
//!
//! Binding is deterministic: positional values fill the fixed parameters
//! left to right, a remaining tail goes to the variadic-positional slot or
//! fails, named values are assigned in invocation order, defaults fill the
//! rest, and every fixed argument then passes through the conversion
//! layer. The first failure aborts binding; native code never starts on a
//! partially bound call.

use vstd::prelude::*;

use crate::convert::ConvErrV;
use crate::convert::ConversionError;
use crate::convert::spec_to_native;
use crate::convert::to_native;
use crate::signature::InvV;
use crate::signature::Invocation;
use crate::signature::NativeSignature;
use crate::signature::Param;
use crate::signature::ParamV;
use crate::signature::SigV;
use crate::signature::named_view;
use crate::signature::params_view;
use crate::value::DynVal;
use crate::value::DynamicValue;
use crate::value::NatVal;
use crate::value::NativeValue;
use crate::value::clone_dynamic;
use crate::value::clone_string;
use crate::value::dyn_view;
use crate::value::dyns_view;
use crate::value::nat_view;
use crate::value::nats_view;
use crate::value::str_eq;

verus! {

/// Why binding failed, with the name that pins the cause.
#[derive(Debug)]
pub enum BindError {
    /// More positional values than fixed parameters, and no
    /// variadic-positional slot to take the tail.
    TooManyPositional,
    /// A fixed parameter received no value and declares no default.
    MissingRequired(String),
    /// A named value matches no fixed parameter, and no variadic-keyword
    /// slot exists.
    UnexpectedKeyword(String),
    /// A named value addresses a fixed parameter already filled.
    DuplicateArgument(String),
    /// A fixed argument failed conversion; the parameter's name and the
    /// conversion failure.
    ConversionFailure(String, ConversionError),
}

/// The mathematical model of a `BindError`.
pub enum BindErrV {
    TooManyPositional,
    MissingRequired(Seq<char>),
    UnexpectedKeyword(Seq<char>),
    DuplicateArgument(Seq<char>),
    ConversionFailure(Seq<char>, ConvErrV),
}

impl View for BindError {
    type V = BindErrV;

    open spec fn view(&self) -> BindErrV {
        match self {
            BindError::TooManyPositional => BindErrV::TooManyPositional,
            BindError::MissingRequired(n) => BindErrV::MissingRequired(n@),
            BindError::UnexpectedKeyword(n) => BindErrV::UnexpectedKeyword(n@),
            BindError::DuplicateArgument(n) => BindErrV::DuplicateArgument(n@),
            BindError::ConversionFailure(n, e) => BindErrV::ConversionFailure(n@, e@),
        }
    }
}

/// A fully bound call, ready for the native body: the converted fixed
/// arguments in declared order, the variadic-positional tail, and the
/// variadic-keyword pairs in invocation order.
#[derive(Debug)]
pub struct BoundCall {
    pub fixed_args: Vec<NativeValue>,
    pub varargs: Vec<DynamicValue>,
    pub kwargs: Vec<(String, DynamicValue)>,
}

/// The mathematical model of a `BoundCall`.
pub struct BoundV {
    pub fixed_args: Seq<NatVal>,
    pub varargs: Seq<DynVal>,
    pub kwargs: Seq<(Seq<char>, DynVal)>,
}

impl View for BoundCall {
    type V = BoundV;

    open spec fn view(&self) -> BoundV {
        BoundV {
            fixed_args: nats_view(self.fixed_args@),
            varargs: dyns_view(self.varargs@),
            kwargs: named_view(self.kwargs@),
        }
    }
}

/// The fixed-parameter slots after positional assignment: slot `j` holds
/// the `j`-th positional value where one was supplied.
pub open spec fn spec_initial_slots(k: nat, pos: Seq<DynVal>) -> Seq<Option<DynVal>> {
    Seq::new(k, |j: int| if j < pos.len() {
        Some(pos[j])
    } else {
        None
    })
}

/// The first index at or after `j` of a fixed parameter named `nm`, or
/// `fixed.len()` when none is.
pub open spec fn first_param_index(fixed: Seq<ParamV>, nm: Seq<char>, j: int) -> int
    decreases fixed.len() - j,
{
    if j < 0 || j >= fixed.len() {
        fixed.len() as int
    } else if fixed[j].name == nm {
        j
    } else {
        first_param_index(fixed, nm, j + 1)
    }
}

/// What assigning the named values from index `i` on yields: the final
/// slots and variadic-keyword pairs, or the failure of the first named
/// value that neither fills an empty fixed slot nor may join the
/// variadic-keyword slot.
pub open spec fn spec_assign_named(
    fixed: Seq<ParamV>,
    has_kwargs: bool,
    named: Seq<(Seq<char>, DynVal)>,
    i: int,
    slots: Seq<Option<DynVal>>,
    kwargs: Seq<(Seq<char>, DynVal)>,
) -> Result<(Seq<Option<DynVal>>, Seq<(Seq<char>, DynVal)>), BindErrV>
    decreases named.len() - i,
{
    if i < 0 || i >= named.len() {
        Ok((slots, kwargs))
    } else {
        let nm = named[i].0;
        let v = named[i].1;
        let j = first_param_index(fixed, nm, 0);
        if j < fixed.len() {
            if 0 <= j < slots.len() && slots[j] is Some {
                Err(BindErrV::DuplicateArgument(nm))
            } else {
                spec_assign_named(fixed, has_kwargs, named, i + 1, slots.update(j, Some(v)), kwargs)
            }
        } else if has_kwargs {
            spec_assign_named(fixed, has_kwargs, named, i + 1, slots, kwargs.push((nm, v)))
        } else {
            Err(BindErrV::UnexpectedKeyword(nm))
        }
    }
}

/// The first index at or after `j` of a fixed parameter that is unfilled
/// and has no default, or `fixed.len()` when every parameter is covered.
pub open spec fn spec_first_missing(fixed: Seq<ParamV>, slots: Seq<Option<DynVal>>, j: int) -> int
    decreases fixed.len() - j,
{
    if j < 0 || j >= fixed.len() {
        fixed.len() as int
    } else if j < slots.len() && (slots[j] is Some || fixed[j].default is Some) {
        spec_first_missing(fixed, slots, j + 1)
    } else {
        j
    }
}

/// What converting the filled slots from index `j` on yields: the native
/// fixed arguments in declared order, or the first conversion failure
/// with the failing parameter's name.
pub open spec fn spec_convert_fixed(fixed: Seq<ParamV>, slots: Seq<Option<DynVal>>, j: int) -> Result<
    Seq<NatVal>,
    BindErrV,
>
    recommends
        slots.len() == fixed.len(),
        forall|m: int| j <= m < fixed.len() ==> slots[m] is Some || fixed[m].default is Some,
    decreases fixed.len() - j,
{
    if j < 0 || j >= fixed.len() {
        Ok(Seq::empty())
    } else {
        let v = if j < slots.len() && slots[j] is Some {
            slots[j]->0
        } else if fixed[j].default is Some {
            fixed[j].default->0
        } else {
            DynVal::Bool(false)
        };
        match spec_to_native(v, fixed[j].ty) {
            Err(e) => Err(BindErrV::ConversionFailure(fixed[j].name, e)),
            Ok(n) => match spec_convert_fixed(fixed, slots, j + 1) {
                Ok(rest) => Ok(seq![n] + rest),
                Err(e) => Err(e),
            },
        }
    }
}

/// What binding an invocation onto a signature yields.
pub open spec fn spec_bind(sig: SigV, inv: InvV) -> Result<BoundV, BindErrV> {
    let k = sig.fixed.len();
    if inv.positional.len() > k && !sig.has_varargs {
        Err(BindErrV::TooManyPositional)
    } else {
        let varargs = if inv.positional.len() > k {
            inv.positional.subrange(k as int, inv.positional.len() as int)
        } else {
            Seq::empty()
        };
        let slots0 = spec_initial_slots(k, inv.positional);
        match spec_assign_named(sig.fixed, sig.has_kwargs, inv.named, 0, slots0, Seq::empty()) {
            Err(e) => Err(e),
            Ok(filled) => {
                let m = spec_first_missing(sig.fixed, filled.0, 0);
                if m < k {
                    Err(BindErrV::MissingRequired(sig.fixed[m].name))
                } else {
                    match spec_convert_fixed(sig.fixed, filled.0, 0) {
                        Err(e) => Err(e),
                        Ok(args) => Ok(
                            BoundV { fixed_args: args, varargs, kwargs: filled.1 },
                        ),
                    }
                }
            },
        }
    }
}

/// Every parameter before the first missing one is filled or defaulted.
proof fn lemma_first_missing_covers(fixed: Seq<ParamV>, slots: Seq<Option<DynVal>>, j: int)
    requires
        0 <= j,
        slots.len() == fixed.len(),
    ensures
        forall|m: int|
            j <= m < fixed.len() && m < spec_first_missing(fixed, slots, j) ==> (slots[m] is Some
                || fixed[m].default is Some),
    decreases fixed.len() - j,
{
    if j < fixed.len() {
        lemma_first_missing_covers(fixed, slots, j + 1);
    }
}

/// The models of a sequence of slots.
pub open spec fn slots_view(s: Seq<Option<DynamicValue>>) -> Seq<Option<DynVal>> {
    s.map_values(
        |o: Option<DynamicValue>|
            match o {
                Some(v) => Some(dyn_view(v)),
                None => None,
            },
    )
}

/// Fills the fixed-parameter slots with the positional values, left to
/// right.
fn fill_slots(k: usize, pos: &Vec<DynamicValue>) -> (slots: Vec<Option<DynamicValue>>)
    ensures
        slots@.len() == k,
        slots_view(slots@) == spec_initial_slots(k as nat, dyns_view(pos@)),
{
    let mut slots: Vec<Option<DynamicValue>> = Vec::new();
    let mut j: usize = 0;
    while j < k
        invariant
            j <= k,
            slots@.len() == j,
            forall|m: int|
                0 <= m < j && m < pos@.len() ==> (#[trigger] slots@[m] matches Some(x)
                    && dyn_view(x) == dyn_view(pos@[m])),
            forall|m: int| pos@.len() <= m < j ==> #[trigger] slots@[m] is None,
        decreases k - j,
    {
        if j < pos.len() {
            slots.push(Some(clone_dynamic(&pos[j])));
        } else {
            slots.push(None);
        }
        j += 1;
    }
    proof {
        assert(slots_view(slots@) =~= spec_initial_slots(k as nat, dyns_view(pos@)));
    }
    slots
}

/// The positional tail beyond the fixed parameters, in original order.
fn collect_varargs(k: usize, pos: &Vec<DynamicValue>) -> (tail: Vec<DynamicValue>)
    requires
        k <= pos@.len(),
    ensures
        dyns_view(tail@) == dyns_view(pos@).subrange(k as int, pos@.len() as int),
{
    let mut tail: Vec<DynamicValue> = Vec::new();
    let mut j: usize = k;
    while j < pos.len()
        invariant
            k <= j <= pos@.len(),
            tail@.len() == j - k,
            forall|m: int| 0 <= m < tail@.len() ==> dyn_view(tail@[m]) == dyn_view(pos@[k + m]),
        decreases pos@.len() - j,
    {
        tail.push(clone_dynamic(&pos[j]));
        j += 1;
    }
    proof {
        assert(dyns_view(tail@) =~= dyns_view(pos@).subrange(k as int, pos@.len() as int));
    }
    tail
}

/// The first fixed parameter named `nm`, or `fixed.len()` when none is.
fn find_param(fixed: &Vec<Param>, nm: &String) -> (r: usize)
    ensures
        r as int == first_param_index(params_view(fixed@), nm@, 0),
        r <= fixed@.len(),
{
    let k = fixed.len();
    let mut j: usize = 0;
    while j < k
        invariant
            j <= k,
            k == fixed@.len(),
            first_param_index(params_view(fixed@), nm@, 0) == first_param_index(
                params_view(fixed@),
                nm@,
                j as int,
            ),
        decreases k - j,
    {
        if str_eq(&fixed[j].name, nm) {
            proof {
                assert(params_view(fixed@)[j as int].name == nm@);
            }
            return j;
        }
        proof {
            assert(params_view(fixed@)[j as int].name != nm@);
        }
        j += 1;
    }
    k
}

/// Assigns the named values from index `i` on: fills empty fixed slots,
/// collects the rest into the variadic-keyword slot, or fails.
fn assign_named(
    fixed: &Vec<Param>,
    has_kwargs: bool,
    named: &Vec<(String, DynamicValue)>,
    i: usize,
    slots: Vec<Option<DynamicValue>>,
    kwargs: Vec<(String, DynamicValue)>,
) -> (r: Result<(Vec<Option<DynamicValue>>, Vec<(String, DynamicValue)>), BindError>)
    requires
        i <= named@.len(),
        slots@.len() == fixed@.len(),
    ensures
        r matches Ok(filled) ==> filled.0@.len() == fixed@.len(),
        r matches Ok(filled) ==> spec_assign_named(
            params_view(fixed@),
            has_kwargs,
            named_view(named@),
            i as int,
            slots_view(slots@),
            named_view(kwargs@),
        ) == Ok::<_, BindErrV>((slots_view(filled.0@), named_view(filled.1@))),
        r matches Err(e) ==> spec_assign_named(
            params_view(fixed@),
            has_kwargs,
            named_view(named@),
            i as int,
            slots_view(slots@),
            named_view(kwargs@),
        ) == Err::<(Seq<Option<DynVal>>, Seq<(Seq<char>, DynVal)>), BindErrV>(e@),
    decreases named@.len() - i,
{
    if i == named.len() {
        Ok((slots, kwargs))
    } else {
        let nm = &named[i].0;
        let v = &named[i].1;
        let j = find_param(fixed, nm);
        proof {
            assert(named_view(named@)[i as int] == (nm@, dyn_view(*v)));
        }
        if j < fixed.len() {
            let filled = match &slots[j] {
                Some(_) => true,
                None => false,
            };
            if filled {
                proof {
                    assert(slots_view(slots@)[j as int] is Some);
                }
                Err(BindError::DuplicateArgument(clone_string(nm)))
            } else {
                let ghost slots_before = slots@;
                let mut slots = slots;
                slots.set(j, Some(clone_dynamic(v)));
                proof {
                    assert(slots_view(slots@) =~= slots_view(slots_before).update(
                        j as int,
                        Some(dyn_view(*v)),
                    ));
                }
                assign_named(fixed, has_kwargs, named, i + 1, slots, kwargs)
            }
        } else if has_kwargs {
            let ghost kwargs_before = kwargs@;
            let mut kwargs = kwargs;
            kwargs.push((clone_string(nm), clone_dynamic(v)));
            proof {
                assert(named_view(kwargs@) =~= named_view(kwargs_before).push(
                    (nm@, dyn_view(*v)),
                ));
            }
            assign_named(fixed, has_kwargs, named, i + 1, slots, kwargs)
        } else {
            Err(BindError::UnexpectedKeyword(clone_string(nm)))
        }
    }
}

/// The first unfilled fixed parameter without a default, from `j` on.
fn find_missing(fixed: &Vec<Param>, slots: &Vec<Option<DynamicValue>>, j: usize) -> (r: usize)
    requires
        j <= fixed@.len(),
        slots@.len() == fixed@.len(),
    ensures
        r as int == spec_first_missing(params_view(fixed@), slots_view(slots@), j as int),
        r <= fixed@.len(),
    decreases fixed@.len() - j,
{
    if j == fixed.len() {
        j
    } else {
        let covered = match &slots[j] {
            Some(_) => true,
            None => match &fixed[j].default {
                Some(_) => true,
                None => false,
            },
        };
        if covered {
            proof {
                assert(slots_view(slots@)[j as int] is Some || params_view(fixed@)[j as int].default
                    is Some);
            }
            find_missing(fixed, slots, j + 1)
        } else {
            proof {
                assert(slots_view(slots@)[j as int] is None && params_view(fixed@)[j as int].default
                    is None);
            }
            j
        }
    }
}

/// Converts the filled slots from index `j` on into native fixed
/// arguments.
fn convert_fixed(fixed: &Vec<Param>, slots: &Vec<Option<DynamicValue>>, j: usize) -> (r: Result<
    Vec<NativeValue>,
    BindError,
>)
    requires
        j <= fixed@.len(),
        slots@.len() == fixed@.len(),
        forall|m: int|
            j <= m < fixed@.len() ==> slots_view(slots@)[m] is Some || params_view(
                fixed@,
            )[m].default is Some,
    ensures
        r matches Ok(args) ==> spec_convert_fixed(
            params_view(fixed@),
            slots_view(slots@),
            j as int,
        ) == Ok::<_, BindErrV>(nats_view(args@)),
        r matches Err(e) ==> spec_convert_fixed(
            params_view(fixed@),
            slots_view(slots@),
            j as int,
        ) == Err::<Seq<NatVal>, BindErrV>(e@),
    decreases fixed@.len() - j,
{
    if j == fixed.len() {
        let args: Vec<NativeValue> = Vec::new();
        proof {
            assert(nats_view(args@) =~= Seq::<NatVal>::empty());
        }
        Ok(args)
    } else {
        let v: &DynamicValue = match &slots[j] {
            Some(v) => v,
            None => match &fixed[j].default {
                Some(d) => d,
                None => {
                    proof {
                        assert(false);
                    }
                    vstd::pervasive::unreached()
                },
            },
        };
        proof {
            assert(slots_view(slots@)[j as int] matches Some(x) ==> x == dyn_view(*v));
        }
        match to_native(v, &fixed[j].ty) {
            Err(e) => Err(BindError::ConversionFailure(clone_string(&fixed[j].name), e)),
            Ok(n) => match convert_fixed(fixed, slots, j + 1) {
                Err(e) => Err(e),
                Ok(rest) => {
                    let mut args: Vec<NativeValue> = Vec::new();
                    args.push(n);
                    let mut rest = rest;
                    args.append(&mut rest);
                    proof {
                        assert(nats_view(args@) =~= seq![nat_view(n)] + spec_convert_fixed(
                            params_view(fixed@),
                            slots_view(slots@),
                            j as int + 1,
                        )->Ok_0);
                    }
                    Ok(args)
                },
            },
        }
    }
}

/// No parameter is reported missing when every slot is filled.
proof fn lemma_no_missing(fixed: Seq<ParamV>, slots: Seq<Option<DynVal>>, j: int)
    requires
        0 <= j,
        slots.len() == fixed.len(),
        forall|m: int| 0 <= m < slots.len() ==> slots[m] is Some,
    ensures
        spec_first_missing(fixed, slots, j) == fixed.len(),
    decreases fixed.len() - j,
{
    if j < fixed.len() {
        lemma_no_missing(fixed, slots, j + 1);
    }
}

/// When every slot from `j` on is filled and converts, converting the
/// fixed arguments succeeds and yields the converted slots in order.
proof fn lemma_convert_all_ok(fixed: Seq<ParamV>, slots: Seq<Option<DynVal>>, j: int)
    requires
        0 <= j <= fixed.len(),
        slots.len() == fixed.len(),
        forall|m: int|
            j <= m < slots.len() ==> (#[trigger] slots[m]) is Some && spec_to_native(
                slots[m]->0,
                fixed[m].ty,
            ) is Ok,
    ensures
        spec_convert_fixed(fixed, slots, j) is Ok,
        spec_convert_fixed(fixed, slots, j) matches Ok(args) ==> args.len() == fixed.len() - j,
        spec_convert_fixed(fixed, slots, j) matches Ok(args) ==> forall|m: int|
            j <= m < fixed.len() ==> args[m - j] == spec_to_native(
                slots[m]->0,
                fixed[m].ty,
            )->Ok_0,
    decreases fixed.len() - j,
{
    if j < fixed.len() {
        lemma_convert_all_ok(fixed, slots, j + 1);
        let n = spec_to_native(slots[j]->0, fixed[j].ty)->Ok_0;
        let rest = spec_convert_fixed(fixed, slots, j + 1)->Ok_0;
        let args = spec_convert_fixed(fixed, slots, j)->Ok_0;
        assert(args == seq![n] + rest);
        assert forall|m: int| j <= m < fixed.len() implies args[m - j] == spec_to_native(
            slots[m]->0,
            fixed[m].ty,
        )->Ok_0 by {
            if m > j {
                assert(args[m - j] == rest[m - (j + 1)]);
            }
        }
    }
}

/// Law: an invocation that supplies exactly the fixed parameters'
/// positional values, each convertible to its parameter's type, binds
/// successfully; the bound fixed arguments are the converted inputs in
/// declared order, and both variadic slots stay empty.
pub proof fn lemma_exact_positional_binding(sig: SigV, inv: InvV)
    requires
        inv.positional.len() == sig.fixed.len(),
        inv.named.len() == 0,
        forall|j: int|
            0 <= j < sig.fixed.len() ==> spec_to_native(
                #[trigger] inv.positional[j],
                sig.fixed[j].ty,
            ) is Ok,
    ensures
        spec_bind(sig, inv) matches Ok(b) && {
            &&& b.fixed_args.len() == sig.fixed.len()
            &&& forall|j: int|
                0 <= j < sig.fixed.len() ==> b.fixed_args[j] == spec_to_native(
                    inv.positional[j],
                    sig.fixed[j].ty,
                )->Ok_0
            &&& b.varargs == Seq::<DynVal>::empty()
            &&& b.kwargs == Seq::<(Seq<char>, DynVal)>::empty()
        },
{
    let k = sig.fixed.len();
    let slots0 = spec_initial_slots(k, inv.positional);
    lemma_no_missing(sig.fixed, slots0, 0);
    lemma_convert_all_ok(sig.fixed, slots0, 0);
}

/// Law: with a variadic-positional slot declared, three positional values
/// beyond the fixed parameters never overflow the call, and whenever
/// binding succeeds they land in that slot, in their original order.
pub proof fn lemma_variadic_tail_collected(sig: SigV, inv: InvV)
    requires
        sig.has_varargs,
        inv.positional.len() == sig.fixed.len() + 3,
    ensures
        spec_bind(sig, inv) != Err::<BoundV, BindErrV>(BindErrV::TooManyPositional),
        spec_bind(sig, inv) matches Ok(b) ==> {
            &&& b.varargs.len() == 3
            &&& b.varargs == inv.positional.subrange(
                sig.fixed.len() as int,
                inv.positional.len() as int,
            )
            &&& forall|j: int|
                0 <= j < 3 ==> b.varargs[j] == inv.positional[sig.fixed.len() + j]
        },
        inv.named.len() == 0 && (forall|j: int|
            0 <= j < sig.fixed.len() ==> spec_to_native(
                #[trigger] inv.positional[j],
                sig.fixed[j].ty,
            ) is Ok) ==> spec_bind(sig, inv) is Ok,
{
    let k = sig.fixed.len();
    let slots0 = spec_initial_slots(k, inv.positional);
    if inv.named.len() == 0 && (forall|j: int|
        0 <= j < sig.fixed.len() ==> spec_to_native(
            #[trigger] inv.positional[j],
            sig.fixed[j].ty,
        ) is Ok) {
        lemma_no_missing(sig.fixed, slots0, 0);
        lemma_convert_all_ok(sig.fixed, slots0, 0);
    }
    lemma_assign_named_keeps_no_error_kinds(sig.fixed, sig.has_kwargs, inv.named, 0, slots0, Seq::empty());
}

/// Named assignment never reports a positional overflow.
proof fn lemma_assign_named_keeps_no_error_kinds(
    fixed: Seq<ParamV>,
    has_kwargs: bool,
    named: Seq<(Seq<char>, DynVal)>,
    i: int,
    slots: Seq<Option<DynVal>>,
    kwargs: Seq<(Seq<char>, DynVal)>,
)
    ensures
        spec_assign_named(fixed, has_kwargs, named, i, slots, kwargs) != Err::<
            (Seq<Option<DynVal>>, Seq<(Seq<char>, DynVal)>),
            BindErrV,
        >(BindErrV::TooManyPositional),
        spec_assign_named(fixed, has_kwargs, named, i, slots, kwargs) matches Ok(filled)
            ==> spec_convert_fixed(fixed, filled.0, 0) != Err::<Seq<NatVal>, BindErrV>(
            BindErrV::TooManyPositional,
        ),
    decreases named.len() - i,
{
    if i < 0 || i >= named.len() {
        lemma_convert_fixed_not_positional(fixed, slots, 0);
    } else {
        let nm = named[i].0;
        let j = first_param_index(fixed, nm, 0);
        if j < fixed.len() {
            if !(0 <= j < slots.len() && slots[j] is Some) {
                lemma_assign_named_keeps_no_error_kinds(
                    fixed,
                    has_kwargs,
                    named,
                    i + 1,
                    slots.update(j, Some(named[i].1)),
                    kwargs,
                );
            }
        } else if has_kwargs {
            lemma_assign_named_keeps_no_error_kinds(
                fixed,
                has_kwargs,
                named,
                i + 1,
                slots,
                kwargs.push((nm, named[i].1)),
            );
        }
    }
}

/// Fixed-argument conversion never reports a positional overflow.
proof fn lemma_convert_fixed_not_positional(
    fixed: Seq<ParamV>,
    slots: Seq<Option<DynVal>>,
    j: int,
)
    ensures
        spec_convert_fixed(fixed, slots, j) != Err::<Seq<NatVal>, BindErrV>(
            BindErrV::TooManyPositional,
        ),
    decreases fixed.len() - j,
{
    if 0 <= j < fixed.len() {
        lemma_convert_fixed_not_positional(fixed, slots, j + 1);
    }
}

/// A name matching no fixed parameter scans to the end of the parameter
/// list.
proof fn lemma_first_param_index_none(fixed: Seq<ParamV>, nm: Seq<char>, j: int)
    requires
        0 <= j,
        forall|m: int| 0 <= m < fixed.len() ==> (#[trigger] fixed[m]).name != nm,
    ensures
        first_param_index(fixed, nm, j) == fixed.len(),
    decreases fixed.len() - j,
{
    if j < fixed.len() {
        lemma_first_param_index_none(fixed, nm, j + 1);
    }
}

/// Without a variadic-keyword slot, named assignment fails as soon as any
/// remaining named value matches no fixed parameter.
proof fn lemma_assign_named_fails(
    fixed: Seq<ParamV>,
    named: Seq<(Seq<char>, DynVal)>,
    t: int,
    i: int,
    slots: Seq<Option<DynVal>>,
    kwargs: Seq<(Seq<char>, DynVal)>,
)
    requires
        0 <= i <= t < named.len(),
        forall|m: int| 0 <= m < fixed.len() ==> (#[trigger] fixed[m]).name != named[t].0,
    ensures
        spec_assign_named(fixed, false, named, i, slots, kwargs) is Err,
    decreases t - i,
{
    if i == t {
        lemma_first_param_index_none(fixed, named[t].0, 0);
    } else {
        let nm = named[i].0;
        let j = first_param_index(fixed, nm, 0);
        if j < fixed.len() {
            if !(0 <= j < slots.len() && slots[j] is Some) {
                lemma_assign_named_fails(fixed, named, t, i + 1, slots.update(j, Some(named[i].1)), kwargs);
            }
        }
    }
}

/// Law: without a variadic-keyword slot, an invocation holding any named
/// value whose name matches no fixed parameter fails to bind; no call is
/// ever assembled for it.
pub proof fn lemma_unexpected_keyword_rejected(sig: SigV, inv: InvV, i: int)
    requires
        !sig.has_kwargs,
        0 <= i < inv.named.len(),
        forall|m: int| 0 <= m < sig.fixed.len() ==> (#[trigger] sig.fixed[m]).name != inv.named[i].0,
    ensures
        spec_bind(sig, inv) is Err,
{
    let k = sig.fixed.len();
    if !(inv.positional.len() > k && !sig.has_varargs) {
        let slots0 = spec_initial_slots(k, inv.positional);
        lemma_assign_named_fails(sig.fixed, inv.named, i, 0, slots0, Seq::empty());
    }
}

/// Law: without a variadic-keyword slot, when the first named value
/// matches no fixed parameter and the positional values fit, binding
/// fails precisely with unexpected-keyword naming that value.
pub proof fn lemma_first_unexpected_keyword(sig: SigV, inv: InvV)
    requires
        !sig.has_kwargs,
        inv.positional.len() <= sig.fixed.len() || sig.has_varargs,
        inv.named.len() > 0,
        forall|m: int| 0 <= m < sig.fixed.len() ==> (#[trigger] sig.fixed[m]).name != inv.named[0].0,
    ensures
        spec_bind(sig, inv) == Err::<BoundV, BindErrV>(
            BindErrV::UnexpectedKeyword(inv.named[0].0),
        ),
{
    lemma_first_param_index_none(sig.fixed, inv.named[0].0, 0);
}

/// Binds a host invocation onto a native signature, yielding either a
/// fully bound and converted call or the first binding failure.
pub fn bind(sig: &NativeSignature, inv: &Invocation) -> (r: Result<BoundCall, BindError>)
    ensures
        r matches Ok(b) ==> spec_bind(sig@, inv@) == Ok::<BoundV, BindErrV>(b@),
        r matches Err(e) ==> spec_bind(sig@, inv@) == Err::<BoundV, BindErrV>(e@),
{
    let k = sig.fixed.len();
    if inv.positional.len() > k && !sig.has_varargs {
        return Err(BindError::TooManyPositional);
    }
    let varargs = if inv.positional.len() > k {
        collect_varargs(k, &inv.positional)
    } else {
        let none: Vec<DynamicValue> = Vec::new();
        proof {
            assert(dyns_view(none@) =~= Seq::<DynVal>::empty());
        }
        none
    };
    let slots0 = fill_slots(k, &inv.positional);
    let empty_kwargs: Vec<(String, DynamicValue)> = Vec::new();
    proof {
        assert(named_view(empty_kwargs@) =~= Seq::<(Seq<char>, DynVal)>::empty());
    }
    match assign_named(&sig.fixed, sig.has_kwargs, &inv.named, 0, slots0, empty_kwargs) {
        Err(e) => Err(e),
        Ok((slots, kwargs)) => {
            let m = find_missing(&sig.fixed, &slots, 0);
            if m < k {
                Err(BindError::MissingRequired(clone_string(&sig.fixed[m].name)))
            } else {
                proof {
                    lemma_first_missing_covers(params_view(sig.fixed@), slots_view(slots@), 0);
                }
                match convert_fixed(&sig.fixed, &slots, 0) {
                    Err(e) => Err(e),
                    Ok(args) => Ok(BoundCall { fixed_args: args, varargs, kwargs }),
                }
            }
        },
    }
}

} // verus!
