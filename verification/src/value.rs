//! Dynamic host values, native typed values, and the mathematical models
//! of both.
//!
//! A host runtime hands the bridge values whose type is unknown until
//! inspected; they are modelled as a closed set of tagged variants. Native
//! code works on typed values drawn from the supported native type set.

use vstd::prelude::*;
use vstd::string::StringExecFns;

verus! {

/// A value of the host runtime: a closed set of tagged variants.
///
/// Floating-point values lie outside the verified library.
#[derive(Debug, PartialEq, Eq)]
pub enum DynamicValue {
    /// A host integer.
    Int(i64),
    /// A host string (UTF-8).
    Str(String),
    /// A host boolean.
    Bool(bool),
    /// A host sequence of further dynamic values.
    Sequence(Vec<DynamicValue>),
    /// An opaque native handle, identified by the number the bridge gave it.
    Handle(u64),
}

/// The mathematical model of a `DynamicValue`.
pub enum DynVal {
    Int(int),
    Str(Seq<char>),
    Bool(bool),
    Sequence(Seq<DynVal>),
    Handle(nat),
}

/// The model of a dynamic value: tags kept, payloads abstracted.
pub open spec fn dyn_view(v: DynamicValue) -> DynVal
    decreases v,
{
    match v {
        DynamicValue::Int(i) => DynVal::Int(i as int),
        DynamicValue::Str(s) => DynVal::Str(s@),
        DynamicValue::Bool(b) => DynVal::Bool(b),
        DynamicValue::Sequence(vs) => DynVal::Sequence(dyns_view(vs@)),
        DynamicValue::Handle(h) => DynVal::Handle(h as nat),
    }
}

/// The models of the elements of a sequence of dynamic values.
pub open spec fn dyns_view(s: Seq<DynamicValue>) -> Seq<DynVal>
    decreases s,
{
    Seq::new(s.len(), |i: int| if 0 <= i < s.len() {
        dyn_view(s[i])
    } else {
        DynVal::Bool(false)
    })
}

impl View for DynamicValue {
    type V = DynVal;

    open spec fn view(&self) -> DynVal {
        dyn_view(*self)
    }
}

/// A native type that the conversion layer supports.
#[derive(Debug, PartialEq, Eq)]
pub enum NativeType {
    /// 64-bit signed integer.
    I64,
    /// 32-bit signed integer, range-checked on conversion.
    I32,
    /// 32-bit unsigned integer, range-checked on conversion.
    U32,
    /// UTF-8 string.
    Str,
    /// Boolean.
    Bool,
    /// Homogeneous sequence of a further native type.
    SeqOf(Box<NativeType>),
    /// Opaque handle, passed through by identity.
    Handle,
}

/// A native typed value, the result of a successful conversion.
#[derive(Debug, PartialEq, Eq)]
pub enum NativeValue {
    I64(i64),
    I32(i32),
    U32(u32),
    Str(String),
    Bool(bool),
    Sequence(Vec<NativeValue>),
    Handle(u64),
}

/// The mathematical model of a `NativeValue`.
pub enum NatVal {
    I64(int),
    I32(int),
    U32(int),
    Str(Seq<char>),
    Bool(bool),
    Sequence(Seq<NatVal>),
    Handle(nat),
}

/// The model of a native value: widths kept, payloads abstracted.
pub open spec fn nat_view(n: NativeValue) -> NatVal
    decreases n,
{
    match n {
        NativeValue::I64(i) => NatVal::I64(i as int),
        NativeValue::I32(i) => NatVal::I32(i as int),
        NativeValue::U32(i) => NatVal::U32(i as int),
        NativeValue::Str(s) => NatVal::Str(s@),
        NativeValue::Bool(b) => NatVal::Bool(b),
        NativeValue::Sequence(ns) => NatVal::Sequence(nats_view(ns@)),
        NativeValue::Handle(h) => NatVal::Handle(h as nat),
    }
}

/// The models of the elements of a sequence of native values.
pub open spec fn nats_view(s: Seq<NativeValue>) -> Seq<NatVal>
    decreases s,
{
    Seq::new(s.len(), |i: int| if 0 <= i < s.len() {
        nat_view(s[i])
    } else {
        NatVal::Bool(false)
    })
}

impl View for NativeValue {
    type V = NatVal;

    open spec fn view(&self) -> NatVal {
        nat_view(*self)
    }
}

/// A fresh copy of a string, equal in characters to the original.
pub fn clone_string(s: &String) -> (r: String)
    ensures
        r@ == s@,
{
    String::from_str(s.as_str())
}

/// Whether two strings hold the same characters.
///
/// Relies on `String`'s `PartialEq`: string equality is equality of the
/// character sequences.
#[verifier::external_body]
pub fn str_eq(a: &String, b: &String) -> (r: bool)
    ensures
        r == (a@ == b@),
{
    a == b
}

/// A fresh copy of a dynamic value, equal in model to the original.
pub fn clone_dynamic(v: &DynamicValue) -> (r: DynamicValue)
    ensures
        r@ == v@,
    decreases *v, 1nat,
{
    match v {
        DynamicValue::Int(i) => DynamicValue::Int(*i),
        DynamicValue::Str(s) => DynamicValue::Str(clone_string(s)),
        DynamicValue::Bool(b) => DynamicValue::Bool(*b),
        DynamicValue::Sequence(vs) => {
            let ds = clone_dynamic_seq(vs, 0);
            let r = DynamicValue::Sequence(ds);
            proof {
                assert(dyns_view(ds@) =~= dyns_view(vs@));
            }
            r
        },
        DynamicValue::Handle(h) => DynamicValue::Handle(*h),
    }
}

/// Fresh copies of the elements of `vs` from index `i` on.
fn clone_dynamic_seq(vs: &Vec<DynamicValue>, i: usize) -> (ds: Vec<DynamicValue>)
    requires
        i <= vs.len(),
    ensures
        ds@.len() == vs@.len() - i,
        forall|j: int| 0 <= j < ds@.len() ==> dyn_view(ds@[j]) == dyn_view(vs@[i + j]),
    decreases *vs, vs.len() - i + 1,
{
    if i == vs.len() {
        Vec::new()
    } else {
        let d = clone_dynamic(&vs[i]);
        let rest = clone_dynamic_seq(vs, i + 1);
        let mut ds: Vec<DynamicValue> = Vec::new();
        ds.push(d);
        let mut rest = rest;
        ds.append(&mut rest);
        ds
    }
}

} // verus!
