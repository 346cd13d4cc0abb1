//! The value conversion layer: between dynamic host values and native
//! typed values, in both directions, fallible toward the native side.
//!
//! A conversion fails, never panics, when the dynamic value's tag does not
//! match the requested native type or when a number overflows the target
//! width. Sequence conversion fails on the first failing element and
//! records the path of element indices down to it.

use vstd::prelude::*;

use crate::value::DynVal;
use crate::value::DynamicValue;
use crate::value::NatVal;
use crate::value::NativeType;
use crate::value::NativeValue;
use crate::value::clone_string;
use crate::value::dyn_view;
use crate::value::dyns_view;

verus! {

/// Why a conversion failed.
#[derive(Debug, Clone, Copy, PartialEq, Eq)]
pub enum ConversionErrorKind {
    /// The dynamic value's tag does not match the requested native type.
    TypeMismatch,
    /// The number does not fit the requested width.
    OutOfRange,
    /// Host bytes were not valid UTF-8.
    InvalidUtf8,
}

/// A typed conversion failure. `path` holds the element indices, outermost
/// first, that lead to the failing element of a (possibly nested) sequence;
/// it is empty when a scalar itself failed.
#[derive(Debug, Clone, PartialEq, Eq)]
pub struct ConversionError {
    pub kind: ConversionErrorKind,
    pub path: Vec<usize>,
}

/// The mathematical model of a `ConversionError`.
pub struct ConvErrV {
    pub kind: ConversionErrorKind,
    pub path: Seq<int>,
}

impl View for ConversionError {
    type V = ConvErrV;

    open spec fn view(&self) -> ConvErrV {
        ConvErrV { kind: self.kind, path: self.path@.map_values(|x: usize| x as int) }
    }
}

/// Least value of a 32-bit signed integer.
pub const I32_MIN: i64 = -2147483648;

/// Greatest value of a 32-bit signed integer.
pub const I32_MAX: i64 = 2147483647;

/// Greatest value of a 32-bit unsigned integer.
pub const U32_MAX: i64 = 4294967295;

/// What converting one dynamic value to one native type yields.
pub open spec fn spec_to_native(v: DynVal, t: NativeType) -> Result<NatVal, ConvErrV>
    decreases t, 1nat,
{
    match t {
        NativeType::I64 => match v {
            DynVal::Int(i) => Ok(NatVal::I64(i)),
            _ => Err(ConvErrV { kind: ConversionErrorKind::TypeMismatch, path: Seq::empty() }),
        },
        NativeType::I32 => match v {
            DynVal::Int(i) => if I32_MIN <= i <= I32_MAX {
                Ok(NatVal::I32(i))
            } else {
                Err(ConvErrV { kind: ConversionErrorKind::OutOfRange, path: Seq::empty() })
            },
            _ => Err(ConvErrV { kind: ConversionErrorKind::TypeMismatch, path: Seq::empty() }),
        },
        NativeType::U32 => match v {
            DynVal::Int(i) => if 0 <= i <= U32_MAX {
                Ok(NatVal::U32(i))
            } else {
                Err(ConvErrV { kind: ConversionErrorKind::OutOfRange, path: Seq::empty() })
            },
            _ => Err(ConvErrV { kind: ConversionErrorKind::TypeMismatch, path: Seq::empty() }),
        },
        NativeType::Str => match v {
            DynVal::Str(s) => Ok(NatVal::Str(s)),
            _ => Err(ConvErrV { kind: ConversionErrorKind::TypeMismatch, path: Seq::empty() }),
        },
        NativeType::Bool => match v {
            DynVal::Bool(b) => Ok(NatVal::Bool(b)),
            _ => Err(ConvErrV { kind: ConversionErrorKind::TypeMismatch, path: Seq::empty() }),
        },
        NativeType::Handle => match v {
            DynVal::Handle(h) => Ok(NatVal::Handle(h)),
            _ => Err(ConvErrV { kind: ConversionErrorKind::TypeMismatch, path: Seq::empty() }),
        },
        NativeType::SeqOf(et) => match v {
            DynVal::Sequence(vs) => match spec_seq_to_native(vs, *et, 0) {
                Ok(ns) => Ok(NatVal::Sequence(ns)),
                Err(e) => Err(e),
            },
            _ => Err(ConvErrV { kind: ConversionErrorKind::TypeMismatch, path: Seq::empty() }),
        },
    }
}

/// What converting the elements of `vs` from index `i` on yields: the
/// converted tail, or the failure of the first failing element with its
/// index prepended to the path.
pub open spec fn spec_seq_to_native(vs: Seq<DynVal>, et: NativeType, i: int) -> Result<
    Seq<NatVal>,
    ConvErrV,
>
    recommends
        0 <= i <= vs.len(),
    decreases et, vs.len() - i + 1,
{
    if i < 0 || i >= vs.len() {
        Ok(Seq::empty())
    } else {
        match spec_to_native(vs[i], et) {
            Err(e) => Err(ConvErrV { kind: e.kind, path: seq![i] + e.path }),
            Ok(n) => match spec_seq_to_native(vs, et, i + 1) {
                Ok(rest) => Ok(seq![n] + rest),
                Err(e) => Err(e),
            },
        }
    }
}

/// What converting a native value back to a dynamic value yields. This
/// direction is total: every native value has a dynamic counterpart.
pub open spec fn spec_to_dynamic(n: NatVal) -> DynVal
    decreases n, 1nat,
{
    match n {
        NatVal::I64(i) => DynVal::Int(i),
        NatVal::I32(i) => DynVal::Int(i),
        NatVal::U32(i) => DynVal::Int(i),
        NatVal::Str(s) => DynVal::Str(s),
        NatVal::Bool(b) => DynVal::Bool(b),
        NatVal::Sequence(ns) => DynVal::Sequence(spec_seq_to_dynamic(ns)),
        NatVal::Handle(h) => DynVal::Handle(h),
    }
}

/// Elementwise counterpart of `spec_to_dynamic` on sequences.
pub open spec fn spec_seq_to_dynamic(ns: Seq<NatVal>) -> Seq<DynVal>
    decreases ns, 0nat,
{
    Seq::new(ns.len(), |i: int| if 0 <= i < ns.len() {
        spec_to_dynamic(ns[i])
    } else {
        DynVal::Bool(false)
    })
}

/// Converts one dynamic value to the requested native type.
pub fn to_native(v: &DynamicValue, t: &NativeType) -> (r: Result<NativeValue, ConversionError>)
    ensures
        r matches Ok(n) ==> spec_to_native(v@, *t) == Ok::<NatVal, ConvErrV>(n@),
        r matches Err(e) ==> spec_to_native(v@, *t) == Err::<NatVal, ConvErrV>(e@),
    decreases *t, 1nat,
{
    match t {
        NativeType::I64 => match v {
            DynamicValue::Int(i) => Ok(NativeValue::I64(*i)),
            _ => Err(mismatch()),
        },
        NativeType::I32 => match v {
            DynamicValue::Int(i) => if I32_MIN <= *i && *i <= I32_MAX {
                Ok(NativeValue::I32(*i as i32))
            } else {
                Err(out_of_range())
            },
            _ => Err(mismatch()),
        },
        NativeType::U32 => match v {
            DynamicValue::Int(i) => if 0 <= *i && *i <= U32_MAX {
                Ok(NativeValue::U32(*i as u32))
            } else {
                Err(out_of_range())
            },
            _ => Err(mismatch()),
        },
        NativeType::Str => match v {
            DynamicValue::Str(s) => Ok(NativeValue::Str(clone_string(s))),
            _ => Err(mismatch()),
        },
        NativeType::Bool => match v {
            DynamicValue::Bool(b) => Ok(NativeValue::Bool(*b)),
            _ => Err(mismatch()),
        },
        NativeType::Handle => match v {
            DynamicValue::Handle(h) => Ok(NativeValue::Handle(*h)),
            _ => Err(mismatch()),
        },
        NativeType::SeqOf(et) => match v {
            DynamicValue::Sequence(vs) => match to_native_seq(vs, et, 0) {
                Ok(ns) => Ok(NativeValue::Sequence(ns)),
                Err(e) => Err(e),
            },
            _ => Err(mismatch()),
        },
    }
}

/// An out-of-range failure with an empty path.
fn out_of_range() -> (r: ConversionError)
    ensures
        r@ == (ConvErrV { kind: ConversionErrorKind::OutOfRange, path: Seq::empty() }),
{
    let r = ConversionError { kind: ConversionErrorKind::OutOfRange, path: Vec::new() };
    proof {
        assert(r@.path =~= Seq::<int>::empty());
    }
    r
}

/// A type-mismatch failure with an empty path.
fn mismatch() -> (r: ConversionError)
    ensures
        r@ == (ConvErrV { kind: ConversionErrorKind::TypeMismatch, path: Seq::empty() }),
{
    let r = ConversionError { kind: ConversionErrorKind::TypeMismatch, path: Vec::new() };
    proof {
        assert(r@.path =~= Seq::<int>::empty());
    }
    r
}

/// Converts the elements of `vs` from index `i` on, stopping at the first
/// failing element.
fn to_native_seq(vs: &Vec<DynamicValue>, et: &NativeType, i: usize) -> (r: Result<
    Vec<NativeValue>,
    ConversionError,
>)
    requires
        i <= vs.len(),
    ensures
        match r {
            Ok(ns) => spec_seq_to_native(dyns_view(vs@), *et, i as int) == Ok::<
                Seq<NatVal>,
                ConvErrV,
            >(crate::value::nats_view(ns@)),
            Err(e) => spec_seq_to_native(dyns_view(vs@), *et, i as int) == Err::<
                Seq<NatVal>,
                ConvErrV,
            >(e@),
        },
    decreases *et, vs.len() - i + 1,
{
    let ghost dvs = dyns_view(vs@);
    if i == vs.len() {
        let ns: Vec<NativeValue> = Vec::new();
        proof {
            assert(crate::value::nats_view(ns@) =~= Seq::<NatVal>::empty());
        }
        Ok(ns)
    } else {
        match to_native(&vs[i], et) {
            Err(e) => {
                let mut path: Vec<usize> = Vec::new();
                path.push(i);
                let mut tail = e.path;
                path.append(&mut tail);
                let out = ConversionError { kind: e.kind, path };
                proof {
                    assert(out@.path =~= seq![i as int] + e@.path);
                    assert(dvs[i as int] == dyn_view(vs@[i as int]));
                }
                Err(out)
            },
            Ok(n) => {
                match to_native_seq(vs, et, i + 1) {
                    Err(e) => {
                        proof {
                            assert(dvs[i as int] == dyn_view(vs@[i as int]));
                        }
                        Err(e)
                    },
                    Ok(rest) => {
                        let mut ns: Vec<NativeValue> = Vec::new();
                        ns.push(n);
                        let mut rest = rest;
                        ns.append(&mut rest);
                        proof {
                            assert(dvs[i as int] == dyn_view(vs@[i as int]));
                            assert(crate::value::nats_view(ns@) =~= seq![crate::value::nat_view(n)]
                                + spec_seq_to_native(dvs, *et, i as int + 1)->Ok_0);
                        }
                        Ok(ns)
                    },
                }
            },
        }
    }
}

/// Converts a native value back to its dynamic counterpart.
pub fn to_dynamic(n: &NativeValue) -> (d: DynamicValue)
    ensures
        d@ == spec_to_dynamic(n@),
    decreases *n, 1nat,
{
    match n {
        NativeValue::I64(i) => DynamicValue::Int(*i),
        NativeValue::I32(i) => DynamicValue::Int(*i as i64),
        NativeValue::U32(i) => DynamicValue::Int(*i as i64),
        NativeValue::Str(s) => DynamicValue::Str(clone_string(s)),
        NativeValue::Bool(b) => DynamicValue::Bool(*b),
        NativeValue::Sequence(ns) => {
            let ds = to_dynamic_seq(ns, 0);
            let d = DynamicValue::Sequence(ds);
            proof {
                assert(dyns_view(ds@) =~= spec_seq_to_dynamic(crate::value::nats_view(ns@)));
            }
            d
        },
        NativeValue::Handle(h) => DynamicValue::Handle(*h),
    }
}

/// Converts the elements of `ns` from index `i` on back to dynamic values.
fn to_dynamic_seq(ns: &Vec<NativeValue>, i: usize) -> (ds: Vec<DynamicValue>)
    requires
        i <= ns.len(),
    ensures
        ds@.len() == ns@.len() - i,
        forall|j: int|
            0 <= j < ds@.len() ==> dyn_view(ds@[j]) == spec_to_dynamic(
                crate::value::nat_view(ns@[i + j]),
            ),
    decreases *ns, ns.len() - i + 1,
{
    if i == ns.len() {
        Vec::new()
    } else {
        let d = to_dynamic(&ns[i]);
        let rest = to_dynamic_seq(ns, i + 1);
        let mut ds: Vec<DynamicValue> = Vec::new();
        ds.push(d);
        let mut rest = rest;
        ds.append(&mut rest);
        ds
    }
}

/// Law: conversion is a round trip. Whatever native type a dynamic value
/// converts to, converting the result back yields the original value; no
/// successful conversion loses information.
pub proof fn lemma_conversion_round_trip(v: DynVal, t: NativeType)
    ensures
        spec_to_native(v, t) matches Ok(n) ==> spec_to_dynamic(n) == v,
    decreases t, 1nat,
{
    match t {
        NativeType::SeqOf(et) => match v {
            DynVal::Sequence(vs) => {
                lemma_seq_round_trip(vs, *et, 0);
                let converted = spec_seq_to_native(vs, *et, 0);
                if converted is Ok {
                    assert(spec_seq_to_dynamic(converted->Ok_0) =~= vs);
                }
            },
            _ => {},
        },
        _ => {},
    }
}

/// Inductive companion of the round-trip law for sequence elements.
pub proof fn lemma_seq_round_trip(vs: Seq<DynVal>, et: NativeType, i: int)
    requires
        0 <= i <= vs.len(),
    ensures
        spec_seq_to_native(vs, et, i) matches Ok(ns) ==> {
            &&& ns.len() == vs.len() - i
            &&& forall|j: int| 0 <= j < ns.len() ==> spec_to_dynamic(ns[j]) == vs[i + j]
        },
    decreases et, vs.len() - i + 1,
{
    if i < vs.len() {
        lemma_conversion_round_trip(vs[i], et);
        lemma_seq_round_trip(vs, et, i + 1);
    }
}

/// The characters that a byte sequence decodes to when it is valid UTF-8,
/// and nothing when it is not; a function of the bytes alone.
pub uninterp spec fn utf8_decoding(bytes: Seq<u8>) -> Option<Seq<char>>;

/// Relies on `String::from_utf8`: decoding succeeds exactly on valid
/// UTF-8, and the characters depend on the bytes alone.
#[verifier::external_body]
fn decode_utf8(bytes: Vec<u8>) -> (r: Option<String>)
    ensures
        r matches Some(s) ==> utf8_decoding(bytes@) == Some(s@),
        r is None ==> utf8_decoding(bytes@) is None,
{
    match String::from_utf8(bytes) {
        Ok(s) => Some(s),
        Err(_) => None,
    }
}

/// Converts raw host bytes into a dynamic string value: the decoded
/// characters when the bytes are valid UTF-8, and an invalid-UTF-8
/// conversion failure otherwise.
pub fn string_from_host_bytes(bytes: Vec<u8>) -> (r: Result<DynamicValue, ConversionError>)
    ensures
        r matches Ok(d) ==> (utf8_decoding(bytes@) matches Some(cs) && d@ == DynVal::Str(cs)),
        r matches Err(e) ==> utf8_decoding(bytes@) is None && e@ == (ConvErrV {
            kind: ConversionErrorKind::InvalidUtf8,
            path: Seq::empty(),
        }),
{
    match decode_utf8(bytes) {
        Some(s) => Ok(DynamicValue::Str(s)),
        None => {
            let e = ConversionError { kind: ConversionErrorKind::InvalidUtf8, path: Vec::new() };
            proof {
                assert(e@.path =~= Seq::<int>::empty());
            }
            Err(e)
        },
    }
}

/// Law: an integer outside the requested width is rejected as out of
/// range, never truncated.
pub proof fn lemma_out_of_range_rejected(i: int)
    ensures
        (i < I32_MIN || i > I32_MAX) ==> spec_to_native(DynVal::Int(i), NativeType::I32) == Err::<
            NatVal,
            ConvErrV,
        >(ConvErrV { kind: ConversionErrorKind::OutOfRange, path: Seq::empty() }),
        (i < 0 || i > U32_MAX) ==> spec_to_native(DynVal::Int(i), NativeType::U32) == Err::<
            NatVal,
            ConvErrV,
        >(ConvErrV { kind: ConversionErrorKind::OutOfRange, path: Seq::empty() }),
{
}

} // verus!
