//! Native function signatures and host invocations.
//!
//! A signature declares the fixed parameters in order, and whether the
//! function accepts a variadic-positional tail and a variadic-keyword
//! mapping; both variadic slots come after all fixed parameters by
//! construction. An invocation is what the host supplies at call time.

use vstd::prelude::*;

use crate::value::DynVal;
use crate::value::DynamicValue;
use crate::value::NativeType;
use crate::value::str_eq;

verus! {

/// One fixed parameter: a name, the native type its value converts to,
/// and an optional default used when no argument reaches it.
#[derive(Debug)]
pub struct Param {
    pub name: String,
    pub ty: NativeType,
    pub default: Option<DynamicValue>,
}

/// The mathematical model of a `Param`.
pub struct ParamV {
    pub name: Seq<char>,
    pub ty: NativeType,
    pub default: Option<DynVal>,
}

impl View for Param {
    type V = ParamV;

    open spec fn view(&self) -> ParamV {
        ParamV {
            name: self.name@,
            ty: self.ty,
            default: match self.default {
                Some(d) => Some(d@),
                None => None,
            },
        }
    }
}

/// The models of a sequence of parameters.
pub open spec fn params_view(s: Seq<Param>) -> Seq<ParamV> {
    s.map_values(|p: Param| p@)
}

/// A native function's declared signature.
#[derive(Debug)]
pub struct NativeSignature {
    /// The named, typed fixed parameters, in declared order.
    pub fixed: Vec<Param>,
    /// Whether positional values beyond the fixed parameters are collected
    /// into a variadic-positional slot.
    pub has_varargs: bool,
    /// Whether named values matching no fixed parameter are collected into
    /// a variadic-keyword slot.
    pub has_kwargs: bool,
}

/// The mathematical model of a `NativeSignature`.
pub struct SigV {
    pub fixed: Seq<ParamV>,
    pub has_varargs: bool,
    pub has_kwargs: bool,
}

impl View for NativeSignature {
    type V = SigV;

    open spec fn view(&self) -> SigV {
        SigV {
            fixed: params_view(self.fixed@),
            has_varargs: self.has_varargs,
            has_kwargs: self.has_kwargs,
        }
    }
}

/// A signature is well formed when its parameter names are distinct.
pub open spec fn sig_well_formed(s: SigV) -> bool {
    forall|i: int, j: int|
        0 <= i < j < s.fixed.len() ==> s.fixed[i].name != s.fixed[j].name
}

/// Checks that a signature's shape is valid: no two fixed parameters
/// share a name.
pub fn signature_shape_valid(sig: &NativeSignature) -> (r: bool)
    ensures
        r == sig_well_formed(sig@),
{
    let k = sig.fixed.len();
    let mut i: usize = 0;
    while i < k
        invariant
            i <= k,
            k == sig.fixed.len(),
            forall|a: int, b: int|
                0 <= a < b < k && a < i ==> sig@.fixed[a].name != sig@.fixed[b].name,
        decreases k - i,
    {
        let mut j: usize = i + 1;
        while j < k
            invariant
                i < j <= k,
                k == sig.fixed.len(),
                forall|b: int| i < b < j ==> sig@.fixed[i as int].name != sig@.fixed[b].name,
            decreases k - j,
        {
            if str_eq(&sig.fixed[i].name, &sig.fixed[j].name) {
                proof {
                    assert(sig@.fixed[i as int].name == sig@.fixed[j as int].name);
                }
                return false;
            }
            j += 1;
        }
        i += 1;
    }
    true
}

/// What the host supplies at call time: ordered positional values and a
/// mapping of named values, kept in the order the host submitted them.
#[derive(Debug)]
pub struct Invocation {
    pub positional: Vec<DynamicValue>,
    pub named: Vec<(String, DynamicValue)>,
}

/// The mathematical model of an `Invocation`.
pub struct InvV {
    pub positional: Seq<DynVal>,
    pub named: Seq<(Seq<char>, DynVal)>,
}

/// The models of a sequence of named values.
pub open spec fn named_view(s: Seq<(String, DynamicValue)>) -> Seq<(Seq<char>, DynVal)> {
    s.map_values(|p: (String, DynamicValue)| (p.0@, p.1@))
}

impl View for Invocation {
    type V = InvV;

    open spec fn view(&self) -> InvV {
        InvV { positional: crate::value::dyns_view(self.positional@), named: named_view(self.named@) }
    }
}

} // verus!
