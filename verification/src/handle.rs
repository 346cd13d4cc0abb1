//! Opaque native handles: native state owned exclusively behind a
//! host-visible reference, with a teardown that runs exactly once, and
//! method dispatch bound to a declared class.
//!
//! The host alone decides when a handle is released; the bridge only
//! guarantees that the teardown work happens at most once, that a released
//! handle accepts no further calls, and that a handle marked non-reentrant
//! rejects a call arriving while another is in flight.

use vstd::prelude::*;

use crate::bind::bind;
use crate::bind::spec_bind;
use crate::bind::BoundCall;
use crate::bind::BoundV;
use crate::error::bind_error_to_host;
use crate::error::spec_bind_error_message;
use crate::error::spec_translate;
use crate::error::translate;
use crate::error::HostExcV;
use crate::error::HostException;
use crate::error::HostExceptionCategory;
use crate::error::NativeErrV;
use crate::error::NativeError;
use crate::error::NativeErrorKind;
use crate::signature::Invocation;
use crate::signature::NativeSignature;
use crate::value::clone_string;
use crate::value::DynVal;
use crate::value::nats_view;
use crate::value::str_eq;
use crate::value::DynamicValue;
use crate::value::NatVal;
use crate::value::NativeValue;
use vstd::string::StringExecFns;

verus! {

/// What a registered method does with the handle's state and its bound
/// arguments.
#[derive(Debug)]
pub enum MethodImpl {
    /// Answers how many native values the state holds.
    StateLen,
    /// Appends the first bound fixed argument to the state.
    StatePush,
    /// Fails with an input/output failure carrying the given message, as
    /// a native body does when its underlying resource is unavailable.
    RaiseIo(String),
}

/// One method registered on a class: a host-visible name, the signature
/// its arguments bind against (the handle itself is implicit), a
/// documentation string, and the body.
#[derive(Debug)]
pub struct MethodDef {
    pub name: String,
    pub signature: NativeSignature,
    pub doc: String,
    pub body: MethodImpl,
}

/// A native class: the methods callable on handles of this class.
#[derive(Debug)]
pub struct ClassDef {
    pub methods: Vec<MethodDef>,
    pub doc: String,
}

/// An opaque handle owning a block of native state exclusively. The state
/// is reachable only through method calls; nothing else may look inside.
#[derive(Debug)]
pub struct NativeHandle {
    state: Vec<NativeValue>,
    released: bool,
    teardown_runs: u64,
    reentrant: bool,
    busy: bool,
}

impl NativeHandle {
    /// The model of the owned native state.
    pub closed spec fn spec_state(&self) -> Seq<NatVal> {
        nats_view(self.state@)
    }

    /// Whether the host has already released this handle.
    pub closed spec fn spec_released(&self) -> bool {
        self.released
    }

    /// How often the teardown work has run.
    pub closed spec fn spec_teardown_runs(&self) -> nat {
        self.teardown_runs as nat
    }

    /// Whether the handle accepts re-entrant calls.
    pub closed spec fn spec_reentrant(&self) -> bool {
        self.reentrant
    }

    /// Whether a call on this handle is in flight.
    pub closed spec fn spec_busy(&self) -> bool {
        self.busy
    }

    /// A handle's invariant: the teardown work has run exactly once when
    /// the handle is released and never before.
    pub open spec fn well_formed(&self) -> bool {
        self.spec_teardown_runs() == if self.spec_released() {
            1nat
        } else {
            0nat
        }
    }

    /// Wraps native state into a fresh, unreleased handle.
    pub fn wrap(state: Vec<NativeValue>, reentrant: bool) -> (h: NativeHandle)
        ensures
            h.well_formed(),
            !h.spec_released(),
            !h.spec_busy(),
            h.spec_reentrant() == reentrant,
            h.spec_state() == nats_view(state@),
    {
        NativeHandle { state, released: false, teardown_runs: 0, reentrant, busy: false }
    }

    /// The handle after one release: released, with the teardown work run
    /// exactly once over the handle's whole life.
    pub closed spec fn spec_release(h: NativeHandle) -> NativeHandle {
        NativeHandle {
            released: true,
            teardown_runs: if h.released {
                h.teardown_runs
            } else {
                (h.teardown_runs + 1) as u64
            },
            ..h
        }
    }

    /// Releases the handle. The first release runs the teardown work and
    /// reports `true`; any further release is a no-op reporting `false`.
    pub fn release(&mut self) -> (ran: bool)
        requires
            old(self).well_formed(),
        ensures
            *final(self) == Self::spec_release(*old(self)),
            final(self).well_formed(),
            final(self).spec_released(),
            ran == !old(self).spec_released(),
            final(self).spec_teardown_runs() == 1,
            final(self).spec_state() == old(self).spec_state(),
    {
        if self.released {
            false
        } else {
            self.released = true;
            self.teardown_runs = self.teardown_runs + 1;
            true
        }
    }

    /// Law: releasing a handle twice runs its teardown exactly once; the
    /// second release changes nothing.
    pub proof fn lemma_teardown_runs_once(h: NativeHandle)
        requires
            h.well_formed(),
            !h.spec_released(),
        ensures
            Self::spec_release(h).spec_teardown_runs() == 1,
            Self::spec_release(Self::spec_release(h)) == Self::spec_release(h),
    {
    }

    /// Marks a call on this handle as in flight; the host raises this
    /// before re-entering native code on the same handle.
    pub fn mark_busy(&mut self)
        ensures
            final(self).spec_busy(),
            final(self).spec_state() == old(self).spec_state(),
            final(self).spec_released() == old(self).spec_released(),
            final(self).spec_teardown_runs() == old(self).spec_teardown_runs(),
            final(self).spec_reentrant() == old(self).spec_reentrant(),
    {
        self.busy = true;
    }

    /// Clears the in-flight mark once the outer call has returned.
    pub fn clear_busy(&mut self)
        ensures
            !final(self).spec_busy(),
            final(self).spec_state() == old(self).spec_state(),
            final(self).spec_released() == old(self).spec_released(),
            final(self).spec_teardown_runs() == old(self).spec_teardown_runs(),
            final(self).spec_reentrant() == old(self).spec_reentrant(),
    {
        self.busy = false;
    }

    /// Calls a registered method of `class` on this handle: rejects a
    /// released handle, a re-entrant call on a non-reentrant handle, and
    /// an unknown method name; otherwise binds the invocation against the
    /// method's signature (the handle's state standing in as `self`) and
    /// runs the body.
    pub fn method_call(&mut self, class: &ClassDef, method: &String, inv: &Invocation) -> (r:
        Result<DynamicValue, HostException>)
        requires
            old(self).well_formed(),
        ensures
            final(self).well_formed(),
            final(self).spec_released() == old(self).spec_released(),
            final(self).spec_teardown_runs() == old(self).spec_teardown_runs(),
            final(self).spec_reentrant() == old(self).spec_reentrant(),
            final(self).spec_busy() == old(self).spec_busy(),
            r matches Ok(d) ==> spec_method_call(
                old(self).spec_state(),
                old(self).spec_released(),
                old(self).spec_busy(),
                old(self).spec_reentrant(),
                methods_view(class.methods@),
                method@,
                inv@,
            ).0 == Ok::<DynVal, HostExcV>(d@),
            r matches Err(e) ==> spec_method_call(
                old(self).spec_state(),
                old(self).spec_released(),
                old(self).spec_busy(),
                old(self).spec_reentrant(),
                methods_view(class.methods@),
                method@,
                inv@,
            ).0 == Err::<DynVal, HostExcV>(e@),
            final(self).spec_state() == spec_method_call(
                old(self).spec_state(),
                old(self).spec_released(),
                old(self).spec_busy(),
                old(self).spec_reentrant(),
                methods_view(class.methods@),
                method@,
                inv@,
            ).1,
    {
        if self.released {
            return Err(HostException {
                category: HostExceptionCategory::RuntimeError,
                message: String::from_str("handle released"),
            });
        }
        if self.busy && !self.reentrant {
            return Err(HostException {
                category: HostExceptionCategory::RuntimeError,
                message: String::from_str("concurrent access not supported"),
            });
        }
        let mi = find_method(&class.methods, method);
        if mi == class.methods.len() {
            return Err(HostException {
                category: HostExceptionCategory::RuntimeError,
                message: String::from_str("no such method: ").concat(method.as_str()),
            });
        }
        let m = &class.methods[mi];
        match bind(&m.signature, inv) {
            Err(be) => Err(bind_error_to_host(&be)),
            Ok(bound) => {
                match &m.body {
                    MethodImpl::StateLen => {
                        let l = self.state.len();
                        if (l as u64) <= 9223372036854775807u64 {
                            Ok(DynamicValue::Int(l as i64))
                        } else {
                            Err(translate(NativeError {
                                kind: NativeErrorKind::OutOfRange,
                                message: String::from_str("state too large"),
                            }))
                        }
                    },
                    MethodImpl::StatePush => {
                        let mut args = bound.fixed_args;
                        if args.len() == 0 {
                            Err(translate(NativeError {
                                kind: NativeErrorKind::InvalidArgument,
                                message: String::from_str("nothing to append"),
                            }))
                        } else {
                            let ghost state_before = self.state@;
                            let v = args.remove(0);
                            self.state.push(v);
                            proof {
                                assert(nats_view(self.state@) =~= nats_view(state_before).push(
                                    crate::value::nat_view(v),
                                ));
                            }
                            Ok(DynamicValue::Bool(true))
                        }
                    },
                    MethodImpl::RaiseIo(msg) => Err(translate(NativeError {
                        kind: NativeErrorKind::IoFailure,
                        message: clone_string(msg),
                    })),
                }
            },
        }
    }
}

/// The mathematical model of a `MethodImpl`.
pub enum MethImplV {
    StateLen,
    StatePush,
    RaiseIo(Seq<char>),
}

/// The mathematical model of a `MethodDef`.
pub struct MethodDefV {
    pub name: Seq<char>,
    pub signature: crate::signature::SigV,
    pub doc: Seq<char>,
    pub body: MethImplV,
}

impl View for MethodDef {
    type V = MethodDefV;

    open spec fn view(&self) -> MethodDefV {
        MethodDefV {
            name: self.name@,
            signature: self.signature@,
            doc: self.doc@,
            body: match &self.body {
                MethodImpl::StateLen => MethImplV::StateLen,
                MethodImpl::StatePush => MethImplV::StatePush,
                MethodImpl::RaiseIo(m) => MethImplV::RaiseIo(m@),
            },
        }
    }
}

/// The models of a sequence of method definitions.
pub open spec fn methods_view(s: Seq<MethodDef>) -> Seq<MethodDefV> {
    s.map_values(|m: MethodDef| m@)
}

/// The first method at or after `j` named `nm`, or `methods.len()` when
/// none is.
pub open spec fn spec_method_index(methods: Seq<MethodDefV>, nm: Seq<char>, j: int) -> int
    decreases methods.len() - j,
{
    if j < 0 || j >= methods.len() {
        methods.len() as int
    } else if methods[j].name == nm {
        j
    } else {
        spec_method_index(methods, nm, j + 1)
    }
}

/// What a method body yields: the host-visible result or native failure,
/// and the state the handle holds afterwards.
pub open spec fn spec_call_method(body: MethImplV, state: Seq<NatVal>, b: BoundV) -> (Result<
    DynVal,
    NativeErrV,
>, Seq<NatVal>) {
    match body {
        MethImplV::StateLen => if state.len() <= 9223372036854775807 {
            (Ok(DynVal::Int(state.len() as int)), state)
        } else {
            (
                Err(NativeErrV { kind: NativeErrorKind::OutOfRange, message: "state too large"@ }),
                state,
            )
        },
        MethImplV::StatePush => if b.fixed_args.len() == 0 {
            (
                Err(
                    NativeErrV {
                        kind: NativeErrorKind::InvalidArgument,
                        message: "nothing to append"@,
                    },
                ),
                state,
            )
        } else {
            (Ok(DynVal::Bool(true)), state.push(b.fixed_args[0]))
        },
        MethImplV::RaiseIo(m) => (
            Err(NativeErrV { kind: NativeErrorKind::IoFailure, message: m }),
            state,
        ),
    }
}

/// What a method call on a handle yields: the host-visible outcome and
/// the state the handle holds afterwards.
pub open spec fn spec_method_call(
    state: Seq<NatVal>,
    released: bool,
    busy: bool,
    reentrant: bool,
    methods: Seq<MethodDefV>,
    nm: Seq<char>,
    inv: crate::signature::InvV,
) -> (Result<DynVal, HostExcV>, Seq<NatVal>) {
    if released {
        (
            Err(
                HostExcV {
                    category: HostExceptionCategory::RuntimeError,
                    message: "handle released"@,
                },
            ),
            state,
        )
    } else if busy && !reentrant {
        (
            Err(
                HostExcV {
                    category: HostExceptionCategory::RuntimeError,
                    message: "concurrent access not supported"@,
                },
            ),
            state,
        )
    } else {
        let mi = spec_method_index(methods, nm, 0);
        if mi >= methods.len() {
            (
                Err(
                    HostExcV {
                        category: HostExceptionCategory::RuntimeError,
                        message: "no such method: "@ + nm,
                    },
                ),
                state,
            )
        } else {
            match spec_bind(methods[mi].signature, inv) {
                Err(be) => (
                    Err(
                        HostExcV {
                            category: HostExceptionCategory::ValueError,
                            message: spec_bind_error_message(be),
                        },
                    ),
                    state,
                ),
                Ok(b) => match spec_call_method(methods[mi].body, state, b) {
                    (Ok(d), st) => (Ok(d), st),
                    (Err(ne), st) => (Err(spec_translate(ne)), st),
                },
            }
        }
    }
}

/// The first method of `methods` named `nm`, or `methods.len()` when none
/// is.
fn find_method(methods: &Vec<MethodDef>, nm: &String) -> (r: usize)
    ensures
        r as int == spec_method_index(methods_view(methods@), nm@, 0),
        r <= methods@.len(),
{
    let k = methods.len();
    let mut j: usize = 0;
    while j < k
        invariant
            j <= k,
            k == methods@.len(),
            spec_method_index(methods_view(methods@), nm@, 0) == spec_method_index(
                methods_view(methods@),
                nm@,
                j as int,
            ),
        decreases k - j,
    {
        if str_eq(&methods[j].name, nm) {
            proof {
                assert(methods_view(methods@)[j as int].name == nm@);
            }
            return j;
        }
        proof {
            assert(methods_view(methods@)[j as int].name != nm@);
        }
        j += 1;
    }
    k
}

} // verus!
