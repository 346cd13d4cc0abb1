use hostbridge::error::HostExceptionCategory;
use hostbridge::handle::ClassDef;
use hostbridge::handle::MethodDef;
use hostbridge::handle::MethodImpl;
use hostbridge::handle::NativeHandle;
use hostbridge::signature::Invocation;
use hostbridge::signature::NativeSignature;
use hostbridge::signature::Param;
use hostbridge::value::DynamicValue;
use hostbridge::value::NativeType;
use hostbridge::value::NativeValue;

fn empty_invocation() -> Invocation {
    Invocation { positional: vec![], named: vec![] }
}

fn document_class() -> ClassDef {
    ClassDef {
        methods: vec![
            MethodDef {
                name: "count".to_string(),
                signature: NativeSignature { fixed: vec![], has_varargs: false, has_kwargs: false },
                doc: "how many records the document holds".to_string(),
                body: MethodImpl::StateLen,
            },
            MethodDef {
                name: "append".to_string(),
                signature: NativeSignature {
                    fixed: vec![Param {
                        name: "record".to_string(),
                        ty: NativeType::I64,
                        default: None,
                    }],
                    has_varargs: false,
                    has_kwargs: false,
                },
                doc: "appends one record".to_string(),
                body: MethodImpl::StatePush,
            },
            MethodDef {
                name: "read_source".to_string(),
                signature: NativeSignature { fixed: vec![], has_varargs: false, has_kwargs: false },
                doc: "reads the backing resource".to_string(),
                body: MethodImpl::RaiseIo("no such resource: document.src".to_string()),
            },
        ],
        doc: "a parsed document".to_string(),
    }
}

#[test]
fn releasing_twice_runs_teardown_once() {
    let mut h = NativeHandle::wrap(vec![NativeValue::I64(1)], false);
    assert!(h.release());
    assert!(!h.release());
    assert!(!h.release());
}

#[test]
fn io_failure_becomes_os_error_and_handle_stays_valid() {
    let class = document_class();
    let mut h = NativeHandle::wrap(vec![NativeValue::I64(10), NativeValue::I64(20)], false);
    let e = h
        .method_call(&class, &"read_source".to_string(), &empty_invocation())
        .expect_err("the read fails");
    assert_eq!(e.category, HostExceptionCategory::OsError);
    assert_eq!(e.message, "no such resource: document.src".to_string());

    let count = h
        .method_call(&class, &"count".to_string(), &empty_invocation())
        .expect("the handle still answers");
    assert_eq!(count, DynamicValue::Int(2));
}

#[test]
fn appending_grows_the_owned_state() {
    let class = document_class();
    let mut h = NativeHandle::wrap(vec![], false);
    let inv = Invocation { positional: vec![DynamicValue::Int(9)], named: vec![] };
    let ack = h.method_call(&class, &"append".to_string(), &inv).expect("append succeeds");
    assert_eq!(ack, DynamicValue::Bool(true));
    let count = h
        .method_call(&class, &"count".to_string(), &empty_invocation())
        .expect("count succeeds");
    assert_eq!(count, DynamicValue::Int(1));
}

#[test]
fn unknown_method_is_rejected() {
    let class = document_class();
    let mut h = NativeHandle::wrap(vec![], false);
    let e = h
        .method_call(&class, &"frobnicate".to_string(), &empty_invocation())
        .expect_err("no such method");
    assert_eq!(e.category, HostExceptionCategory::RuntimeError);
    assert_eq!(e.message, "no such method: frobnicate".to_string());
}

#[test]
fn released_handle_accepts_no_calls() {
    let class = document_class();
    let mut h = NativeHandle::wrap(vec![], false);
    h.release();
    let e = h
        .method_call(&class, &"count".to_string(), &empty_invocation())
        .expect_err("released handles reject calls");
    assert_eq!(e.category, HostExceptionCategory::RuntimeError);
    assert_eq!(e.message, "handle released".to_string());
}

#[test]
fn non_reentrant_handle_rejects_a_nested_call() {
    let class = document_class();
    let mut h = NativeHandle::wrap(vec![], false);
    h.mark_busy();
    let e = h
        .method_call(&class, &"count".to_string(), &empty_invocation())
        .expect_err("nested call rejected");
    assert_eq!(e.category, HostExceptionCategory::RuntimeError);
    assert_eq!(e.message, "concurrent access not supported".to_string());
    h.clear_busy();
    assert!(h.method_call(&class, &"count".to_string(), &empty_invocation()).is_ok());
}

#[test]
fn reentrant_handle_allows_a_nested_call() {
    let class = document_class();
    let mut h = NativeHandle::wrap(vec![], true);
    h.mark_busy();
    let count = h
        .method_call(&class, &"count".to_string(), &empty_invocation())
        .expect("re-entrant call allowed");
    assert_eq!(count, DynamicValue::Int(0));
}

#[test]
fn method_arguments_bind_like_function_arguments() {
    let class = document_class();
    let mut h = NativeHandle::wrap(vec![], false);
    let inv = Invocation {
        positional: vec![],
        named: vec![("wrong".to_string(), DynamicValue::Int(1))],
    };
    let e = h
        .method_call(&class, &"append".to_string(), &inv)
        .expect_err("unknown keyword rejected");
    assert_eq!(e.category, HostExceptionCategory::ValueError);
    assert_eq!(e.message, "unexpected keyword argument: wrong".to_string());
}
