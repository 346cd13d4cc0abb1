use hostbridge::bind::bind;
use hostbridge::bind::BindError;
use hostbridge::convert::ConversionErrorKind;
use hostbridge::registry::register;
use hostbridge::registry::FunctionDef;
use hostbridge::registry::FunctionImpl;
use hostbridge::registry::ModuleEntry;
use hostbridge::signature::Invocation;
use hostbridge::signature::NativeSignature;
use hostbridge::signature::Param;
use hostbridge::value::DynamicValue;
use hostbridge::value::NativeType;
use hostbridge::value::NativeValue;

fn int_param(name: &str) -> Param {
    Param { name: name.to_string(), ty: NativeType::I64, default: None }
}

fn two_int_signature() -> NativeSignature {
    NativeSignature {
        fixed: vec![int_param("a"), int_param("b")],
        has_varargs: false,
        has_kwargs: false,
    }
}

fn sum_module() -> hostbridge::registry::ModuleDescriptor {
    register(
        "arith".to_string(),
        "summing examples".to_string(),
        vec![
            (
                "add".to_string(),
                ModuleEntry::Function(FunctionDef {
                    signature: two_int_signature(),
                    doc: "adds two integers".to_string(),
                    body: FunctionImpl::SumFixedInts,
                }),
            ),
            (
                "val".to_string(),
                ModuleEntry::Function(FunctionDef {
                    signature: NativeSignature {
                        fixed: vec![],
                        has_varargs: false,
                        has_kwargs: false,
                    },
                    doc: "a fixed value".to_string(),
                    body: FunctionImpl::ConstInt(42),
                }),
            ),
        ],
    )
    .expect("module loads")
}

#[test]
fn two_ints_positional_sum_to_seven() {
    let module = sum_module();
    let inv = Invocation {
        positional: vec![DynamicValue::Int(3), DynamicValue::Int(4)],
        named: vec![],
    };
    let got = module.invoke(&"add".to_string(), &inv).expect("call succeeds");
    assert_eq!(got, DynamicValue::Int(7));
}

#[test]
fn two_ints_one_named_sum_to_seven() {
    let module = sum_module();
    let inv = Invocation {
        positional: vec![DynamicValue::Int(3)],
        named: vec![("b".to_string(), DynamicValue::Int(4))],
    };
    let got = module.invoke(&"add".to_string(), &inv).expect("call succeeds");
    assert_eq!(got, DynamicValue::Int(7));
}

#[test]
fn constant_function_answers_forty_two() {
    let module = sum_module();
    let inv = Invocation { positional: vec![], named: vec![] };
    let got = module.invoke(&"val".to_string(), &inv).expect("call succeeds");
    assert_eq!(got, DynamicValue::Int(42));
}

#[test]
fn variadic_slots_collect_tail_and_keywords() {
    let sig = NativeSignature {
        fixed: vec![int_param("a")],
        has_varargs: true,
        has_kwargs: true,
    };
    let inv = Invocation {
        positional: vec![DynamicValue::Int(1), DynamicValue::Int(2), DynamicValue::Int(3)],
        named: vec![("x".to_string(), DynamicValue::Int(10))],
    };
    let bound = bind(&sig, &inv).expect("binding succeeds");
    assert_eq!(bound.fixed_args, vec![NativeValue::I64(1)]);
    assert_eq!(bound.varargs, vec![DynamicValue::Int(2), DynamicValue::Int(3)]);
    assert_eq!(bound.kwargs.len(), 1);
    assert_eq!(bound.kwargs[0].0, "x".to_string());
    assert_eq!(bound.kwargs[0].1, DynamicValue::Int(10));
}

#[test]
fn exact_positional_values_bind_in_order() {
    let sig = NativeSignature {
        fixed: vec![
            int_param("a"),
            Param { name: "flag".to_string(), ty: NativeType::Bool, default: None },
        ],
        has_varargs: false,
        has_kwargs: false,
    };
    let inv = Invocation {
        positional: vec![DynamicValue::Int(5), DynamicValue::Bool(true)],
        named: vec![],
    };
    let bound = bind(&sig, &inv).expect("binding succeeds");
    assert_eq!(bound.fixed_args, vec![NativeValue::I64(5), NativeValue::Bool(true)]);
    assert!(bound.varargs.is_empty());
    assert!(bound.kwargs.is_empty());
}

#[test]
fn three_trailing_values_fill_the_variadic_slot() {
    let sig = NativeSignature {
        fixed: vec![int_param("a"), int_param("b")],
        has_varargs: true,
        has_kwargs: false,
    };
    let inv = Invocation {
        positional: vec![
            DynamicValue::Int(0),
            DynamicValue::Int(1),
            DynamicValue::Int(7),
            DynamicValue::Int(8),
            DynamicValue::Int(9),
        ],
        named: vec![],
    };
    let bound = bind(&sig, &inv).expect("binding succeeds");
    assert_eq!(
        bound.varargs,
        vec![DynamicValue::Int(7), DynamicValue::Int(8), DynamicValue::Int(9)]
    );
}

#[test]
fn unexpected_keyword_fails_binding() {
    let sig = two_int_signature();
    let inv = Invocation {
        positional: vec![DynamicValue::Int(1), DynamicValue::Int(2)],
        named: vec![("zzz".to_string(), DynamicValue::Int(9))],
    };
    match bind(&sig, &inv) {
        Err(BindError::UnexpectedKeyword(n)) => assert_eq!(n, "zzz".to_string()),
        other => panic!("expected an unexpected-keyword failure, got {:?}", other),
    }
}

#[test]
fn too_many_positional_without_varargs_fails() {
    let sig = two_int_signature();
    let inv = Invocation {
        positional: vec![DynamicValue::Int(1), DynamicValue::Int(2), DynamicValue::Int(3)],
        named: vec![],
    };
    match bind(&sig, &inv) {
        Err(BindError::TooManyPositional) => {}
        other => panic!("expected a too-many-positional failure, got {:?}", other),
    }
}

#[test]
fn missing_required_argument_fails() {
    let sig = two_int_signature();
    let inv = Invocation { positional: vec![DynamicValue::Int(1)], named: vec![] };
    match bind(&sig, &inv) {
        Err(BindError::MissingRequired(n)) => assert_eq!(n, "b".to_string()),
        other => panic!("expected a missing-required failure, got {:?}", other),
    }
}

#[test]
fn duplicate_argument_fails() {
    let sig = two_int_signature();
    let inv = Invocation {
        positional: vec![DynamicValue::Int(1), DynamicValue::Int(2)],
        named: vec![("a".to_string(), DynamicValue::Int(3))],
    };
    match bind(&sig, &inv) {
        Err(BindError::DuplicateArgument(n)) => assert_eq!(n, "a".to_string()),
        other => panic!("expected a duplicate-argument failure, got {:?}", other),
    }
}

#[test]
fn declared_default_fills_an_unsupplied_parameter() {
    let sig = NativeSignature {
        fixed: vec![
            int_param("a"),
            Param {
                name: "b".to_string(),
                ty: NativeType::I64,
                default: Some(DynamicValue::Int(40)),
            },
        ],
        has_varargs: false,
        has_kwargs: false,
    };
    let inv = Invocation { positional: vec![DynamicValue::Int(2)], named: vec![] };
    let bound = bind(&sig, &inv).expect("binding succeeds");
    assert_eq!(bound.fixed_args, vec![NativeValue::I64(2), NativeValue::I64(40)]);
}

#[test]
fn conversion_failure_names_the_parameter() {
    let sig = NativeSignature {
        fixed: vec![Param { name: "n".to_string(), ty: NativeType::I32, default: None }],
        has_varargs: false,
        has_kwargs: false,
    };
    let inv = Invocation {
        positional: vec![DynamicValue::Int(4294967296)],
        named: vec![],
    };
    match bind(&sig, &inv) {
        Err(BindError::ConversionFailure(n, e)) => {
            assert_eq!(n, "n".to_string());
            assert_eq!(e.kind, ConversionErrorKind::OutOfRange);
        }
        other => panic!("expected a conversion failure, got {:?}", other),
    }
}
