use hostbridge::error::HostExceptionCategory;
use hostbridge::registry::register;
use hostbridge::registry::FunctionDef;
use hostbridge::registry::FunctionImpl;
use hostbridge::registry::ModuleEntry;
use hostbridge::registry::RegistrationError;
use hostbridge::signature::Invocation;
use hostbridge::signature::NativeSignature;
use hostbridge::signature::Param;
use hostbridge::value::DynamicValue;
use hostbridge::value::NativeType;

fn no_arg_signature() -> NativeSignature {
    NativeSignature { fixed: vec![], has_varargs: false, has_kwargs: false }
}

fn greeting_export(name: &str, text: &str) -> (String, ModuleEntry) {
    (
        name.to_string(),
        ModuleEntry::Function(FunctionDef {
            signature: no_arg_signature(),
            doc: "answers a fixed greeting".to_string(),
            body: FunctionImpl::Greeting(text.to_string()),
        }),
    )
}

#[test]
fn duplicate_export_name_fails_the_whole_load() {
    let r = register(
        "dupmod".to_string(),
        "module documentation string".to_string(),
        vec![
            greeting_export("hello", "Hello, world!"),
            greeting_export("hello", "Bonjour, monde!"),
        ],
    );
    match r {
        Err(RegistrationError::DuplicateExportName(n)) => assert_eq!(n, "hello".to_string()),
        other => panic!("expected a duplicate-export failure, got {:?}", other),
    }
}

#[test]
fn shared_parameter_names_fail_the_load() {
    let sig = NativeSignature {
        fixed: vec![
            Param { name: "a".to_string(), ty: NativeType::I64, default: None },
            Param { name: "a".to_string(), ty: NativeType::I64, default: None },
        ],
        has_varargs: false,
        has_kwargs: false,
    };
    let r = register(
        "badmod".to_string(),
        String::new(),
        vec![(
            "f".to_string(),
            ModuleEntry::Function(FunctionDef {
                signature: sig,
                doc: String::new(),
                body: FunctionImpl::SumFixedInts,
            }),
        )],
    );
    match r {
        Err(RegistrationError::InvalidSignatureShape(n)) => assert_eq!(n, "f".to_string()),
        other => panic!("expected an invalid-shape failure, got {:?}", other),
    }
}

#[test]
fn greetings_resolve_and_answer_their_text() {
    let english = register(
        "english".to_string(),
        "module documentation string".to_string(),
        vec![greeting_export("hello", "Hello, world!")],
    )
    .expect("module loads");
    let french = register(
        "french".to_string(),
        "module documentation string".to_string(),
        vec![greeting_export("hello", "Bonjour, monde!")],
    )
    .expect("module loads");

    let inv = Invocation { positional: vec![], named: vec![] };
    assert_eq!(
        english.invoke(&"hello".to_string(), &inv).expect("call succeeds"),
        DynamicValue::Str("Hello, world!".to_string())
    );
    assert_eq!(
        french.invoke(&"hello".to_string(), &inv).expect("call succeeds"),
        DynamicValue::Str("Bonjour, monde!".to_string())
    );
    assert!(english.resolve(&"hello".to_string()).is_some());
    assert!(english.resolve(&"goodbye".to_string()).is_none());
}

#[test]
fn unknown_export_name_surfaces_name_not_found() {
    let m = register("empty".to_string(), String::new(), vec![]).expect("module loads");
    let inv = Invocation { positional: vec![], named: vec![] };
    let e = m.invoke(&"missing".to_string(), &inv).expect_err("nothing to call");
    assert_eq!(e.category, HostExceptionCategory::RuntimeError);
    assert_eq!(e.message, "name not found: missing".to_string());
}

#[test]
fn constants_resolve_but_are_not_callable() {
    let m = register(
        "consts".to_string(),
        String::new(),
        vec![("answer".to_string(), ModuleEntry::Constant(DynamicValue::Int(42)))],
    )
    .expect("module loads");
    assert!(m.resolve(&"answer".to_string()).is_some());
    let inv = Invocation { positional: vec![], named: vec![] };
    let e = m.invoke(&"answer".to_string(), &inv).expect_err("constants are not calls");
    assert_eq!(e.category, HostExceptionCategory::RuntimeError);
    assert_eq!(e.message, "export is not callable: answer".to_string());
}

#[test]
fn echo_reflects_the_whole_invocation() {
    let m = register(
        "echoes".to_string(),
        String::new(),
        vec![(
            "run".to_string(),
            ModuleEntry::Function(FunctionDef {
                signature: NativeSignature { fixed: vec![], has_varargs: true, has_kwargs: true },
                doc: "reflects its arguments".to_string(),
                body: FunctionImpl::EchoArgs,
            }),
        )],
    )
    .expect("module loads");
    let inv = Invocation {
        positional: vec![DynamicValue::Int(1), DynamicValue::Str("two".to_string())],
        named: vec![("k".to_string(), DynamicValue::Int(3))],
    };
    let got = m.invoke(&"run".to_string(), &inv).expect("call succeeds");
    assert_eq!(
        got,
        DynamicValue::Sequence(vec![
            DynamicValue::Str("hello from native code".to_string()),
            DynamicValue::Int(1),
            DynamicValue::Str("two".to_string()),
            DynamicValue::Sequence(vec![
                DynamicValue::Str("k".to_string()),
                DynamicValue::Int(3),
            ]),
        ])
    );
}

#[test]
fn binding_failures_surface_as_value_errors() {
    let m = summable();
    let inv = Invocation { positional: vec![DynamicValue::Int(1)], named: vec![] };
    let e = m.invoke(&"add".to_string(), &inv).expect_err("one argument is missing");
    assert_eq!(e.category, HostExceptionCategory::ValueError);
    assert_eq!(e.message, "missing required argument: b".to_string());
}

#[test]
fn native_overflow_surfaces_as_value_error() {
    let m = summable();
    let inv = Invocation {
        positional: vec![DynamicValue::Int(i64::MAX), DynamicValue::Int(1)],
        named: vec![],
    };
    let e = m.invoke(&"add".to_string(), &inv).expect_err("the sum overflows");
    assert_eq!(e.category, HostExceptionCategory::ValueError);
    assert_eq!(e.message, "integer overflow".to_string());
}

fn summable() -> hostbridge::registry::ModuleDescriptor {
    register(
        "arith".to_string(),
        String::new(),
        vec![(
            "add".to_string(),
            ModuleEntry::Function(FunctionDef {
                signature: NativeSignature {
                    fixed: vec![
                        Param { name: "a".to_string(), ty: NativeType::I64, default: None },
                        Param { name: "b".to_string(), ty: NativeType::I64, default: None },
                    ],
                    has_varargs: false,
                    has_kwargs: false,
                },
                doc: String::new(),
                body: FunctionImpl::SumFixedInts,
            }),
        )],
    )
    .expect("module loads")
}
