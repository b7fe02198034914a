use aura_ir::atom::{decode, encode, Atom, Atoms, CodecError};
use aura_ir::expr::{Call, Decimal, Expr, Literal, Scope, Statement, Value};
use aura_ir::identifier::{Identifier, Symbol};
use aura_ir::unit::{FunctionHeader, StaticBind, CIR, PREAMBLE};
use aura_ir::Compilable;

fn value_id(name: &str) -> Identifier {
    Identifier::Value(name.to_string())
}

fn type_id(name: &str) -> Identifier {
    Identifier::Type(name.to_string())
}

fn atom(id: &str) -> Atom {
    Atom::from_identifier(id).unwrap()
}

fn call(symbol: &str, args: Vec<Value>) -> Value {
    Value::Call(Call { symbol: symbol.to_string(), args })
}

fn function(name: &str, output: &str, args: Vec<Symbol>, body: Vec<Statement>) -> StaticBind {
    StaticBind::Function {
        header: FunctionHeader { ident: value_id(name), args, output: type_id(output) },
        body: Scope(body),
    }
}

fn hello_world_unit(includes: Vec<String>, atoms: Atoms) -> CIR {
    CIR {
        includes,
        atoms,
        statics: vec![function(
            "hello_world",
            "Void",
            vec![],
            vec![
                Statement::Bind {
                    ident: value_id("message"),
                    expr: Expr {
                        value: Value::Literal(Literal::String("Hello, world!".to_string())),
                        type_: type_id("String"),
                    },
                },
                Statement::Expr(Expr {
                    value: call("print", vec![Value::Identifier(value_id("message"))]),
                    type_: type_id("Void"),
                }),
            ],
        )],
        main: function(
            "main",
            "Int",
            vec![],
            vec![
                Statement::Expr(Expr { value: call("hello_world", vec![]), type_: type_id("Int") }),
                Statement::Return(Value::Literal(Literal::Int(0))),
            ],
        ),
    }
}

#[test]
fn expr_test_literal_compile() {
    assert_eq!(Literal::Int(42).compile(), "42");
    assert_eq!(Literal::Float(Decimal { mantissa: 314, scale: 2 }).compile(), "3.14");
    assert_eq!(Literal::String("hello".into()).compile(), "\"hello\"");
    assert_eq!(Literal::Bool(true).compile(), "true");
    assert_eq!(Literal::Bool(false).compile(), "false");
}

#[test]
fn c_test_program_compile() {
    let code = hello_world_unit(vec![], Atoms::new()).compile();
    let expected = format!(
        "{}\n// Section includes\n\n// Section atoms\n\n// Section statics\n// Signatures\n\
         Void hello_world();\n\n// Definitions\n\
         Void hello_world(){{\n\tString message = \"Hello, world!\";\n\tprint(message);\n}}\n\
         \n// Section main\nInt main(){{\n\thello_world();\n\treturn 0;\n}}",
        PREAMBLE
    );
    assert_eq!(code, expected);
}

#[test]
fn program_test_program_compile() {
    let mut atoms = Atoms::new();
    atoms.push(atom("a"));
    atoms.push(atom("b"));
    let unit = CIR {
        includes: vec!["stdio.h".into()],
        atoms,
        statics: vec![],
        main: function(
            "main",
            "Int",
            vec![],
            vec![
                Statement::Bind {
                    ident: value_id("msg"),
                    expr: Expr {
                        value: Value::Literal(Literal::String("Hello, World!".into())),
                        type_: type_id("String"),
                    },
                },
                Statement::Expr(Expr {
                    value: call("print", vec![Value::Identifier(value_id("msg"))]),
                    type_: type_id("Void"),
                }),
            ],
        ),
    };
    let code = unit.compile();
    assert!(code.contains("#include \"stdio.h\"\n"));
    assert!(code.contains("#define __Atom_A 0\n#define __Atom_B 1\n"));
    assert!(code.ends_with(
        "Int main(){\n\tString msg = \"Hello, World!\";\n\tprint(msg);\n}"
    ));
}

#[test]
fn scenario_includes_atoms_and_two_functions() {
    let mut atoms = Atoms::new();
    atoms.push(atom("a"));
    atoms.push(atom("b"));
    let code = hello_world_unit(vec!["stdio.h".to_string()], atoms).compile();
    let expected = format!(
        "{}\n// Section includes\n#include \"stdio.h\"\n\
         \n// Section atoms\n#define __Atom_A 0\n#define __Atom_B 1\n\
         \n// Section statics\n// Signatures\nVoid hello_world();\n\
         \n// Definitions\n\
         Void hello_world(){{\n\tString message = \"Hello, world!\";\n\tprint(message);\n}}\n\
         \n// Section main\nInt main(){{\n\thello_world();\n\treturn 0;\n}}",
        PREAMBLE
    );
    assert_eq!(code, expected);
    let directive = code.find("#include \"stdio.h\"").unwrap();
    let define = code.find("#define __Atom_A").unwrap();
    let declaration = code.find("Void hello_world();").unwrap();
    let definition = code.find("Void hello_world(){").unwrap();
    let main_body = code.find("Int main(){").unwrap();
    assert!(directive < define);
    assert!(define < declaration);
    assert!(declaration < definition);
    assert!(definition < main_body);
}

#[test]
fn scenario_one_constant_and_empty_entry() {
    let unit = CIR {
        includes: vec![],
        atoms: Atoms::new(),
        statics: vec![StaticBind::Value { ident: value_id("x"), value: Literal::Int(5) }],
        main: function("main", "Int", vec![], vec![]),
    };
    let expected = format!(
        "{}\n// Section includes\n\n// Section atoms\n\n// Section statics\n// Signatures\n\
         \n// Definitions\nconst Int x = 5;\n\n// Section main\nInt main(){{\n}}",
        PREAMBLE
    );
    assert_eq!(unit.compile(), expected);
}

#[test]
fn encode_uppercases_and_replaces_hyphens() {
    assert_eq!(encode("hello-world"), Ok("__Atom_HELLO_WORLD".to_string()));
    assert_eq!(encode("a1-b2"), Ok("__Atom_A1_B2".to_string()));
    assert_eq!(encode("MiXed"), Ok("__Atom_MIXED".to_string()));
}

#[test]
fn encode_refuses_invalid_identifiers() {
    assert_eq!(encode(""), Err(CodecError::InvalidIdentifier));
    assert_eq!(encode("a_b"), Err(CodecError::InvalidIdentifier));
    assert_eq!(encode("a b"), Err(CodecError::InvalidIdentifier));
    assert_eq!(encode("caf\u{e9}"), Err(CodecError::InvalidIdentifier));
    assert!(Atom::from_identifier("no.dots").is_err());
}

#[test]
fn decode_inverts_encode() {
    for id in ["a", "hello-world", "x-1-y", "0", "-", "ok--go"] {
        let rep = encode(id).unwrap();
        assert_eq!(decode(&rep), id);
        assert_eq!(atom(id).into_identifier(), id);
    }
}

#[test]
fn atom_gives_back_the_canonical_identifier() {
    assert_eq!(atom("MiXed-Case").into_identifier(), "mixed-case");
    assert_eq!(encode("mixed-case"), encode("MiXed-Case"));
}

#[test]
fn decode_without_marker_is_best_effort() {
    assert_eq!(decode("HELLO_WORLD"), "hello-world");
    assert_eq!(decode("__Atom"), "--atom");
    assert_eq!(decode(""), "");
}

#[test]
fn distinct_identifiers_encode_differently() {
    let ids = ["a", "b", "a-b", "ab", "a-", "-a", "a1", "a-1"];
    for x in ids {
        for y in ids {
            if x != y {
                assert_ne!(encode(x).unwrap(), encode(y).unwrap());
            }
        }
    }
}

#[test]
fn atom_table_indices_are_stable() {
    let mut atoms = Atoms::new();
    assert_eq!(atoms.push(atom("red")), 0);
    assert_eq!(atoms.push(atom("green")), 1);
    let before = atoms.compile();
    assert_eq!(before, "#define __Atom_RED 0\n#define __Atom_GREEN 1\n");
    assert_eq!(atoms.push(atom("blue")), 2);
    assert_eq!(atoms.len(), 3);
    let after = atoms.compile();
    assert!(after.starts_with(&before));
    assert_eq!(after, format!("{}#define __Atom_BLUE 2\n", before));
    assert_eq!(atoms.index_of(&atom("red")), Some(0));
    assert_eq!(atoms.index_of(&atom("green")), Some(1));
    assert_eq!(atoms.index_of(&atom("blue")), Some(2));
    assert_eq!(atoms.index_of(&atom("pink")), None);
    assert_eq!(atoms.get(1).compile(), "__Atom_GREEN");
}

#[test]
fn atom_renders_its_macro_name() {
    assert_eq!(Value::Atom(atom("not-found")).compile(), "__Atom_NOT_FOUND");
}

#[test]
fn empty_scope_is_an_empty_block() {
    assert_eq!(Scope(vec![]).compile(), "{\n}");
    assert_eq!(Value::Scope(Scope(vec![])).compile(), "{\n}");
}

#[test]
fn scope_keeps_statement_order() {
    let scope = Scope(vec![
        Statement::Expr(Expr { value: call("first", vec![]), type_: type_id("Void") }),
        Statement::Expr(Expr { value: call("second", vec![]), type_: type_id("Void") }),
        Statement::Return(Value::Identifier(value_id("x"))),
    ]);
    assert_eq!(scope.compile(), "{\n\tfirst();\n\tsecond();\n\treturn x;\n}");
}

#[test]
fn call_keeps_argument_order() {
    let c = Call {
        symbol: "f".to_string(),
        args: vec![
            Value::Literal(Literal::Int(1)),
            Value::Identifier(value_id("y")),
            call("g", vec![Value::Literal(Literal::Bool(true))]),
        ],
    };
    assert_eq!(c.compile(), "f(1, y, g(true))");
    assert_eq!(call("h", vec![]).compile(), "h()");
}

#[test]
fn bind_renders_type_name_and_initializer() {
    let s = Statement::Bind {
        ident: value_id("n"),
        expr: Expr { value: Value::Literal(Literal::Int(-7)), type_: type_id("Int") },
    };
    assert_eq!(s.compile(), "Int n = -7");
    let e = Expr { value: Value::Literal(Literal::Int(3)), type_: type_id("Int") };
    assert_eq!(e.compile(), "3");
}

#[test]
fn nested_scope_value_renders_as_block() {
    let inner = Scope(vec![Statement::Return(Value::Literal(Literal::Int(1)))]);
    let outer = Scope(vec![Statement::Expr(Expr {
        value: Value::Scope(inner),
        type_: type_id("Int"),
    })]);
    assert_eq!(outer.compile(), "{\n\t{\n\treturn 1;\n};\n}");
}

#[test]
fn integer_literals_render_in_decimal() {
    assert_eq!(Literal::Int(0).compile(), "0");
    assert_eq!(Literal::Int(-42).compile(), "-42");
    assert_eq!(Literal::Int(i64::MAX).compile(), "9223372036854775807");
    assert_eq!(Literal::Int(i64::MIN).compile(), "-9223372036854775808");
}

#[test]
fn decimal_literals_render_with_their_scale() {
    assert_eq!(Literal::Float(Decimal { mantissa: -5, scale: 2 }).compile(), "-0.05");
    assert_eq!(Literal::Float(Decimal { mantissa: 5, scale: 0 }).compile(), "5");
    assert_eq!(Literal::Float(Decimal { mantissa: 0, scale: 1 }).compile(), "0.0");
    assert_eq!(Literal::Float(Decimal { mantissa: 1050, scale: 3 }).compile(), "1.050");
    assert_eq!(Literal::Float(Decimal { mantissa: i64::MIN, scale: 4 }).compile(), "-922337203685477.5808");
}

#[test]
fn identifiers_and_symbols_render_their_names() {
    assert_eq!(value_id("count").compile(), "count");
    assert_eq!(type_id("Int").compile(), "Int");
    let s = Symbol { name: value_id("n"), type_: type_id("Int") };
    assert_eq!(s.compile(), "Int n");
}

#[test]
fn header_renders_parameters_in_order() {
    let h = FunctionHeader {
        ident: value_id("add"),
        args: vec![
            Symbol { name: value_id("a"), type_: type_id("Int") },
            Symbol { name: value_id("b"), type_: type_id("Float") },
        ],
        output: type_id("Int"),
    };
    assert_eq!(h.compile(), "Int add(Int a, Float b)");
}

#[test]
fn constants_take_the_type_of_their_literal() {
    let cases = [
        (Literal::Int(5), "const Int x = 5;"),
        (Literal::Float(Decimal { mantissa: 25, scale: 1 }), "const Float x = 2.5;"),
        (Literal::String("s".to_string()), "const String x = \"s\";"),
        (Literal::Bool(false), "const Bool x = false;"),
    ];
    for (value, text) in cases {
        let b = StaticBind::Value { ident: value_id("x"), value };
        assert!(b.is_value());
        assert!(!b.is_function());
        assert_eq!(b.compile(), text);
    }
}

#[test]
fn static_bind_accessors() {
    let v = StaticBind::Value { ident: value_id("x"), value: Literal::Int(9) };
    assert_eq!(v.as_value().compile(), "9");
    let f = function("f", "Void", vec![], vec![]);
    assert!(f.is_function());
    let (header, body) = f.as_function();
    assert_eq!(header.compile(), "Void f()");
    assert_eq!(body.compile(), "{\n}");
    assert_eq!(f.compile(), "Void f(){\n}");
}

#[test]
fn declarations_precede_definitions_in_table_order() {
    let unit = CIR {
        includes: vec![],
        atoms: Atoms::new(),
        statics: vec![
            function("b", "Void", vec![], vec![Statement::Expr(Expr {
                value: call("a", vec![]),
                type_: type_id("Void"),
            })]),
            StaticBind::Value { ident: value_id("k"), value: Literal::Int(1) },
            function("a", "Void", vec![], vec![]),
        ],
        main: function("main", "Int", vec![], vec![]),
    };
    let code = unit.compile();
    assert!(code.contains("// Signatures\nVoid b();\nVoid a();\n\n// Definitions\n"));
    assert!(code.contains(
        "// Definitions\nVoid b(){\n\ta();\n}\nconst Int k = 1;\nVoid a(){\n}\n\n// Section main\n"
    ));
}

#[test]
fn rendering_is_deterministic() {
    let unit = hello_world_unit(vec!["stdio.h".to_string()], Atoms::new());
    assert_eq!(unit.compile(), unit.compile());
}
