use glsl_front::error::ErrorKind;
use glsl_front::ir::{
    Binding, BuiltIn, Expression, Function, Interpolation, Profile, ScalarKind, ShaderStage,
    Statement, StorageClass, TypeInner, VectorSize,
};
use glsl_front::parser::Parser;
use glsl_front::program::Program;
use glsl_front::token::{Token, TokenMetadata, TokenValue};

fn meta() -> TokenMetadata {
    TokenMetadata { line: 0, chars_start: 0, chars_end: 0 }
}

fn t(v: TokenValue) -> Token {
    Token::new(meta(), v)
}

fn ident(s: &str) -> Token {
    t(TokenValue::Identifier(s.to_string()))
}

fn int_lit(v: i64) -> Token {
    t(TokenValue::IntConstant(v))
}

fn header(version: i64) -> Vec<Token> {
    vec![t(TokenValue::Version), int_lit(version)]
}

/// A `void main() { ... }` wrapper around the given body tokens.
fn wrap_main(body: Vec<Token>) -> Vec<Token> {
    let mut tokens = header(450);
    tokens.push(t(TokenValue::Void));
    tokens.push(ident("main"));
    tokens.push(t(TokenValue::LeftParen));
    tokens.push(t(TokenValue::RightParen));
    tokens.push(t(TokenValue::LeftBrace));
    tokens.extend(body);
    tokens.push(t(TokenValue::RightBrace));
    tokens
}

fn run(tokens: Vec<Token>, stage: ShaderStage, validate: bool) -> (Program, Result<(), ErrorKind>) {
    let mut prog = Program::new(stage, validate);
    let mut parser = Parser::new(tokens);
    let r = parser.run(&mut prog);
    (prog, r)
}

fn function_named<'a>(prog: &'a Program, name: &str) -> &'a Function {
    let h = prog.lookup_function.get(&name.to_string()).expect("function not registered");
    prog.functions.get(h)
}

/// The local a store statement writes through, as an index into the
/// function's local store.
fn store_target_local(f: &Function, st: &Statement) -> usize {
    match st {
        Statement::Store { pointer, value: _ } => {
            match f.expressions.get(*pointer) {
                Expression::LocalVariable(lh) => lh.index(),
                _ => panic!("store target is not a local"),
            }
        }
        _ => panic!("not a store"),
    }
}

#[test]
fn version_450_no_profile_succeeds() {
    let (prog, r) = run(wrap_main(vec![]), ShaderStage::Vertex, false);
    assert!(r.is_ok());
    assert_eq!(prog.version, 450);
    assert!(matches!(prog.profile, Profile::Core));
}

#[test]
fn version_460_core_profile_succeeds() {
    let mut tokens = vec![t(TokenValue::Version), int_lit(460), ident("core")];
    tokens.push(t(TokenValue::Void));
    tokens.push(ident("main"));
    tokens.push(t(TokenValue::LeftParen));
    tokens.push(t(TokenValue::RightParen));
    tokens.push(t(TokenValue::LeftBrace));
    tokens.push(t(TokenValue::RightBrace));
    let (prog, r) = run(tokens, ShaderStage::Vertex, false);
    assert!(r.is_ok());
    assert_eq!(prog.version, 460);
}

#[test]
fn version_410_fails() {
    let mut tokens = header(410);
    tokens.push(t(TokenValue::Void));
    let (_prog, r) = run(tokens, ShaderStage::Vertex, false);
    match r {
        Err(ErrorKind::InvalidVersion(_, v)) => assert_eq!(v, 410),
        other => panic!("expected an invalid version, got {:?}", other),
    }
}

#[test]
fn version_compatibility_profile_fails() {
    let mut tokens = vec![t(TokenValue::Version), int_lit(450), ident("compatibility")];
    tokens.push(t(TokenValue::Void));
    let (_prog, r) = run(tokens, ShaderStage::Vertex, false);
    match r {
        Err(ErrorKind::InvalidProfile(_, p)) => assert_eq!(p, "compatibility"),
        other => panic!("expected an invalid profile, got {:?}", other),
    }
}

#[test]
fn empty_input_fails() {
    let (_prog, r) = run(vec![], ShaderStage::Vertex, false);
    assert_eq!(r, Err(ErrorKind::SyntaxError(None)));
}

#[test]
fn version_without_declarations_fails() {
    let (_prog, r) = run(header(450), ShaderStage::Vertex, false);
    assert_eq!(r, Err(ErrorKind::SyntaxError(None)));
}

#[test]
fn builtin_position_is_memoized() {
    // Two references to the reserved position name inside one vertex-stage
    // function: one global variable, identical handles.
    let body = vec![
        ident("gl_Position"),
        t(TokenValue::Equal),
        ident("gl_Position"),
        t(TokenValue::Semicolon),
    ];
    let (prog, r) = run(wrap_main(body), ShaderStage::Vertex, false);
    assert!(r.is_ok());
    assert_eq!(prog.global_variables.len(), 1);
    let gv = prog.global_variables.get(prog.global_variables.handle_at(0));
    assert_eq!(gv.name.as_deref(), Some("gl_Position"));
    assert!(matches!(gv.class, StorageClass::Output));
    assert!(matches!(gv.binding, Some(Binding::BuiltIn(BuiltIn::Position))));
    assert!(gv.interpolation.is_none());
    match &prog.types.get(gv.ty).inner {
        TypeInner::Vector { size, kind, width } => {
            assert!(matches!(size, VectorSize::Quad));
            assert!(matches!(kind, ScalarKind::Float));
            assert_eq!(*width, 4);
        }
        _ => panic!("position type is not a vector"),
    }
    let f = function_named(&prog, "main");
    assert_eq!(f.expressions.len(), 2);
    let first = f.expressions.get(f.expressions.handle_at(0));
    let second = f.expressions.get(f.expressions.handle_at(1));
    match (first, second) {
        (Expression::GlobalVariable(a), Expression::GlobalVariable(b)) => {
            assert!(*a == *b);
        }
        _ => panic!("expected two global references"),
    }
}

#[test]
fn builtin_position_in_fragment_is_input() {
    let body = vec![
        ident("gl_Position"),
        t(TokenValue::Equal),
        ident("gl_Position"),
        t(TokenValue::Semicolon),
    ];
    let (prog, r) = run(wrap_main(body), ShaderStage::Fragment, false);
    assert!(r.is_ok());
    let gv = prog.global_variables.get(prog.global_variables.handle_at(0));
    assert!(matches!(gv.class, StorageClass::Input));
}

#[test]
fn builtin_position_outside_vertex_fragment_fails() {
    let body = vec![
        ident("gl_Position"),
        t(TokenValue::Equal),
        int_lit(1),
        t(TokenValue::Semicolon),
    ];
    let (_prog, r) = run(wrap_main(body), ShaderStage::Compute, false);
    match r {
        Err(ErrorKind::UnknownIdentifier(_, n)) => assert_eq!(n, "gl_Position"),
        other => panic!("expected an unknown identifier, got {:?}", other),
    }
}

#[test]
fn unknown_identifier_fails_by_name() {
    let body = vec![ident("nowhere"), t(TokenValue::Equal), int_lit(1), t(TokenValue::Semicolon)];
    let (_prog, r) = run(wrap_main(body), ShaderStage::Vertex, false);
    match r {
        Err(ErrorKind::UnknownIdentifier(_, n)) => assert_eq!(n, "nowhere"),
        other => panic!("expected an unknown identifier, got {:?}", other),
    }
}

#[test]
fn scope_shadowing_resolves_innermost_then_reverts() {
    // int x; { int x; x = 2; } x = 3;
    let body = vec![
        t(TokenValue::Int),
        ident("x"),
        t(TokenValue::Semicolon),
        t(TokenValue::LeftBrace),
        t(TokenValue::Int),
        ident("x"),
        t(TokenValue::Semicolon),
        ident("x"),
        t(TokenValue::Equal),
        int_lit(2),
        t(TokenValue::Semicolon),
        t(TokenValue::RightBrace),
        ident("x"),
        t(TokenValue::Equal),
        int_lit(3),
        t(TokenValue::Semicolon),
    ];
    let (prog, r) = run(wrap_main(body), ShaderStage::Vertex, false);
    assert!(r.is_ok());
    let f = function_named(&prog, "main");
    assert_eq!(f.local_variables.len(), 2);
    assert_eq!(f.body.len(), 3);
    // The nested block stores through the inner local.
    match &f.body[1] {
        Statement::Block(inner) => {
            assert_eq!(inner.len(), 2);
            assert_eq!(store_target_local(f, &inner[1]), 1);
        }
        other => panic!("expected a block, got {:?}", std::mem::discriminant(other)),
    }
    // After the block closes, resolution reverts to the outer local.
    assert_eq!(store_target_local(f, &f.body[2]), 0);
}

#[test]
fn assignment_chain_flattens_to_one_statement() {
    // a = b = 3; collapses to one statement at the boundary; the inner
    // store comes before the outer one.
    let body = vec![
        t(TokenValue::Int),
        ident("a"),
        t(TokenValue::Semicolon),
        t(TokenValue::Int),
        ident("b"),
        t(TokenValue::Semicolon),
        ident("a"),
        t(TokenValue::Equal),
        ident("b"),
        t(TokenValue::Equal),
        int_lit(3),
        t(TokenValue::Semicolon),
    ];
    let (prog, r) = run(wrap_main(body), ShaderStage::Vertex, false);
    assert!(r.is_ok());
    let f = function_named(&prog, "main");
    assert_eq!(f.body.len(), 3);
    match &f.body[2] {
        Statement::Block(stores) => {
            assert_eq!(stores.len(), 2);
            assert_eq!(store_target_local(f, &stores[0]), 1);
            assert_eq!(store_target_local(f, &stores[1]), 0);
        }
        _ => panic!("expected one block statement"),
    }
}

#[test]
fn declaration_pending_statements_collapse() {
    // Zero pending statements become an empty statement, one stays bare,
    // two or more become a block in order.
    let body = vec![
        t(TokenValue::Int),
        ident("a"),
        t(TokenValue::Semicolon),
        // int y = a = 1;
        t(TokenValue::Int),
        ident("y"),
        t(TokenValue::Equal),
        ident("a"),
        t(TokenValue::Equal),
        int_lit(1),
        t(TokenValue::Semicolon),
        // int z = a = 2, w = a = 3;
        t(TokenValue::Int),
        ident("z"),
        t(TokenValue::Equal),
        ident("a"),
        t(TokenValue::Equal),
        int_lit(2),
        t(TokenValue::Comma),
        ident("w"),
        t(TokenValue::Equal),
        ident("a"),
        t(TokenValue::Equal),
        int_lit(3),
        t(TokenValue::Semicolon),
    ];
    let (prog, r) = run(wrap_main(body), ShaderStage::Vertex, false);
    assert!(r.is_ok());
    let f = function_named(&prog, "main");
    assert_eq!(f.body.len(), 3);
    assert!(matches!(f.body[0], Statement::Empty));
    assert!(matches!(f.body[1], Statement::Store { .. }));
    match &f.body[2] {
        Statement::Block(stores) => {
            assert_eq!(stores.len(), 2);
            assert!(matches!(stores[0], Statement::Store { .. }));
            assert!(matches!(stores[1], Statement::Store { .. }));
        }
        _ => panic!("expected a block"),
    }
    assert_eq!(f.local_variables.len(), 4);
}

#[test]
fn constructor_composes_components_in_order() {
    // vec3(1, 2, 3); yields one compose with three ordered components.
    let body = vec![
        t(TokenValue::Vec((VectorSize::Tri, ScalarKind::Float, 4))),
        t(TokenValue::LeftParen),
        int_lit(1),
        t(TokenValue::Comma),
        int_lit(2),
        t(TokenValue::Comma),
        int_lit(3),
        t(TokenValue::RightParen),
        t(TokenValue::Semicolon),
    ];
    let (prog, r) = run(wrap_main(body), ShaderStage::Vertex, false);
    assert!(r.is_ok());
    let f = function_named(&prog, "main");
    // Three constants, then the compose.
    assert_eq!(f.expressions.len(), 4);
    match f.expressions.get(f.expressions.handle_at(3)) {
        Expression::Compose { ty, components } => {
            assert_eq!(components.len(), 3);
            match &prog.types.get(*ty).inner {
                TypeInner::Vector { size, .. } => assert!(matches!(size, VectorSize::Tri)),
                _ => panic!("constructed type is not a vector"),
            }
            for (k, ch) in components.iter().enumerate() {
                match f.expressions.get(*ch) {
                    Expression::Constant(c) => {
                        match prog.constants.get(*c).inner {
                            glsl_front::ir::ConstantInner::Sint(v) => {
                                assert_eq!(v, (k as i64) + 1)
                            }
                            _ => panic!("component constant is not an integer"),
                        }
                    }
                    _ => panic!("component is not a constant"),
                }
            }
        }
        _ => panic!("expected a compose"),
    }
}

#[test]
fn non_type_call_target_fails() {
    // foo(1); with foo a plain variable never becomes a constructor.
    let body = vec![
        t(TokenValue::Int),
        ident("foo"),
        t(TokenValue::Semicolon),
        ident("foo"),
        t(TokenValue::LeftParen),
        int_lit(1),
        t(TokenValue::RightParen),
        t(TokenValue::Semicolon),
    ];
    let (_prog, r) = run(wrap_main(body), ShaderStage::Vertex, false);
    assert_eq!(r, Err(ErrorKind::UnimplementedFeature("Function call")));
}

#[test]
fn global_usage_scan_reports_reads_and_writes() {
    // in float g1; out float g2; void main() { g2 = g1; }
    let mut tokens = header(450);
    tokens.extend(vec![
        t(TokenValue::In),
        t(TokenValue::Float),
        ident("g1"),
        t(TokenValue::Semicolon),
        t(TokenValue::Out),
        t(TokenValue::Float),
        ident("g2"),
        t(TokenValue::Semicolon),
        t(TokenValue::Void),
        ident("main"),
        t(TokenValue::LeftParen),
        t(TokenValue::RightParen),
        t(TokenValue::LeftBrace),
        ident("g2"),
        t(TokenValue::Equal),
        ident("g1"),
        t(TokenValue::Semicolon),
        t(TokenValue::RightBrace),
        t(TokenValue::Void),
        ident("untouched"),
        t(TokenValue::LeftParen),
        t(TokenValue::RightParen),
        t(TokenValue::LeftBrace),
        t(TokenValue::Int),
        ident("x"),
        t(TokenValue::Semicolon),
        ident("x"),
        t(TokenValue::Equal),
        int_lit(1),
        t(TokenValue::Semicolon),
        t(TokenValue::RightBrace),
    ]);
    let (prog, r) = run(tokens, ShaderStage::Vertex, false);
    assert!(r.is_ok());
    let g1 = prog.lookup_global_variables.get(&"g1".to_string()).unwrap().index();
    let g2 = prog.lookup_global_variables.get(&"g2".to_string()).unwrap().index();
    let f = function_named(&prog, "main");
    assert_eq!(f.global_usage.len(), 2);
    assert!(f.global_usage[g1].read && !f.global_usage[g1].write);
    assert!(f.global_usage[g2].write && !f.global_usage[g2].read);
    // A function touching no globals reports an empty summary.
    let g = function_named(&prog, "untouched");
    assert_eq!(g.global_usage.len(), 2);
    for u in g.global_usage.iter() {
        assert!(!u.read && !u.write);
    }
}

#[test]
fn global_declaration_defaults_interpolation() {
    let mut tokens = header(450);
    tokens.extend(vec![
        t(TokenValue::Layout),
        t(TokenValue::LeftParen),
        ident("location"),
        t(TokenValue::Equal),
        int_lit(3),
        t(TokenValue::RightParen),
        t(TokenValue::In),
        t(TokenValue::Vec((VectorSize::Quad, ScalarKind::Float, 4))),
        ident("position_in"),
        t(TokenValue::Semicolon),
    ]);
    let (prog, r) = run(tokens, ShaderStage::Vertex, false);
    assert!(r.is_ok());
    let h = prog.lookup_global_variables.get(&"position_in".to_string()).unwrap();
    let gv = prog.global_variables.get(h);
    assert!(matches!(gv.class, StorageClass::Input));
    assert!(matches!(gv.binding, Some(Binding::Location(3))));
    assert!(matches!(gv.interpolation, Some(Interpolation::Perspective)));
}

#[test]
fn constant_global_has_no_default_interpolation() {
    let mut tokens = header(450);
    tokens.extend(vec![
        t(TokenValue::Const),
        t(TokenValue::Float),
        ident("k"),
        t(TokenValue::Semicolon),
    ]);
    let (prog, r) = run(tokens, ShaderStage::Vertex, false);
    assert!(r.is_ok());
    let h = prog.lookup_global_variables.get(&"k".to_string()).unwrap();
    let gv = prog.global_variables.get(h);
    assert!(matches!(gv.class, StorageClass::Constant));
    assert!(gv.interpolation.is_none());
}

#[test]
fn non_location_layout_qualifier_fails() {
    let mut tokens = header(450);
    tokens.extend(vec![
        t(TokenValue::Layout),
        t(TokenValue::LeftParen),
        ident("binding"),
        t(TokenValue::Equal),
        int_lit(0),
        t(TokenValue::RightParen),
        t(TokenValue::In),
        t(TokenValue::Float),
        ident("a"),
        t(TokenValue::Semicolon),
    ]);
    let (_prog, r) = run(tokens, ShaderStage::Vertex, false);
    assert_eq!(r, Err(ErrorKind::UnimplementedFeature("non location layout qualifier")));
}

#[test]
fn global_without_storage_class_fails() {
    let mut tokens = header(450);
    tokens.extend(vec![t(TokenValue::Float), ident("g"), t(TokenValue::Semicolon)]);
    let (_prog, r) = run(tokens, ShaderStage::Vertex, false);
    assert_eq!(r, Err(ErrorKind::SemanticError("Missing storage class for global var")));
}

fn redeclared_body() -> Vec<Token> {
    vec![
        t(TokenValue::Int),
        ident("x"),
        t(TokenValue::Semicolon),
        t(TokenValue::Int),
        ident("x"),
        t(TokenValue::Semicolon),
    ]
}

#[test]
fn duplicate_declaration_fails_when_validating() {
    let (_prog, r) = run(wrap_main(redeclared_body()), ShaderStage::Vertex, true);
    match r {
        Err(ErrorKind::DuplicateDeclaration(n)) => assert_eq!(n, "x"),
        other => panic!("expected a duplicate declaration, got {:?}", other),
    }
    // Without validation the redeclaration passes and both locals exist.
    let (prog, r) = run(wrap_main(redeclared_body()), ShaderStage::Vertex, false);
    assert!(r.is_ok());
    assert_eq!(function_named(&prog, "main").local_variables.len(), 2);
}

#[test]
fn comma_runs_left_effects_before_right() {
    let body = vec![
        t(TokenValue::Int),
        ident("a"),
        t(TokenValue::Semicolon),
        t(TokenValue::Int),
        ident("b"),
        t(TokenValue::Semicolon),
        ident("a"),
        t(TokenValue::Equal),
        int_lit(1),
        t(TokenValue::Comma),
        ident("b"),
        t(TokenValue::Equal),
        int_lit(2),
        t(TokenValue::Semicolon),
    ];
    let (prog, r) = run(wrap_main(body), ShaderStage::Vertex, false);
    assert!(r.is_ok());
    let f = function_named(&prog, "main");
    match &f.body[2] {
        Statement::Block(stores) => {
            assert_eq!(stores.len(), 2);
            assert_eq!(store_target_local(f, &stores[0]), 0);
            assert_eq!(store_target_local(f, &stores[1]), 1);
        }
        _ => panic!("expected a block"),
    }
}

#[test]
fn literals_and_types_are_interned_once() {
    let body = vec![
        t(TokenValue::Int),
        ident("a"),
        t(TokenValue::Equal),
        int_lit(1),
        t(TokenValue::Semicolon),
        t(TokenValue::Int),
        ident("b"),
        t(TokenValue::Equal),
        int_lit(1),
        t(TokenValue::Semicolon),
    ];
    let (prog, r) = run(wrap_main(body), ShaderStage::Vertex, false);
    assert!(r.is_ok());
    assert_eq!(prog.constants.len(), 1);
    assert_eq!(prog.types.len(), 1);
}

#[test]
fn unary_operator_is_refused() {
    let body = vec![
        t(TokenValue::Int),
        ident("a"),
        t(TokenValue::Semicolon),
        ident("a"),
        t(TokenValue::Equal),
        t(TokenValue::Dash),
        ident("a"),
        t(TokenValue::Semicolon),
    ];
    let (_prog, r) = run(wrap_main(body), ShaderStage::Vertex, false);
    assert_eq!(r, Err(ErrorKind::UnimplementedFeature("unary_op")));
}

#[test]
fn postfix_increment_is_refused() {
    let body = vec![
        t(TokenValue::Int),
        ident("a"),
        t(TokenValue::Semicolon),
        ident("a"),
        t(TokenValue::IncOp),
        t(TokenValue::Semicolon),
    ];
    let (_prog, r) = run(wrap_main(body), ShaderStage::Vertex, false);
    assert_eq!(r, Err(ErrorKind::UnimplementedFeature("post++")));
}

#[test]
fn ternary_is_refused() {
    let body = vec![
        t(TokenValue::Int),
        ident("a"),
        t(TokenValue::Semicolon),
        ident("a"),
        t(TokenValue::Equal),
        int_lit(1),
        t(TokenValue::Question),
        int_lit(2),
        t(TokenValue::Colon),
        int_lit(3),
        t(TokenValue::Semicolon),
    ];
    let (_prog, r) = run(wrap_main(body), ShaderStage::Vertex, false);
    assert_eq!(r, Err(ErrorKind::UnimplementedFeature("ternary exp")));
}

#[test]
fn logical_xor_is_refused() {
    let body = vec![
        t(TokenValue::Int),
        ident("a"),
        t(TokenValue::Semicolon),
        ident("a"),
        t(TokenValue::Equal),
        ident("a"),
        t(TokenValue::XorOp),
        ident("a"),
        t(TokenValue::Semicolon),
    ];
    let (_prog, r) = run(wrap_main(body), ShaderStage::Vertex, false);
    assert_eq!(r, Err(ErrorKind::UnimplementedFeature("logical xor")));
}

#[test]
fn compound_assignment_is_refused() {
    let body = vec![
        t(TokenValue::Int),
        ident("a"),
        t(TokenValue::Semicolon),
        ident("a"),
        t(TokenValue::AddAssign),
        int_lit(1),
        t(TokenValue::Semicolon),
    ];
    let (_prog, r) = run(wrap_main(body), ShaderStage::Vertex, false);
    assert_eq!(r, Err(ErrorKind::UnimplementedFeature("assign op")));
}

#[test]
fn binary_arithmetic_builds_nodes() {
    // a = a + a * a; gives one multiply under one add.
    let body = vec![
        t(TokenValue::Int),
        ident("a"),
        t(TokenValue::Semicolon),
        ident("a"),
        t(TokenValue::Equal),
        ident("a"),
        t(TokenValue::Plus),
        ident("a"),
        t(TokenValue::Star),
        ident("a"),
        t(TokenValue::Semicolon),
    ];
    let (prog, r) = run(wrap_main(body), ShaderStage::Vertex, false);
    assert!(r.is_ok());
    let f = function_named(&prog, "main");
    let mut mul = 0;
    let mut add = 0;
    for i in 0..f.expressions.len() {
        if let Expression::Binary { op, .. } = f.expressions.get(f.expressions.handle_at(i)) {
            match op {
                glsl_front::ir::BinaryOperator::Multiply => mul += 1,
                glsl_front::ir::BinaryOperator::Add => add += 1,
                _ => {}
            }
        }
    }
    assert_eq!((mul, add), (1, 1));
}

#[test]
fn float_literal_is_stored_by_bits() {
    let bits = (1.5f32 as f64).to_bits();
    let body = vec![
        ident("gl_Position"),
        t(TokenValue::Equal),
        t(TokenValue::FloatConstant(bits)),
        t(TokenValue::Semicolon),
    ];
    let (prog, r) = run(wrap_main(body), ShaderStage::Vertex, false);
    assert!(r.is_ok());
    let mut found = false;
    for i in 0..prog.constants.len() {
        let c = prog.constants.get(prog.constants.handle_at(i));
        if let glsl_front::ir::ConstantInner::Float(b) = c.inner {
            assert_eq!(f64::from_bits(b), 1.5);
            found = true;
        }
    }
    assert!(found);
}

#[test]
fn right_shift_appends_arithmetic_tag() {
    // The cascade agrees with the operator table: right shift is the
    // arithmetic tag.
    let body = vec![
        t(TokenValue::Int),
        ident("a"),
        t(TokenValue::Semicolon),
        ident("a"),
        t(TokenValue::Equal),
        ident("a"),
        t(TokenValue::RightOp),
        int_lit(1),
        t(TokenValue::Semicolon),
    ];
    let (prog, r) = run(wrap_main(body), ShaderStage::Vertex, false);
    assert!(r.is_ok());
    let f = function_named(&prog, "main");
    let mut found = false;
    for i in 0..f.expressions.len() {
        if let Expression::Binary { op, .. } = f.expressions.get(f.expressions.handle_at(i)) {
            assert!(matches!(op, glsl_front::ir::BinaryOperator::ShiftRightArithmetic));
            found = true;
        }
    }
    assert!(found);
}
