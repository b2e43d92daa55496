use typechecker::ast::{Ast, Span, TypeAst};
use typechecker::typechecker::{Type, TypeChecker, TypeError};

fn sp() -> Span {
    Span { start: 0, end: 0 }
}

fn lit_int(v: i64) -> Box<Ast> {
    Box::new(Ast::IntLiteral(v, sp()))
}

fn lit_bool(v: bool) -> Box<Ast> {
    Box::new(Ast::BoolLiteral(v, sp()))
}

fn var(name: &str) -> Box<Ast> {
    Box::new(Ast::Var(name.to_string(), sp()))
}

fn check(ast: &Ast) -> Result<Type, TypeError> {
    let mut checker = TypeChecker::new();
    checker.typecheck(ast)
}

#[test]
fn repeated_checks_agree() {
    let make = || Ast::Add(lit_int(1), Box::new(Ast::Paren(lit_int(2), sp())));
    let first = check(&make());
    let second = check(&make());
    assert_eq!(first, Ok(Type::Int));
    assert_eq!(first, second);
}

#[test]
fn conversion_is_structural() {
    let checker = TypeChecker::new();
    let int_to_bool = TypeAst::Function(
        Box::new(TypeAst::Int(sp())),
        Box::new(TypeAst::Bool(sp())),
    );
    let int_to_bool_again = TypeAst::Function(
        Box::new(TypeAst::Int(Span { start: 7, end: 9 })),
        Box::new(TypeAst::Bool(Span { start: 13, end: 17 })),
    );
    let bool_to_int = TypeAst::Function(
        Box::new(TypeAst::Bool(sp())),
        Box::new(TypeAst::Int(sp())),
    );
    assert_eq!(checker.eval(&int_to_bool), checker.eval(&int_to_bool_again));
    assert_ne!(checker.eval(&int_to_bool), checker.eval(&bool_to_int));
    assert_eq!(
        checker.eval(&int_to_bool),
        Ok(Type::Function(Box::new(Type::Int), Box::new(Type::Bool)))
    );
}

#[test]
fn binding_is_reversed_when_unbound_before() {
    let mut checker = TypeChecker::new();
    assert_eq!(checker.get_var("x"), None);
    let seen = checker.var("x".to_string(), Type::Int, |c: &mut TypeChecker| c.get_var("x"));
    assert_eq!(seen, Some(Type::Int));
    assert_eq!(checker.get_var("x"), None);
}

#[test]
fn binding_is_reversed_when_shadowed() {
    let mut checker = TypeChecker::new();
    let outer = checker.var("x".to_string(), Type::Int, |c: &mut TypeChecker| {
        let inner = c.var("x".to_string(), Type::Bool, |c2: &mut TypeChecker| c2.get_var("x"));
        assert_eq!(inner, Some(Type::Bool));
        c.get_var("x")
    });
    assert_eq!(outer, Some(Type::Int));
    assert_eq!(checker.get_var("x"), None);
}

#[test]
fn binding_reversed_after_failure_inside() {
    let mut checker = TypeChecker::new();
    let unbound = Ast::Var("nope".to_string(), sp());
    let r = checker.var("x".to_string(), Type::Int, |c: &mut TypeChecker| c.typecheck(&unbound));
    assert_eq!(r, Err(TypeError::UnboundVariable));
    assert_eq!(checker.get_var("x"), None);
}

#[test]
fn shadowing_inner_binding_wins() {
    let ast = Ast::Let {
        name: "x".to_string(),
        right: lit_int(1),
        body: Box::new(Ast::Let {
            name: "x".to_string(),
            right: lit_bool(true),
            body: var("x"),
            span: sp(),
        }),
        span: sp(),
    };
    let mut checker = TypeChecker::new();
    assert_eq!(checker.typecheck(&ast), Ok(Type::Bool));
    assert_eq!(checker.get_var("x"), None);
}

#[test]
fn add_is_strict() {
    assert_eq!(
        check(&Ast::Add(lit_int(1), lit_bool(true))),
        Err(TypeError::TypeMismatch)
    );
    assert_eq!(check(&Ast::Add(lit_int(1), lit_int(2))), Ok(Type::Int));
}

#[test]
fn and_wants_booleans() {
    assert_eq!(check(&Ast::And(lit_bool(true), lit_bool(false))), Ok(Type::Bool));
    assert_eq!(check(&Ast::And(lit_bool(true), lit_int(1))), Err(TypeError::TypeMismatch));
    assert_eq!(check(&Ast::And(lit_int(0), lit_int(1))), Err(TypeError::TypeMismatch));
}

#[test]
fn eq_works_on_either_base_type() {
    assert_eq!(check(&Ast::Eq(lit_int(1), lit_int(1))), Ok(Type::Bool));
    assert_eq!(check(&Ast::Eq(lit_bool(true), lit_bool(false))), Ok(Type::Bool));
    assert_eq!(check(&Ast::Eq(lit_int(1), lit_bool(true))), Err(TypeError::TypeMismatch));
}

#[test]
fn eq_rejects_function_operands() {
    let f = || {
        Box::new(Ast::Function {
            input: ("x".to_string(), sp()),
            input_type: TypeAst::Int(sp()),
            ret: var("x"),
            span: sp(),
        })
    };
    assert_eq!(check(&Ast::Eq(f(), f())), Err(TypeError::TypeMismatch));
}

#[test]
fn function_literal_types_to_arrow() {
    let ast = Ast::Function {
        input: ("x".to_string(), sp()),
        input_type: TypeAst::Int(sp()),
        ret: var("x"),
        span: sp(),
    };
    assert_eq!(
        check(&ast),
        Ok(Type::Function(Box::new(Type::Int), Box::new(Type::Int)))
    );
}

#[test]
fn unbound_variable_is_reported() {
    assert_eq!(check(&Ast::Var("y".to_string(), sp())), Err(TypeError::UnboundVariable));
}

#[test]
fn let_binds_name_for_body() {
    let ast = Ast::Let {
        name: "n".to_string(),
        right: lit_int(3),
        body: Box::new(Ast::Add(var("n"), var("n"))),
        span: sp(),
    };
    assert_eq!(check(&ast), Ok(Type::Int));
}

#[test]
fn let_propagates_failure_of_bound_expression() {
    let ast = Ast::Let {
        name: "n".to_string(),
        right: var("missing"),
        body: lit_int(0),
        span: sp(),
    };
    assert_eq!(check(&ast), Err(TypeError::UnboundVariable));
}

#[test]
fn paren_is_transparent() {
    assert_eq!(check(&Ast::Paren(lit_bool(false), sp())), Ok(Type::Bool));
}

#[test]
fn left_failure_reported_before_right_mismatch() {
    let ast = Ast::Add(var("missing"), lit_bool(true));
    assert_eq!(check(&ast), Err(TypeError::UnboundVariable));
}

#[test]
fn nested_annotation_converts_deeply() {
    let checker = TypeChecker::new();
    let ann = TypeAst::Function(
        Box::new(TypeAst::Function(
            Box::new(TypeAst::Int(sp())),
            Box::new(TypeAst::Bool(sp())),
        )),
        Box::new(TypeAst::Int(sp())),
    );
    assert_eq!(
        checker.eval(&ann),
        Ok(Type::Function(
            Box::new(Type::Function(Box::new(Type::Int), Box::new(Type::Bool))),
            Box::new(Type::Int)
        ))
    );
}

#[test]
fn function_body_can_use_outer_let_binding() {
    let ast = Ast::Let {
        name: "y".to_string(),
        right: lit_int(5),
        body: Box::new(Ast::Function {
            input: ("x".to_string(), sp()),
            input_type: TypeAst::Bool(sp()),
            ret: Box::new(Ast::Add(var("y"), lit_int(1))),
            span: sp(),
        }),
        span: sp(),
    };
    assert_eq!(
        check(&ast),
        Ok(Type::Function(Box::new(Type::Bool), Box::new(Type::Int)))
    );
}
