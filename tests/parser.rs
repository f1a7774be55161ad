use armcc::ast::{BinaryOp, BlockItem, Constant, DeclOrExpr, Expr, Program, Statement, UnaryOp};
use armcc::parser::{Parser, ParserError};
use armcc::tokenizer::Tokenizer;

fn parse(src: &str) -> Result<Program, ParserError> {
    Parser::new(Tokenizer::new(src).tokenize().unwrap()).parse()
}

/// The expression of `return E;` in `int main() { return E; }`.
fn ret_expr(e: &str) -> Expr {
    let program = parse(&format!("int main() {{ return {}; }}", e)).unwrap();
    let mut items = program.function.body.items;
    assert_eq!(items.len(), 1);
    match items.remove(0) {
        BlockItem::Statement(Statement::Return(e)) => *e,
        _ => panic!("not a return"),
    }
}

fn constant_value(e: &Expr) -> i32 {
    match e {
        Expr::Constant(Constant::Int(n)) => *n,
        _ => panic!("not an integer constant"),
    }
}

/// Writes an expression fully parenthesized.
fn show(e: &Expr) -> String {
    match e {
        Expr::Constant(Constant::Int(n)) => n.to_string(),
        Expr::Var(x) => x.clone(),
        Expr::Assignment(x, e) => format!("({} = {})", x, show(e)),
        Expr::UnaryOp(op, e) => format!("({:?} {})", op, show(e)),
        Expr::BinaryOp(op, l, r) => format!("({} {:?} {})", show(l), op, show(r)),
        Expr::TernaryConditional(t) => {
            format!("({} ? {} : {})", show(&t.condition), show(&t.if_expr), show(&t.else_expr))
        }
        _ => "?".to_string(),
    }
}

#[test]
fn test_parser_valid_files() {
    let sources = [
        "int main() { return 2; }",
        "int main() { int a = 5; int b; b = a * 2; return b; }",
        "int main() { if (1) return 2; else { return 3; } }",
        "int main() { int i = 0; while (i < 3) i = i + 1; do { i = i - 1; } while (i); return i; }",
        "int main() { int s = 0; for (int i = 0; i < 4; i = i + 1) { if (i == 2) continue; s = s + i; } return s; }",
        "int main() { for (;;) { break; } ; return 1 ? 2 : 3; }",
    ];
    for src in sources.iter() {
        assert!(parse(src).is_ok(), "{}", src);
    }
}

#[test]
fn test_parser_invalid_files() {
    let sources = [
        "int main() { return 2 }",
        "int main( { return 2; }",
        "int main() { return; }",
        "int main() { return 2;",
        "int foo() { return 2; }",
        "int main() { int = 3; }",
    ];
    for src in sources.iter() {
        assert!(parse(src).is_err(), "{}", src);
    }
}

#[test]
fn higher_precedence_binds_tighter() {
    assert_eq!(show(&ret_expr("1 + 2 * 3")), "(1 Addition (2 Multiplication 3))");
    assert_eq!(show(&ret_expr("1 || 2 && 3")), "(1 Or (2 And 3))");
    assert_eq!(show(&ret_expr("1 == 2 < 3")), "(1 Equal (2 LessThan 3))");
    assert_eq!(show(&ret_expr("1 | 2 ^ 3 & 4")), "(1 BitwiseOr (2 BitwiseXor (3 BitwiseAnd 4)))");
    assert_eq!(show(&ret_expr("1 < 2 << 3")), "(1 LessThan (2 BitwiseShiftLeft 3))");
    assert_eq!(show(&ret_expr("1 << 2 - 3")), "(1 BitwiseShiftLeft (2 Subtraction 3))");
    assert_eq!(show(&ret_expr("1 - 2 % 3")), "(1 Subtraction (2 Modulo 3))");
}

#[test]
fn subtraction_is_left_associative() {
    match ret_expr("5 - 2 - 1") {
        Expr::BinaryOp(BinaryOp::Subtraction, l, r) => {
            assert_eq!(constant_value(&r), 1);
            match *l {
                Expr::BinaryOp(BinaryOp::Subtraction, a, b) => {
                    assert_eq!(constant_value(&a), 5);
                    assert_eq!(constant_value(&b), 2);
                }
                _ => panic!("left operand is not a subtraction"),
            }
        }
        _ => panic!("not a subtraction"),
    }
}

#[test]
fn ternary_is_right_associative() {
    assert_eq!(show(&ret_expr("1 ? 2 : 3 ? 4 : 5")), "(1 ? 2 : (3 ? 4 : 5))");
}

#[test]
fn parentheses_do_not_change_the_tree() {
    for e in ["1 + 2 * 3", "a = 4", "1 ? 2 : 3", "-~!x", "(1 - 2) - 3"].iter() {
        assert_eq!(show(&ret_expr(&format!("({})", e))), show(&ret_expr(e)));
    }
    assert_eq!(show(&ret_expr("(1 + 2) * 3")), "((1 Addition 2) Multiplication 3)");
}

#[test]
fn unary_operators_apply_to_an_atom() {
    assert_eq!(show(&ret_expr("-1 + 2")), "((Negation 1) Addition 2)");
    match ret_expr("!x") {
        Expr::UnaryOp(UnaryOp::LogicalNegation, _) => {}
        _ => panic!("not a negation"),
    }
}

#[test]
fn assignment_takes_the_whole_rest() {
    assert_eq!(show(&ret_expr("x = y = 1 + 2")), "(x = (y = (1 Addition 2)))");
}

#[test]
fn for_with_missing_parts() {
    let program = parse("int main() { for (;;) ; }").unwrap();
    match &program.function.body.items[0] {
        BlockItem::Statement(Statement::For(f)) => {
            assert!(matches!(*f.init, DeclOrExpr::Expression(Expr::Null)));
            assert!(matches!(*f.condition, Expr::Null));
            assert!(matches!(*f.increment, Expr::Null));
            assert!(matches!(*f.body, Statement::Null));
        }
        _ => panic!("not a for loop"),
    }
}

#[test]
fn wrong_function_name_is_reported() {
    match parse("int start() { return 0; }") {
        Err(ParserError::UnexpectedFunctionName(expected, got)) => {
            assert_eq!(expected, "main");
            assert_eq!(got, "start");
        }
        _ => panic!("expected a function name error"),
    }
}

#[test]
fn binary_operator_where_an_atom_belongs() {
    assert!(matches!(
        parse("int main() { return * 2; }"),
        Err(ParserError::UnexpectedBinOpForAtom(_))
    ));
    assert!(matches!(parse("int main() { return"), Err(ParserError::UnexpectedEOFForAtom)));
}
