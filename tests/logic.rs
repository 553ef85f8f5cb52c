use calc_engine::logic::{
    char_to_token, evaluate_postfix, expression_tree, infix_to_postfix, operator_precedence,
    parse_expression, Expr, Operation, Token,
};

fn value(e: &Expr) -> f64 {
    match e {
        Expr::Number(s) => s.parse::<f64>().unwrap(),
        Expr::Binary(op, a, b) => {
            let (a, b) = (value(a), value(b));
            match op {
                Operation::Plus => a + b,
                Operation::Minus => a - b,
                Operation::Times => a * b,
                Operation::Divide => a / b,
            }
        }
    }
}

fn calculate(text: &str) -> f64 {
    match expression_tree(text) {
        Some(e) => value(&e),
        None => 0.0,
    }
}

fn render(ts: &[Token]) -> String {
    let mut out = String::new();
    for t in ts {
        match t {
            Token::Number(s) => out.push_str(s),
            Token::Operator(Operation::Plus) => out.push('+'),
            Token::Operator(Operation::Minus) => out.push('-'),
            Token::Operator(Operation::Times) => out.push('*'),
            Token::Operator(Operation::Divide) => out.push('/'),
            Token::LeftParen => out.push('('),
            Token::RightParen => out.push(')'),
        }
        out.push(' ');
    }
    out.trim_end().to_string()
}

#[test]
fn test_basic_operations() {
    assert_eq!(calculate("1+2"), 3.0);
    assert_eq!(calculate("5-3"), 2.0);
    assert_eq!(calculate("2*3"), 6.0);
    assert_eq!(calculate("6/2"), 3.0);
}

#[test]
fn test_operator_precedence() {
    assert_eq!(calculate("2+3*4"), 14.0);
    assert_eq!(calculate("3*4+2"), 14.0);
    assert_eq!(calculate("10-6/2"), 7.0);
}

#[test]
fn test_parentheses() {
    assert_eq!(calculate("(1+2)*3"), 9.0);
    assert_eq!(calculate("1+(2*3)"), 7.0);
    assert_eq!(calculate("(1+2)*(3+4)"), 21.0);
}

#[test]
fn test_nested_parentheses() {
    assert_eq!(calculate("((1+2)*3)+4"), 13.0);
    assert_eq!(calculate("1+(2*(3+4))"), 15.0);
}

#[test]
fn test_decimal_numbers() {
    assert_eq!(calculate("1.5+2.5"), 4.0);
    assert_eq!(calculate("3.14*2"), 6.28);
    assert_eq!(calculate("10.0/4.0"), 2.5);
}

#[test]
fn test_complex_expressions() {
    assert_eq!(calculate("3+4*2/(1-5)"), 1.0);
    assert_eq!(calculate("(3+4)*(2+3)"), 35.0);
}

#[test]
fn test_edge_cases() {
    assert_eq!(calculate(""), 0.0);
    assert_eq!(calculate("   "), 0.0);
    assert_eq!(calculate("((()))"), 0.0);
    assert_eq!(calculate("2++3"), 0.0);
}

#[test]
fn same_text_gives_same_tree() {
    let a = format!("{:?}", expression_tree("1+(2*(3+4))"));
    let b = format!("{:?}", expression_tree("1+(2*(3+4))"));
    assert_eq!(a, b);
    assert_eq!(calculate("1+(2*(3+4))"), calculate("1+(2*(3+4))"));
}

#[test]
fn precedence_values() {
    assert_eq!(operator_precedence(&Operation::Plus), 1);
    assert_eq!(operator_precedence(&Operation::Minus), 1);
    assert_eq!(operator_precedence(&Operation::Times), 2);
    assert_eq!(operator_precedence(&Operation::Divide), 2);
}

#[test]
fn display_glyphs_are_operators() {
    assert!(matches!(char_to_token('×'), Some(Token::Operator(Operation::Times))));
    assert!(matches!(char_to_token('÷'), Some(Token::Operator(Operation::Divide))));
    assert!(matches!(char_to_token('('), Some(Token::LeftParen)));
    assert!(matches!(char_to_token(')'), Some(Token::RightParen)));
    assert!(char_to_token('x').is_none());
    assert_eq!(calculate("6÷3×4"), 8.0);
}

#[test]
fn tokenizer_keeps_literal_text() {
    assert_eq!(render(&parse_expression("12.5+3")), "12.5 + 3");
    assert_eq!(render(&parse_expression(" 7 x 8 ")), "7 8");
    assert_eq!(render(&parse_expression("1 2")), "1 2");
    assert_eq!(render(&parse_expression("3×(4÷2)")), "3 * ( 4 / 2 )");
}

#[test]
fn tokenizer_drops_malformed_numbers() {
    assert_eq!(render(&parse_expression("1.2.3+4")), "+ 4");
    assert_eq!(render(&parse_expression(".+5.")), "+ 5.");
    assert_eq!(render(&parse_expression(".5")), ".5");
    assert_eq!(calculate("1.2.3+4"), 0.0);
}

#[test]
fn postfix_order() {
    let post = infix_to_postfix(&parse_expression("3+4*2/(1-5)"));
    assert_eq!(render(&post), "3 4 2 * 1 5 - / +");
    let post = infix_to_postfix(&parse_expression("8-3-2"));
    assert_eq!(render(&post), "8 3 - 2 -");
    assert_eq!(calculate("8-3-2"), 3.0);
    let post = infix_to_postfix(&parse_expression("1+2)*3"));
    assert_eq!(render(&post), "1 2 + 3 *");
    let post = infix_to_postfix(&parse_expression("(1+2"));
    assert_eq!(render(&post), "1 2 + (");
}

#[test]
fn evaluation_failures() {
    assert!(evaluate_postfix(&parse_expression("1 2 +")).is_some());
    assert!(evaluate_postfix(&parse_expression("1 +")).is_none());
    assert!(evaluate_postfix(&parse_expression("1 2")).is_none());
    assert!(evaluate_postfix(&parse_expression("( 1")).is_none());
    assert!(evaluate_postfix(&[]).is_none());
    assert_eq!(calculate("(1+2"), 0.0);
    assert_eq!(calculate("1+2)*3"), 9.0);
}

#[test]
fn tree_shape() {
    let t = format!("{:?}", expression_tree("2+3*4").unwrap());
    assert_eq!(
        t,
        "Binary(Plus, Number(\"2\"), Binary(Times, Number(\"3\"), Number(\"4\")))"
    );
}

#[test]
fn division_by_zero_is_not_an_error() {
    assert!(calculate("1/0").is_infinite());
    assert!(calculate("0/0").is_nan());
}
