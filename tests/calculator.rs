use calc_engine::calculator::{Calculator, CalculatorEvent, CalculatorState};

fn press(c: &mut Calculator, keys: &str) {
    for k in keys.chars() {
        match k {
            '0'..='9' => {
                c.input_number(k);
            }
            '.' => {
                c.input_decimal();
            }
            '(' | ')' => {
                c.input_parenthesis(k);
            }
            _ => {
                c.input_operator(k);
            }
        }
    }
}

#[test]
fn starts_at_zero() {
    let c = Calculator::new();
    assert_eq!(c.expression(), "0");
    assert_eq!(c.display_text(), "0");
    let s = c.state();
    assert_eq!(s.last_result, None);
    assert!(!s.just_calculated);
    assert!(!s.is_empty);
    assert_eq!(Calculator::default().expression(), "0");
    assert_eq!(CalculatorState::default().expression, "0");
}

#[test]
fn digits_replace_lone_zero() {
    let mut c = Calculator::new();
    let ev = c.input_number('7');
    assert_eq!(c.expression(), "7");
    assert!(matches!(ev[0], CalculatorEvent::NumberPressed('7')));
    assert!(matches!(&ev[1], CalculatorEvent::ExpressionChanged(s) if s == "7"));
    c.input_number('0');
    assert_eq!(c.expression(), "70");
    assert!(c.input_number('x').is_empty());
    assert_eq!(c.expression(), "70");
}

#[test]
fn operator_replaces_trailing_operator() {
    let mut c = Calculator::new();
    press(&mut c, "5+");
    let ev = c.input_operator('×');
    assert_eq!(c.expression(), "5*");
    assert!(matches!(ev[0], CalculatorEvent::OperatorPressed('×')));
    press(&mut c, "÷");
    assert_eq!(c.expression(), "5/");
    assert!(c.input_operator('^').is_empty());
    assert_eq!(c.expression(), "5/");
    assert_eq!(c.display_text(), "5÷");
}

#[test]
fn percentage_is_rewritten_for_evaluation() {
    let mut c = Calculator::new();
    press(&mut c, "50+10");
    let ev = c.input_operator('%');
    assert!(matches!(ev[0], CalculatorEvent::PercentagePressed));
    assert_eq!(c.expression(), "50+10%");
    assert_eq!(c.evaluation_text().unwrap(), "50+10/100.0");
    let mut d = Calculator::new();
    press(&mut d, "3×4÷2");
    assert_eq!(d.expression(), "3*4/2");
    d.set_expression("3×4÷2%");
    assert_eq!(d.evaluation_text().unwrap(), "3*4/2/100.0");
}

#[test]
fn nothing_to_evaluate() {
    let mut c = Calculator::new();
    assert!(c.evaluation_text().is_none());
    assert!(c.calculate("0".to_string()).is_empty());
    assert!(!c.state().just_calculated);
    c.set_expression("");
    assert!(c.state().is_empty);
    assert!(c.evaluation_text().is_none());
    assert_eq!(c.display_text(), "0");
}

#[test]
fn parentheses_rules() {
    let mut c = Calculator::new();
    assert!(c.input_parenthesis(')').is_empty());
    assert_eq!(c.expression(), "0");
    press(&mut c, "3(");
    assert_eq!(c.expression(), "3*(");
    press(&mut c, "1+2))");
    assert_eq!(c.expression(), "3*(1+2)");
    press(&mut c, "(");
    assert_eq!(c.expression(), "3*(1+2)*(");
    assert!(c.input_parenthesis('[').is_empty());
    let mut d = Calculator::new();
    d.set_expression("1+");
    press(&mut d, "(");
    assert_eq!(d.expression(), "1+(");
}

#[test]
fn one_point_per_number() {
    let mut c = Calculator::new();
    press(&mut c, "1.5.");
    assert_eq!(c.expression(), "1.5");
    assert!(c.input_decimal().is_empty());
    press(&mut c, "+.");
    assert_eq!(c.expression(), "1.5+.");
    let mut d = Calculator::new();
    press(&mut d, ".");
    assert_eq!(d.expression(), "0.");
}

#[test]
fn delete_leaves_zero() {
    let mut c = Calculator::new();
    press(&mut c, "12");
    let ev = c.delete();
    assert!(matches!(ev[0], CalculatorEvent::DeletePressed));
    assert_eq!(c.expression(), "1");
    c.delete();
    assert_eq!(c.expression(), "0");
    assert!(!c.state().is_empty);
}

#[test]
fn calculate_then_display() {
    let mut c = Calculator::new();
    press(&mut c, "2+3*4");
    assert_eq!(c.evaluation_text().unwrap(), "2+3*4");
    let ev = c.calculate("14".to_string());
    assert!(matches!(ev[0], CalculatorEvent::EqualsPressed));
    assert!(matches!(&ev[1], CalculatorEvent::ResultCalculated(s) if s == "14"));
    assert!(c.state().just_calculated);
    assert_eq!(c.state().last_result.as_deref(), Some("14"));
    assert_eq!(c.display_text(), "14");
    assert_eq!(c.expression(), "2+3*4");
    assert_eq!(c.state().summary(), "14");
}

#[test]
fn display_strips_point_zero() {
    let mut c = Calculator::new();
    press(&mut c, "5*2");
    c.calculate("10.0".to_string());
    assert_eq!(c.display_text(), "10");
    c.calculate("1.0.0".to_string());
    assert_eq!(c.display_text(), "1");
    c.calculate("2.5".to_string());
    assert_eq!(c.display_text(), "2.5");
    c.calculate("10.05".to_string());
    assert_eq!(c.display_text(), "10.05");
}

#[test]
fn calculate_twice_is_stable() {
    let mut c = Calculator::new();
    press(&mut c, "7-2");
    let text = c.evaluation_text().unwrap();
    c.calculate("5".to_string());
    let shown = c.display_text();
    assert_eq!(c.evaluation_text().unwrap(), text);
    c.calculate("5".to_string());
    assert_eq!(c.display_text(), shown);
    assert_eq!(c.state().last_result.as_deref(), Some("5"));
}

#[test]
fn digit_after_calculate_starts_fresh() {
    let mut c = Calculator::new();
    press(&mut c, "6/3");
    c.calculate("2".to_string());
    press(&mut c, "9");
    assert_eq!(c.expression(), "9");
    assert!(!c.state().just_calculated);
    assert_eq!(c.state().last_result, None);
}

#[test]
fn operator_after_calculate_continues_from_result() {
    let mut c = Calculator::new();
    press(&mut c, "1-4");
    c.calculate("-3".to_string());
    press(&mut c, "×");
    assert_eq!(c.expression(), "-3*");
    let mut d = Calculator::new();
    press(&mut d, "1+1");
    d.calculate("2".to_string());
    d.input_percentage();
    assert_eq!(d.expression(), "2%");
}

#[test]
fn keys_after_calculate_restart() {
    let mut c = Calculator::new();
    press(&mut c, "1+1");
    c.calculate("2".to_string());
    press(&mut c, ".");
    assert_eq!(c.expression(), "0.");
    let mut d = Calculator::new();
    press(&mut d, "1+1");
    d.calculate("2".to_string());
    press(&mut d, "(");
    assert_eq!(d.expression(), "0*(");
    let mut e = Calculator::new();
    press(&mut e, "(1+1");
    e.calculate("2".to_string());
    let ev = e.input_parenthesis(')');
    assert_eq!(e.expression(), "0");
    assert_eq!(ev.len(), 1);
    assert!(!e.state().just_calculated);
}

#[test]
fn delete_after_calculate_clears() {
    let mut c = Calculator::new();
    press(&mut c, "8+1");
    c.calculate("9".to_string());
    let ev = c.delete();
    assert!(matches!(ev[0], CalculatorEvent::ClearPressed));
    assert!(matches!(ev[1], CalculatorEvent::StateReset));
    assert_eq!(c.expression(), "0");
    assert_eq!(c.state().last_result, None);
}

#[test]
fn clear_resets() {
    let mut c = Calculator::new();
    press(&mut c, "(4+");
    c.clear();
    assert_eq!(c.expression(), "0");
    assert_eq!(c.display_text(), "0");
}

#[test]
fn edits_keep_invariants() {
    let mut c = Calculator::new();
    press(&mut c, "1..2+-*(3.4.)5)(");
    c.delete();
    c.delete();
    press(&mut c, ")))");
    let e = c.expression().to_string();
    assert!(!e.is_empty());
    assert_eq!(e, "1.2*(3.4)5");
    let mut depth = 0i32;
    for ch in e.chars() {
        if ch == '(' {
            depth += 1;
        }
        if ch == ')' {
            depth -= 1;
        }
        assert!(depth >= 0);
    }
}

#[test]
fn set_expression_enters() {
    let mut c = Calculator::new();
    press(&mut c, "1+2");
    c.calculate("3".to_string());
    let ev = c.set_expression("4*5");
    assert!(matches!(&ev[0], CalculatorEvent::ExpressionChanged(s) if s == "4*5"));
    assert_eq!(c.display_text(), "4×5");
    assert_eq!(c.state().summary(), "4*5");
    assert!(!c.state().just_calculated);
}
