use infix_calc::{evaluate, Ast, BinOp, CalculatorError};

/// Folds an expression tree into a 64-bit float, the way the surrounding
/// application does: leaves parse as f64, `^` is `powf`, division by zero
/// follows IEEE-754.
fn fold(ast: &Ast) -> f64 {
    match ast {
        Ast::Num(text) => text.iter().collect::<String>().parse::<f64>().unwrap(),
        Ast::Neg(inner) => -fold(inner),
        Ast::Bin(op, lhs, rhs) => {
            let l = fold(lhs);
            let r = fold(rhs);
            match op {
                BinOp::Add => l + r,
                BinOp::Sub => l - r,
                BinOp::Mul => l * r,
                BinOp::Div => l / r,
                BinOp::Pow => l.powf(r),
            }
        }
    }
}

fn evaluate_num(expr: &str) -> Result<f64, CalculatorError> {
    evaluate(expr).map(|ast| fold(&ast))
}

#[test]
fn test_addition() {
    assert_eq!(evaluate_num("40 + 30"), Ok(70.0));
}

#[test]
fn test_subtraction() {
    assert_eq!(evaluate_num("40 - 20"), Ok(20.0));
}

#[test]
fn test_multiplication() {
    assert_eq!(evaluate_num("5*20"), Ok(100.0));
}

#[test]
fn test_division() {
    assert_eq!(evaluate_num("10/40"), Ok(0.25));
}

#[test]
fn test_power() {
    assert_eq!(evaluate_num("2 ^ 3 ^ 2"), Ok(512.0));
}

#[test]
fn test_unary_neg() {
    assert_eq!(evaluate_num("----10"), Ok(10.0));
    assert_eq!(evaluate_num("-(-(-(-(10))))"), Ok(10.0));
}

#[test]
fn test_mixed_operators() {
    assert_eq!(evaluate_num("5(3/2)^2 * 6(10) / 2^2"), Ok(168.75));
    assert_eq!(evaluate_num("3 ^ 6 - (1.5 * 6 / 2 + 1) + 5 / 2 + 1"), Ok(727.0));
    assert_eq!(
        evaluate_num("--10 + -30 * 20^(1/2) - (3^4^(1/2)) / (2 * (2^2^100^(1/2)))"),
        Ok(-124.1640786499874)
    );
}

#[test]
fn empty_input_is_empty_expression() {
    assert_eq!(evaluate(""), Err(CalculatorError::EmptyExpression));
}

#[test]
fn whitespace_only_is_invalid_expression() {
    assert_eq!(evaluate("   "), Err(CalculatorError::InvalidExpression));
}

#[test]
fn two_decimal_points_is_invalid_number() {
    assert_eq!(
        evaluate("3..5"),
        Err(CalculatorError::InvalidNumber(vec!['3', '.', '.', '5']))
    );
}

#[test]
fn invalid_number_inside_expression_carries_its_text() {
    assert_eq!(
        evaluate_num("1 + 2.3.4"),
        Err(CalculatorError::InvalidNumber(vec!['2', '.', '3', '.', '4']))
    );
}

#[test]
fn leftover_opening_paren_is_unmatched() {
    assert_eq!(evaluate("(2"), Err(CalculatorError::UnmatchedParentheses));
    assert_eq!(evaluate("2 * (3 + 4"), Err(CalculatorError::UnmatchedParentheses));
}

#[test]
fn lone_operator_is_a_stack_underflow_fault() {
    assert_eq!(evaluate("+"), Err(CalculatorError::StackUnderflow));
    assert_eq!(evaluate("5-"), Err(CalculatorError::StackUnderflow));
}

#[test]
fn reevaluation_gives_identical_results() {
    let text = "5(3/2)^2 * 6(10) / 2^2";
    let first = evaluate(text);
    let second = evaluate(text);
    let third = evaluate(text);
    assert_eq!(first, second);
    assert_eq!(second, third);
    assert_eq!(evaluate(""), evaluate(""));
}

#[test]
fn division_by_zero_follows_float_semantics() {
    assert_eq!(evaluate_num("1/0"), Ok(f64::INFINITY));
    assert_eq!(evaluate_num("-(1)/0"), Ok(f64::NEG_INFINITY));
}

#[test]
fn power_tree_associates_to_the_right() {
    assert_eq!(
        evaluate("2^3^2"),
        Ok(Ast::Bin(
            BinOp::Pow,
            Box::new(Ast::Num(vec!['2'])),
            Box::new(Ast::Bin(
                BinOp::Pow,
                Box::new(Ast::Num(vec!['3'])),
                Box::new(Ast::Num(vec!['2'])),
            )),
        ))
    );
}

#[test]
fn well_formed_expressions_reach_no_fault() {
    let cases = [
        "40 + 30",
        "2 ^ 3 ^ 2",
        "----10",
        "-(-(-(-(10))))",
        "5(3/2)^2 * 6(10) / 2^2",
        "1/0",
        "0.5 + 5. + 2",
    ];
    for text in cases {
        let res = evaluate(text);
        assert!(res.is_ok(), "{text} was refused");
    }
}
