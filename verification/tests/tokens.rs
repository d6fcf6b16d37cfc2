use infix_calc::{
    check_number, evaluate_postfix, is_lt_eq_precedence, is_op_or_paren, is_str_digit,
    is_unary_neg, precedence, should_push_buffer, to_postfix, tokenize, Ast, CalculatorError,
    Token,
};

fn num(text: &str) -> Token {
    Token::Number(text.chars().collect())
}

#[test]
fn implicit_multiplication_is_inserted() {
    assert_eq!(
        tokenize("5(3/2)"),
        vec![
            num("5"),
            Token::Star,
            Token::LParen,
            num("3"),
            Token::Slash,
            num("2"),
            Token::RParen,
        ]
    );
    assert_eq!(
        tokenize("(2)(3)"),
        vec![
            Token::LParen,
            num("2"),
            Token::RParen,
            Token::Star,
            Token::LParen,
            num("3"),
            Token::RParen,
        ]
    );
}

#[test]
fn unary_minus_becomes_negation_or_merges_into_the_literal() {
    // A pending unary minus directly before a digit merges into the literal;
    // one before another minus or a parenthesis becomes the negation marker.
    assert_eq!(tokenize("--10"), vec![Token::Negate, num("-10")]);
    assert_eq!(
        tokenize("-(10)"),
        vec![Token::Negate, Token::LParen, num("10"), Token::RParen]
    );
    assert_eq!(tokenize("5-3"), vec![num("5"), Token::Minus, num("3")]);
    assert_eq!(tokenize("5--3"), vec![num("5"), Token::Minus, num("-3")]);
}

#[test]
fn whitespace_and_unknown_characters_are_ignored() {
    assert_eq!(tokenize("4 0 + x3"), vec![num("40"), Token::Plus, num("3")]);
}

#[test]
fn power_on_power_stays_right_associative_in_postfix() {
    assert_eq!(
        to_postfix(tokenize("2 ^ 3 ^ 2")),
        vec![num("2"), num("3"), num("2"), Token::Caret, Token::Caret]
    );
}

#[test]
fn precedence_orders_the_postfix_output() {
    assert_eq!(
        to_postfix(tokenize("1+2*3")),
        vec![num("1"), num("2"), num("3"), Token::Star, Token::Plus]
    );
    assert_eq!(
        to_postfix(tokenize("(1+2)*3")),
        vec![num("1"), num("2"), Token::Plus, num("3"), Token::Star]
    );
}

#[test]
fn precedence_table_is_fixed() {
    assert_eq!(precedence(&Token::Plus), 1);
    assert_eq!(precedence(&Token::Minus), 1);
    assert_eq!(precedence(&Token::Star), 2);
    assert_eq!(precedence(&Token::Slash), 2);
    assert_eq!(precedence(&Token::Caret), 3);
    assert_eq!(precedence(&Token::Negate), 4);
    assert_eq!(precedence(&Token::LParen), 0);
    assert_eq!(precedence(&num("7")), 0);
}

#[test]
fn pop_rule_spares_the_right_associative_pairs() {
    assert!(is_lt_eq_precedence(&Token::Plus, &Token::Star));
    assert!(is_lt_eq_precedence(&Token::Plus, &Token::Plus));
    assert!(!is_lt_eq_precedence(&Token::Star, &Token::Plus));
    assert!(!is_lt_eq_precedence(&Token::Caret, &Token::Caret));
    assert!(!is_lt_eq_precedence(&Token::Negate, &Token::Negate));
    assert!(!is_lt_eq_precedence(&Token::LParen, &Token::Plus));
    assert!(!is_lt_eq_precedence(&Token::Plus, &num("7")));
}

#[test]
fn op_or_paren_is_everything_but_a_number() {
    assert!(is_op_or_paren(&Token::Plus));
    assert!(is_op_or_paren(&Token::RParen));
    assert!(is_op_or_paren(&Token::Negate));
    assert!(!is_op_or_paren(&num("12")));
}

#[test]
fn str_digit_looks_for_any_digit() {
    assert!(is_str_digit(&vec!['-', '1', '0']));
    assert!(is_str_digit(&vec!['0']));
    assert!(!is_str_digit(&vec!['-', '.']));
    assert!(!is_str_digit(&vec![]));
}

#[test]
fn unary_rule_follows_the_last_token() {
    let pending = vec!['-'];
    assert!(is_unary_neg(&vec![], &pending));
    assert!(is_unary_neg(&vec![Token::Plus], &pending));
    assert!(is_unary_neg(&vec![Token::Negate], &pending));
    assert!(is_unary_neg(&vec![Token::LParen], &pending));
    assert!(!is_unary_neg(&vec![Token::RParen], &pending));
    assert!(!is_unary_neg(&vec![num("5")], &pending));
    assert!(!is_unary_neg(&vec![], &vec!['-', '1']));
}

#[test]
fn buffer_is_pushed_unless_empty_or_pending_unary() {
    assert!(should_push_buffer(&vec![num("5")], &vec!['-']));
    assert!(!should_push_buffer(&vec![Token::Plus], &vec!['-']));
    assert!(!should_push_buffer(&vec![num("5")], &vec![]));
    assert!(should_push_buffer(&vec![], &vec!['5']));
}

#[test]
fn number_literals_take_one_point_and_a_sign() {
    assert!(check_number(&"10".chars().collect()));
    assert!(check_number(&"-10".chars().collect()));
    assert!(check_number(&"1.5".chars().collect()));
    assert!(check_number(&".5".chars().collect()));
    assert!(check_number(&"5.".chars().collect()));
    assert!(!check_number(&"".chars().collect()));
    assert!(!check_number(&"-".chars().collect()));
    assert!(!check_number(&".".chars().collect()));
    assert!(!check_number(&"-.".chars().collect()));
    assert!(!check_number(&"1.2.3".chars().collect()));
    assert!(!check_number(&"1x2".chars().collect()));
}

#[test]
fn extra_values_are_ignored_and_the_bottom_slot_wins() {
    // The evaluator keeps only the bottom-most stack slot when a malformed
    // postfix sequence leaves several values behind.
    let res = evaluate_postfix(vec![num("2"), num("3")]);
    assert_eq!(res, Ok(Ast::Num(vec!['2'])));
}

#[test]
fn stray_closing_paren_in_postfix_is_unmatched() {
    let res = evaluate_postfix(vec![num("2"), Token::RParen]);
    assert_eq!(res, Err(CalculatorError::UnmatchedParentheses));
}
