use vstd::prelude::*;

verus! {

/// A lexical unit of an infix arithmetic expression.
///
/// A `Number` carries the characters of the literal exactly as they were
/// scanned (digits, at most one point, possibly a leading minus merged in by
/// the tokenizer). `Negate` is the synthetic unary-minus marker: it never
/// comes from a single input character by itself, the tokenizer promotes a
/// pending `-` to it when the minus cannot be binary subtraction.
#[derive(Debug, PartialEq)]
pub enum Token {
    Number(Vec<char>),
    Plus,
    Minus,
    Star,
    Slash,
    Caret,
    LParen,
    RParen,
    Negate,
}

/// The mathematical value of a `Token`: the same shape over `Seq<char>`.
pub enum TokenView {
    Number(Seq<char>),
    Plus,
    Minus,
    Star,
    Slash,
    Caret,
    LParen,
    RParen,
    Negate,
}

impl View for Token {
    type V = TokenView;

    open spec fn view(&self) -> TokenView {
        match self {
            Token::Number(text) => TokenView::Number(text@),
            Token::Plus => TokenView::Plus,
            Token::Minus => TokenView::Minus,
            Token::Star => TokenView::Star,
            Token::Slash => TokenView::Slash,
            Token::Caret => TokenView::Caret,
            Token::LParen => TokenView::LParen,
            Token::RParen => TokenView::RParen,
            Token::Negate => TokenView::Negate,
        }
    }
}

impl DeepView for Token {
    type V = TokenView;

    open spec fn deep_view(&self) -> TokenView {
        self.view()
    }
}

/// An operator or a parenthesis: every token but a number.
pub open spec fn spec_is_op_or_paren(t: TokenView) -> bool {
    !(t is Number)
}

/// Whether the token is an operator or a parenthesis (everything but a number).
pub fn is_op_or_paren(t: &Token) -> (r: bool)
    ensures
        r == spec_is_op_or_paren(t@),
{
    match t {
        Token::Number(_) => false,
        _ => true,
    }
}

/// The fixed precedence table: `+ -` at 1, `* /` at 2, `^` at 3, the
/// negation marker at 4 (unary binds tightest); numbers and parentheses at 0.
pub open spec fn spec_precedence(t: TokenView) -> int {
    match t {
        TokenView::Plus | TokenView::Minus => 1,
        TokenView::Star | TokenView::Slash => 2,
        TokenView::Caret => 3,
        TokenView::Negate => 4,
        TokenView::Number(_) | TokenView::LParen | TokenView::RParen => 0,
    }
}

/// The precedence rank of a token, by the fixed table.
pub fn precedence(t: &Token) -> (r: u8)
    ensures
        r as int == spec_precedence(t@),
{
    match t {
        Token::Plus | Token::Minus => 1,
        Token::Star | Token::Slash => 2,
        Token::Caret => 3,
        Token::Negate => 4,
        Token::Number(_) | Token::LParen | Token::RParen => 0,
    }
}

/// The converter's pop rule: an operator on the stack top is popped when the
/// incoming token has lower-or-equal precedence. Numbers and parentheses never
/// pop anything, and the two right-associating cases are excepted: an incoming
/// `^` does not pop a `^`, and an incoming negation marker does not pop a
/// negation marker.
pub open spec fn spec_is_lt_eq_precedence(incoming: TokenView, top: TokenView) -> bool {
    if incoming is Number || top is Number {
        false
    } else if incoming is LParen || incoming is RParen {
        false
    } else if incoming is Negate && top is Negate {
        false
    } else if incoming is Caret && top is Caret {
        false
    } else {
        spec_precedence(incoming) <= spec_precedence(top)
    }
}

/// Whether the converter pops `top` off the operator stack when `incoming`
/// arrives: lower-or-equal precedence, except for the right-associative `^`
/// on `^` and negation on negation, and never for numbers or parentheses.
pub fn is_lt_eq_precedence(incoming: &Token, top: &Token) -> (r: bool)
    ensures
        r == spec_is_lt_eq_precedence(incoming@, top@),
{
    if matches!(incoming, Token::Number(_)) || matches!(top, Token::Number(_)) {
        false
    } else if matches!(incoming, Token::LParen) || matches!(incoming, Token::RParen) {
        false
    } else if matches!(incoming, Token::Negate) && matches!(top, Token::Negate) {
        false
    } else if matches!(incoming, Token::Caret) && matches!(top, Token::Caret) {
        false
    } else {
        precedence(incoming) <= precedence(top)
    }
}

} // verus!
