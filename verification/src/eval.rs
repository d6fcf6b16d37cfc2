use vstd::prelude::*;

use crate::postfix::{spec_to_postfix, to_postfix};
use crate::token::{Token, TokenView};
use crate::tokenizer::{spec_is_digit_char, spec_tokenize, tokenize};

verus! {

/// Everything that can go wrong when an expression is evaluated.
///
/// The first four variants are the user-facing taxonomy. `StackUnderflow` is
/// the internal fault: an operator in the postfix sequence found too few
/// operands on the value stack. The builder reports it as an explicit result
/// instead of panicking; a well-formed postfix sequence never produces it
/// (see `lemma_wellformed_postfix_evaluates`).
#[derive(Debug, PartialEq)]
pub enum CalculatorError {
    /// The input text has no characters at all.
    EmptyExpression,
    /// A token taken for a number literal does not parse as one; it carries
    /// the offending characters verbatim.
    InvalidNumber(Vec<char>),
    /// A parenthesis survived conversion to postfix: the parenthesization of
    /// the input was unbalanced.
    UnmatchedParentheses,
    /// Evaluation finished with no value on the stack (for instance, an
    /// input of nothing but whitespace or operators).
    InvalidExpression,
    /// Internal fault: an operator found too few operands.
    StackUnderflow,
}

/// The mathematical value of a `CalculatorError`.
pub enum ErrorView {
    EmptyExpression,
    InvalidNumber(Seq<char>),
    UnmatchedParentheses,
    InvalidExpression,
    StackUnderflow,
}

impl View for CalculatorError {
    type V = ErrorView;

    open spec fn view(&self) -> ErrorView {
        match self {
            CalculatorError::EmptyExpression => ErrorView::EmptyExpression,
            CalculatorError::InvalidNumber(text) => ErrorView::InvalidNumber(text@),
            CalculatorError::UnmatchedParentheses => ErrorView::UnmatchedParentheses,
            CalculatorError::InvalidExpression => ErrorView::InvalidExpression,
            CalculatorError::StackUnderflow => ErrorView::StackUnderflow,
        }
    }
}

/// A binary arithmetic operation.
#[derive(Debug, PartialEq, Clone, Copy)]
pub enum BinOp {
    Add,
    Sub,
    Mul,
    Div,
    Pow,
}

/// An arithmetic expression tree, the result of a successful evaluation.
///
/// A leaf keeps the characters of its number literal, already checked to be a
/// valid one. The caller folds the tree into a number with whatever numeric
/// type it wants; the tree itself fixes the order of every operation.
#[derive(Debug, PartialEq)]
pub enum Ast {
    Num(Vec<char>),
    Neg(Box<Ast>),
    Bin(BinOp, Box<Ast>, Box<Ast>),
}

/// The mathematical value of an `Ast`: the same tree over `Seq<char>`.
pub enum AstView {
    Num(Seq<char>),
    Neg(Box<AstView>),
    Bin(BinOp, Box<AstView>, Box<AstView>),
}

/// The value of an expression tree, leaf text abstracted to sequences.
pub open spec fn spec_ast_view(a: Ast) -> AstView
    decreases a,
{
    match a {
        Ast::Num(text) => AstView::Num(text@),
        Ast::Neg(inner) => AstView::Neg(Box::new(spec_ast_view(*inner))),
        Ast::Bin(op, lhs, rhs) => AstView::Bin(
            op,
            Box::new(spec_ast_view(*lhs)),
            Box::new(spec_ast_view(*rhs)),
        ),
    }
}

impl View for Ast {
    type V = AstView;

    open spec fn view(&self) -> AstView {
        spec_ast_view(*self)
    }
}

impl DeepView for Ast {
    type V = AstView;

    open spec fn deep_view(&self) -> AstView {
        spec_ast_view(*self)
    }
}

/// A character a number literal may hold: a digit or the decimal point.
pub open spec fn spec_num_char_ok(c: char) -> bool {
    spec_is_digit_char(c) || c == '.'
}

/// How many decimal points the characters hold.
pub open spec fn spec_dot_count(s: Seq<char>) -> nat
    decreases s.len(),
{
    if s.len() == 0 {
        0
    } else {
        spec_dot_count(s.drop_last()) + if s.last() == '.' {
            1nat
        } else {
            0nat
        }
    }
}

/// A valid number literal: an optional leading minus, then at least one
/// digit, at most one decimal point, and nothing else. The leading minus is
/// there because the tokenizer merges a unary minus standing directly before
/// a literal into it.
pub open spec fn spec_valid_number(s: Seq<char>) -> bool {
    let start: int = if s.len() > 0 && s[0] == '-' {
        1
    } else {
        0
    };
    &&& s.len() > start
    &&& forall|i: int| start <= i < s.len() ==> spec_num_char_ok(s[i])
    &&& spec_dot_count(s.skip(start)) <= 1
    &&& exists|i: int| start <= i < s.len() && spec_is_digit_char(s[i])
}

/// Whether the characters form a valid number literal.
#[verifier::loop_isolation(false)]
pub fn check_number(text: &Vec<char>) -> (r: bool)
    ensures
        r == spec_valid_number(text@),
{
    let start: usize = if text.len() > 0 && text[0] == '-' {
        1
    } else {
        0
    };
    let ghost body = text@.skip(start as int);
    let mut i: usize = start;
    let mut dots: usize = 0;
    let mut digit = false;
    let mut ok = true;
    while i < text.len()
        invariant
            start <= i <= text@.len(),
            dots <= i,
            dots as nat == spec_dot_count(body.take(i - start)),
            digit == (exists|j: int| start <= j < i && spec_is_digit_char(text@[j])),
            ok == (forall|j: int| start <= j < i ==> spec_num_char_ok(text@[j])),
        decreases text@.len() - i,
    {
        let ghost pre = body.take(i - start);
        proof {
            assert(body[i - start] == text@[i as int]);
        }
        let c = text[i];
        if '0' <= c && c <= '9' {
            digit = true;
        } else if c == '.' {
            dots = dots + 1;
        } else {
            ok = false;
        }
        proof {
            let cur = body.take(i + 1 - start);
            assert(cur.drop_last() =~= pre);
            assert(cur.last() == body[i - start]);
        }
        i = i + 1;
    }
    proof {
        assert(body.take(text@.len() - start) =~= body);
    }
    ok && dots <= 1 && digit && start < text.len()
}

/// How one postfix token transforms the value stack. A number (checked to be
/// a valid literal) is pushed; the negation marker wraps the top of the
/// stack; a binary operator takes the top of the stack as its right operand
/// and the value below as its left; a parenthesis cannot be applied and means
/// the parenthesization was unbalanced.
pub open spec fn spec_build_step(stack: Seq<AstView>, t: TokenView) -> Result<
    Seq<AstView>,
    ErrorView,
> {
    match t {
        TokenView::Number(text) => if spec_valid_number(text) {
            Ok(stack.push(AstView::Num(text)))
        } else {
            Err(ErrorView::InvalidNumber(text))
        },
        TokenView::Negate => if stack.len() >= 1 {
            Ok(stack.drop_last().push(AstView::Neg(Box::new(stack.last()))))
        } else {
            Err(ErrorView::StackUnderflow)
        },
        TokenView::LParen | TokenView::RParen => Err(ErrorView::UnmatchedParentheses),
        _ => {
            let op = spec_binop(t);
            if stack.len() >= 2 {
                Ok(
                    stack.drop_last().drop_last().push(
                        AstView::Bin(
                            op,
                            Box::new(stack[stack.len() - 2]),
                            Box::new(stack.last()),
                        ),
                    ),
                )
            } else {
                Err(ErrorView::StackUnderflow)
            }
        },
    }
}

/// The binary operation a token stands for; meaningful for the five
/// operator tokens.
pub open spec fn spec_binop(t: TokenView) -> BinOp {
    match t {
        TokenView::Plus => BinOp::Add,
        TokenView::Minus => BinOp::Sub,
        TokenView::Star => BinOp::Mul,
        TokenView::Slash => BinOp::Div,
        _ => BinOp::Pow,
    }
}

/// Folds the build steps over the remaining postfix tokens, from the given
/// value stack; the first failing step decides the outcome.
pub open spec fn spec_build_run(stack: Seq<AstView>, tokens: Seq<TokenView>) -> Result<
    Seq<AstView>,
    ErrorView,
>
    decreases tokens.len(),
{
    if tokens.len() == 0 {
        Ok(stack)
    } else {
        match spec_build_step(stack, tokens[0]) {
            Ok(next) => spec_build_run(next, tokens.drop_first()),
            Err(e) => Err(e),
        }
    }
}

/// The outcome of evaluating a postfix token sequence: unmatched parentheses
/// when an opening parenthesis survived conversion; otherwise the build steps
/// run over an empty stack, and the bottom of the final stack is the result —
/// an empty final stack means the input held no expression at all.
pub open spec fn spec_evaluate_postfix(tokens: Seq<TokenView>) -> Result<AstView, ErrorView> {
    if exists|i: int| 0 <= i < tokens.len() && tokens[i] is LParen {
        Err(ErrorView::UnmatchedParentheses)
    } else {
        match spec_build_run(Seq::empty(), tokens) {
            Err(e) => Err(e),
            Ok(stack) => if stack.len() == 0 {
                Err(ErrorView::InvalidExpression)
            } else {
                Ok(stack[0])
            },
        }
    }
}

/// The value of an evaluation result.
pub open spec fn spec_result_view(r: Result<Ast, CalculatorError>) -> Result<AstView, ErrorView> {
    match r {
        Ok(a) => Ok(spec_ast_view(a)),
        Err(e) => Err(e@),
    }
}

/// A failing build step decides the outcome of the whole postfix evaluation.
proof fn lemma_run_err(
    stack: Seq<AstView>,
    rest: Seq<TokenView>,
    all: Seq<TokenView>,
    e: ErrorView,
)
    requires
        spec_build_run(stack, rest) == spec_build_run(Seq::empty(), all),
        spec_build_run(stack, rest) == Err::<Seq<AstView>, ErrorView>(e),
        !(exists|i: int| 0 <= i < all.len() && all[i] is LParen),
    ensures
        spec_evaluate_postfix(all) == Err::<AstView, ErrorView>(e),
{
}

/// Whether any token of the sequence is an opening parenthesis.
fn contains_lparen(tokens: &Vec<Token>) -> (r: bool)
    ensures
        r == exists|i: int|
            0 <= i < tokens.deep_view().len() && tokens.deep_view()[i] is LParen,
{
    let mut i: usize = 0;
    while i < tokens.len()
        invariant
            0 <= i <= tokens@.len(),
            forall|j: int| 0 <= j < i ==> !(tokens.deep_view()[j] is LParen),
        decreases tokens@.len() - i,
    {
        if matches!(&tokens[i], Token::LParen) {
            proof {
                assert(tokens.deep_view()[i as int] is LParen);
            }
            return true;
        }
        proof {
            assert(tokens.deep_view()[i as int] == tokens@[i as int]@);
        }
        i = i + 1;
    }
    false
}

/// Scans a postfix token sequence and folds it into an expression tree over
/// a value stack, or reports the first error: a leftover opening parenthesis,
/// an invalid number literal, an operator short of operands, or no result at
/// all. With more than one value left at the end, the bottom-most one is the
/// answer and the rest are ignored: the evaluator is deliberately permissive
/// about trailing leftovers.
#[verifier::loop_isolation(false)]
pub fn evaluate_postfix(tokens: Vec<Token>) -> (res: Result<Ast, CalculatorError>)
    ensures
        spec_result_view(res) == spec_evaluate_postfix(tokens.deep_view()),
{
    let ghost all = tokens.deep_view();
    if contains_lparen(&tokens) {
        return Err(CalculatorError::UnmatchedParentheses);
    }
    let mut rest = tokens;
    let mut stack: Vec<Ast> = Vec::new();
    proof {
        assert(stack.deep_view() =~= Seq::<AstView>::empty());
    }
    while rest.len() > 0
        invariant
            spec_build_run(stack.deep_view(), rest.deep_view()) == spec_build_run(
                Seq::empty(),
                all,
            ),
            !(exists|i: int| 0 <= i < all.len() && all[i] is LParen),
        decreases rest@.len(),
    {
        let ghost pre_stack = stack.deep_view();
        let ghost pre_rest = rest.deep_view();
        let token = rest.remove(0);
        proof {
            assert(pre_rest[0] == token@);
            assert(rest.deep_view() =~= pre_rest.drop_first());
        }
        match token {
            Token::Number(text) => {
                if check_number(&text) {
                    stack.push(Ast::Num(text));
                    proof {
                        assert(stack.deep_view() =~= pre_stack.push(AstView::Num(pre_rest[0]->Number_0)));
                    }
                } else {
                    proof {
                        assert(spec_build_run(pre_stack, pre_rest) == Err::<
                            Seq<AstView>,
                            ErrorView,
                        >(ErrorView::InvalidNumber(pre_rest[0]->Number_0)));
                        lemma_run_err(
                            pre_stack,
                            pre_rest,
                            all,
                            ErrorView::InvalidNumber(pre_rest[0]->Number_0),
                        );
                    }
                    return Err(CalculatorError::InvalidNumber(text));
                }
            },
            Token::Negate => {
                match stack.pop() {
                    None => {
                        proof {
                            assert(spec_build_run(pre_stack, pre_rest) == Err::<
                                Seq<AstView>,
                                ErrorView,
                            >(ErrorView::StackUnderflow));
                            lemma_run_err(pre_stack, pre_rest, all, ErrorView::StackUnderflow);
                        }
                        return Err(CalculatorError::StackUnderflow);
                    },
                    Some(inner) => {
                        proof {
                            assert(spec_ast_view(inner) == pre_stack.last());
                        }
                        stack.push(Ast::Neg(Box::new(inner)));
                        proof {
                            assert(stack.deep_view() =~= pre_stack.drop_last().push(
                                AstView::Neg(Box::new(pre_stack.last())),
                            ));
                        }
                    },
                }
            },
            Token::LParen | Token::RParen => {
                proof {
                    assert(spec_build_run(pre_stack, pre_rest) == Err::<
                        Seq<AstView>,
                        ErrorView,
                    >(ErrorView::UnmatchedParentheses));
                    lemma_run_err(pre_stack, pre_rest, all, ErrorView::UnmatchedParentheses);
                }
                return Err(CalculatorError::UnmatchedParentheses);
            },
            _ => {
                let op = match &token {
                    Token::Plus => BinOp::Add,
                    Token::Minus => BinOp::Sub,
                    Token::Star => BinOp::Mul,
                    Token::Slash => BinOp::Div,
                    _ => BinOp::Pow,
                };
                proof {
                    assert(op == spec_binop(pre_rest[0]));
                }
                let rhs = match stack.pop() {
                    None => {
                        proof {
                            assert(spec_build_run(pre_stack, pre_rest) == Err::<
                                Seq<AstView>,
                                ErrorView,
                            >(ErrorView::StackUnderflow));
                            lemma_run_err(pre_stack, pre_rest, all, ErrorView::StackUnderflow);
                        }
                        return Err(CalculatorError::StackUnderflow);
                    },
                    Some(v) => v,
                };
                proof {
                    assert(spec_ast_view(rhs) == pre_stack.last());
                }
                let lhs = match stack.pop() {
                    None => {
                        proof {
                            assert(pre_stack.len() == 1);
                            assert(spec_build_run(pre_stack, pre_rest) == Err::<
                                Seq<AstView>,
                                ErrorView,
                            >(ErrorView::StackUnderflow));
                            lemma_run_err(pre_stack, pre_rest, all, ErrorView::StackUnderflow);
                        }
                        return Err(CalculatorError::StackUnderflow);
                    },
                    Some(v) => v,
                };
                proof {
                    assert(spec_ast_view(lhs) == pre_stack[pre_stack.len() - 2]);
                }
                stack.push(Ast::Bin(op, Box::new(lhs), Box::new(rhs)));
                proof {
                    assert(stack.deep_view() =~= pre_stack.drop_last().drop_last().push(
                        AstView::Bin(
                            op,
                            Box::new(pre_stack[pre_stack.len() - 2]),
                            Box::new(pre_stack.last()),
                        ),
                    ));
                }
            },
        }
    }
    proof {
        assert(rest.deep_view() =~= Seq::<TokenView>::empty());
    }
    if stack.len() == 0 {
        return Err(CalculatorError::InvalidExpression);
    }
    let ghost final_stack = stack.deep_view();
    let first = stack.remove(0);
    proof {
        assert(spec_ast_view(first) == final_stack[0]);
    }
    Ok(first)
}

/// The outcome of evaluating an expression text: the empty text is rejected
/// at once; otherwise the text is tokenized, converted to postfix and built
/// into a tree. The outcome is a function of the characters alone — the
/// evaluator keeps no state between calls.
pub open spec fn spec_evaluate(s: Seq<char>) -> Result<AstView, ErrorView> {
    if s.len() == 0 {
        Err(ErrorView::EmptyExpression)
    } else {
        spec_evaluate_postfix(spec_to_postfix(spec_tokenize(s)))
    }
}

/// Evaluates an infix arithmetic expression into its expression tree, or the
/// first error: the empty input, an invalid number literal, unbalanced
/// parentheses, an input with no value in it, or — where an operator is short
/// of operands, as in a lone `+` — the internal stack-underflow fault.
pub fn evaluate(expr: &str) -> (res: Result<Ast, CalculatorError>)
    ensures
        spec_result_view(res) == spec_evaluate(expr@),
        expr@.len() == 0 ==> res == Err::<Ast, CalculatorError>(CalculatorError::EmptyExpression),
{
    if expr.is_empty() {
        return Err(CalculatorError::EmptyExpression);
    }
    let tokens = tokenize(expr);
    let postfix = to_postfix(tokens);
    evaluate_postfix(postfix)
}

} // verus!
