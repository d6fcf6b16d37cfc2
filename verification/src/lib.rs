//! A verified infix arithmetic expression evaluator.
//!
//! The pipeline runs in three verified stages: a tokenizer turns the input
//! text into a sequence of tokens, a shunting-yard converter reorders them
//! into postfix, and a postfix builder folds them into an expression tree or
//! a descriptive error. Numeric evaluation of the tree is left to the caller,
//! since the library itself holds no floating-point code.

pub mod eval;
pub mod laws;
pub mod postfix;
pub mod token;
pub mod tokenizer;

pub use token::{is_lt_eq_precedence, is_op_or_paren, precedence, Token, TokenView};
pub use tokenizer::{is_str_digit, is_unary_neg, should_push_buffer, tokenize};
pub use postfix::to_postfix;
pub use eval::{check_number, evaluate, evaluate_postfix, Ast, AstView, BinOp, CalculatorError, ErrorView};
pub use laws::{lemma_balanced_parens_convert_cleanly, lemma_balanced_parens_never_unmatched, lemma_evaluate_idempotent, lemma_wellformed_postfix_evaluates};
