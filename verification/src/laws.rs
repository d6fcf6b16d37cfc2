use vstd::prelude::*;

use crate::eval::{
    spec_build_run, spec_build_step, spec_evaluate, spec_evaluate_postfix, spec_valid_number,
    AstView, ErrorView,
};
use crate::postfix::{
    spec_pop_lower, spec_pop_until_lparen, spec_postfix_run, spec_to_postfix,
};
use crate::token::{spec_is_lt_eq_precedence, TokenView};

verus! {

/// Parentheses balance from the given nesting depth: every `)` finds an open
/// `(`, and every `(` is closed by the end.
pub open spec fn spec_parens_balanced_from(depth: int, tokens: Seq<TokenView>) -> bool
    decreases tokens.len(),
{
    if tokens.len() == 0 {
        depth == 0
    } else {
        match tokens[0] {
            TokenView::LParen => spec_parens_balanced_from(depth + 1, tokens.drop_first()),
            TokenView::RParen => depth >= 1 && spec_parens_balanced_from(
                depth - 1,
                tokens.drop_first(),
            ),
            _ => spec_parens_balanced_from(depth, tokens.drop_first()),
        }
    }
}

/// The parentheses of the token sequence balance.
pub open spec fn spec_parens_balanced(tokens: Seq<TokenView>) -> bool {
    spec_parens_balanced_from(0, tokens)
}

/// How many opening parentheses the sequence holds.
spec fn lp_count(s: Seq<TokenView>) -> nat
    decreases s.len(),
{
    if s.len() == 0 {
        0
    } else {
        lp_count(s.drop_last()) + if s.last() is LParen {
            1nat
        } else {
            0nat
        }
    }
}

/// No token of the sequence is a parenthesis.
pub open spec fn spec_no_parens(s: Seq<TokenView>) -> bool {
    forall|i: int| 0 <= i < s.len() ==> !(s[i] is LParen) && !(s[i] is RParen)
}

/// No token of the sequence is a closing parenthesis.
spec fn no_rparen(s: Seq<TokenView>) -> bool {
    forall|i: int| 0 <= i < s.len() ==> !(s[i] is RParen)
}

/// A sequence without opening parentheses counts none.
proof fn lemma_lp_count_zero(s: Seq<TokenView>)
    requires
        lp_count(s) == 0,
    ensures
        forall|i: int| 0 <= i < s.len() ==> !(s[i] is LParen),
    decreases s.len(),
{
    if s.len() > 0 {
        lemma_lp_count_zero(s.drop_last());
        assert forall|i: int| 0 <= i < s.len() implies !(s[i] is LParen) by {
            if i < s.len() - 1 {
                assert(s.drop_last()[i] == s[i]);
            }
        }
    }
}

/// The precedence pops move no parenthesis: an opening parenthesis on the
/// stack is a barrier the pop rule never crosses.
proof fn lemma_pop_lower_parens(output: Seq<TokenView>, stack: Seq<TokenView>, t: TokenView)
    requires
        spec_no_parens(output),
        no_rparen(stack),
    ensures
        spec_no_parens(spec_pop_lower(output, stack, t).0),
        no_rparen(spec_pop_lower(output, stack, t).1),
        lp_count(spec_pop_lower(output, stack, t).1) == lp_count(stack),
    decreases stack.len(),
{
    if stack.len() > 0 && spec_is_lt_eq_precedence(t, stack.last()) {
        assert(!(stack.last() is LParen));
        assert(!(stack.last() is RParen));
        assert(no_rparen(stack.drop_last())) by {
            assert(forall|i: int|
                0 <= i < stack.len() - 1 ==> stack.drop_last()[i] == stack[i]);
        }
        assert(spec_no_parens(output.push(stack.last())));
        lemma_pop_lower_parens(output.push(stack.last()), stack.drop_last(), t);
    }
}

/// Popping to the opening parenthesis discards exactly one of them and moves
/// no parenthesis to the output.
proof fn lemma_pop_until_lparen_parens(output: Seq<TokenView>, stack: Seq<TokenView>)
    requires
        spec_no_parens(output),
        no_rparen(stack),
        lp_count(stack) >= 1,
    ensures
        spec_no_parens(spec_pop_until_lparen(output, stack).0),
        no_rparen(spec_pop_until_lparen(output, stack).1),
        lp_count(spec_pop_until_lparen(output, stack).1) == lp_count(stack) - 1,
    decreases stack.len(),
{
    assert(stack.len() > 0);
    assert(no_rparen(stack.drop_last())) by {
        assert(forall|i: int| 0 <= i < stack.len() - 1 ==> stack.drop_last()[i] == stack[i]);
    }
    if stack.last() is LParen {
    } else {
        assert(!(stack.last() is RParen));
        assert(spec_no_parens(output.push(stack.last())));
        lemma_pop_until_lparen_parens(output.push(stack.last()), stack.drop_last());
    }
}

/// Running the converter over tokens whose parentheses balance from the
/// stack's current nesting depth moves no parenthesis to the output and
/// consumes every opening parenthesis on the stack.
proof fn lemma_run_parens(output: Seq<TokenView>, stack: Seq<TokenView>, rest: Seq<TokenView>)
    requires
        spec_no_parens(output),
        no_rparen(stack),
        spec_parens_balanced_from(lp_count(stack) as int, rest),
    ensures
        spec_no_parens(spec_postfix_run(output, stack, rest).0),
        no_rparen(spec_postfix_run(output, stack, rest).1),
        lp_count(spec_postfix_run(output, stack, rest).1) == 0,
    decreases rest.len(),
{
    if rest.len() > 0 {
        let t = rest[0];
        if t is Number {
            assert(spec_no_parens(output.push(t)));
            lemma_run_parens(output.push(t), stack, rest.drop_first());
        } else {
            lemma_pop_lower_parens(output, stack, t);
            let popped = spec_pop_lower(output, stack, t);
            if t is RParen {
                lemma_pop_until_lparen_parens(popped.0, popped.1);
                let closed = spec_pop_until_lparen(popped.0, popped.1);
                lemma_run_parens(closed.0, closed.1, rest.drop_first());
            } else {
                assert(lp_count(popped.1.push(t)) == lp_count(popped.1) + if t is LParen {
                    1nat
                } else {
                    0nat
                }) by {
                    assert(popped.1.push(t).drop_last() =~= popped.1);
                }
                assert(no_rparen(popped.1.push(t)));
                lemma_run_parens(popped.0, popped.1.push(t), rest.drop_first());
            }
        }
    }
}

/// With balanced parentheses the converter consumes every parenthesis: its
/// postfix output holds none, so evaluating that output never reports them as
/// unmatched.
pub proof fn lemma_balanced_parens_convert_cleanly(tokens: Seq<TokenView>)
    requires
        spec_parens_balanced(tokens),
    ensures
        spec_no_parens(spec_to_postfix(tokens)),
{
    lemma_run_parens(Seq::empty(), Seq::empty(), tokens);
    let run = spec_postfix_run(Seq::empty(), Seq::empty(), tokens);
    lemma_lp_count_zero(run.1);
    assert forall|i: int|
        0 <= i < spec_to_postfix(tokens).len() implies !(spec_to_postfix(tokens)[i] is LParen)
        && !(spec_to_postfix(tokens)[i] is RParen) by {
        if i >= run.0.len() {
            assert(spec_to_postfix(tokens)[i] == run.1[run.1.len() - 1 - (i - run.0.len())]);
        }
    }
}

/// A build run over a postfix sequence without parentheses can fail for a bad
/// number or a missing operand, never for a parenthesis.
proof fn lemma_build_run_no_paren_err(stack: Seq<AstView>, tokens: Seq<TokenView>)
    requires
        spec_no_parens(tokens),
    ensures
        spec_build_run(stack, tokens) != Err::<Seq<AstView>, ErrorView>(
            ErrorView::UnmatchedParentheses,
        ),
    decreases tokens.len(),
{
    if tokens.len() > 0 {
        assert(spec_no_parens(tokens.drop_first())) by {
            assert(forall|i: int|
                0 <= i < tokens.len() - 1 ==> tokens.drop_first()[i] == tokens[i + 1]);
        }
        match spec_build_step(stack, tokens[0]) {
            Ok(next) => {
                lemma_build_run_no_paren_err(next, tokens.drop_first());
            },
            Err(e) => {
                assert(!(e is UnmatchedParentheses));
            },
        }
    }
}

/// With balanced parentheses, evaluation never reports them as unmatched:
/// the converter consumes them all, and nothing downstream reintroduces the
/// error.
pub proof fn lemma_balanced_parens_never_unmatched(tokens: Seq<TokenView>)
    requires
        spec_parens_balanced(tokens),
    ensures
        spec_evaluate_postfix(spec_to_postfix(tokens)) != Err::<AstView, ErrorView>(
            ErrorView::UnmatchedParentheses,
        ),
{
    lemma_balanced_parens_convert_cleanly(tokens);
    lemma_build_run_no_paren_err(Seq::empty(), spec_to_postfix(tokens));
}

/// A well-formed postfix sequence, read left to right against a value stack
/// of the given starting height: every number is a valid literal, the
/// negation marker finds one operand, every binary operator finds two, and no
/// parenthesis appears at all.
pub open spec fn spec_postfix_shape_ok(height: int, tokens: Seq<TokenView>) -> bool
    decreases tokens.len(),
{
    if tokens.len() == 0 {
        true
    } else {
        match tokens[0] {
            TokenView::Number(text) => spec_valid_number(text) && spec_postfix_shape_ok(
                height + 1,
                tokens.drop_first(),
            ),
            TokenView::Negate => height >= 1 && spec_postfix_shape_ok(
                height,
                tokens.drop_first(),
            ),
            TokenView::LParen | TokenView::RParen => false,
            _ => height >= 2 && spec_postfix_shape_ok(height - 1, tokens.drop_first()),
        }
    }
}

/// The net number of values a postfix sequence leaves on the value stack: one
/// per number, one less per binary operator.
pub open spec fn spec_height_delta(tokens: Seq<TokenView>) -> int
    decreases tokens.len(),
{
    if tokens.len() == 0 {
        0
    } else {
        (match tokens[0] {
            TokenView::Number(_) => 1int,
            TokenView::Negate | TokenView::LParen | TokenView::RParen => 0int,
            _ => -1int,
        }) + spec_height_delta(tokens.drop_first())
    }
}

/// The stack a successful build run leaves behind.
spec fn spec_ok_stack(r: Result<Seq<AstView>, ErrorView>) -> Seq<AstView> {
    match r {
        Ok(stack) => stack,
        Err(_) => Seq::empty(),
    }
}

/// A build run over a well-formed postfix sequence succeeds, grows the stack
/// by exactly the sequence's net height, and meets no parenthesis.
proof fn lemma_build_run_ok(stack: Seq<AstView>, tokens: Seq<TokenView>)
    requires
        spec_postfix_shape_ok(stack.len() as int, tokens),
    ensures
        spec_build_run(stack, tokens) is Ok,
        spec_ok_stack(spec_build_run(stack, tokens)).len() == stack.len() + spec_height_delta(
            tokens,
        ),
        forall|i: int| 0 <= i < tokens.len() ==> !(tokens[i] is LParen),
    decreases tokens.len(),
{
    if tokens.len() == 0 {
    } else {
        let t = tokens[0];
        let step = spec_build_step(stack, t);
        assert(step is Ok);
        let next = spec_ok_stack(step);
        assert(spec_postfix_shape_ok(next.len() as int, tokens.drop_first()));
        lemma_build_run_ok(next, tokens.drop_first());
        assert forall|i: int| 0 <= i < tokens.len() implies !(tokens[i] is LParen) by {
            if i > 0 {
                assert(tokens.drop_first()[i - 1] == tokens[i]);
            }
        }
    }
}

/// Every well-formed postfix sequence evaluates to a tree. With valid number
/// literals, operators that find their operands, no stray parentheses and at
/// least one value left at the end, the outcome is a tree — in particular the
/// internal stack-underflow fault is never reached from such a sequence.
pub proof fn lemma_wellformed_postfix_evaluates(tokens: Seq<TokenView>)
    requires
        spec_postfix_shape_ok(0, tokens),
        spec_height_delta(tokens) >= 1,
    ensures
        spec_evaluate_postfix(tokens) is Ok,
{
    lemma_build_run_ok(Seq::empty(), tokens);
}

/// Evaluating the same expression text twice gives the identical outcome:
/// the result is a function of the characters alone, with no hidden state —
/// which is what the contract of `evaluate` pins its result to.
pub proof fn lemma_evaluate_idempotent(
    s: Seq<char>,
    first: Result<AstView, ErrorView>,
    second: Result<AstView, ErrorView>,
)
    requires
        first == spec_evaluate(s),
        second == spec_evaluate(s),
    ensures
        first == second,
{
}

} // verus!
