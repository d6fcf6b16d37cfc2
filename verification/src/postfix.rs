use vstd::prelude::*;

use crate::token::{is_lt_eq_precedence, spec_is_lt_eq_precedence, Token, TokenView};

verus! {

/// Pops operators off the stack to the output while the stack top has
/// lower-or-equal precedence than the incoming token, under the converter's
/// pop rule.
pub open spec fn spec_pop_lower(
    output: Seq<TokenView>,
    stack: Seq<TokenView>,
    incoming: TokenView,
) -> (Seq<TokenView>, Seq<TokenView>)
    decreases stack.len(),
{
    if stack.len() == 0 {
        (output, stack)
    } else if spec_is_lt_eq_precedence(incoming, stack.last()) {
        spec_pop_lower(output.push(stack.last()), stack.drop_last(), incoming)
    } else {
        (output, stack)
    }
}

/// Pops operators off the stack to the output until an opening parenthesis
/// is found and discarded; with no opening parenthesis on the stack, the
/// whole stack is drained.
pub open spec fn spec_pop_until_lparen(
    output: Seq<TokenView>,
    stack: Seq<TokenView>,
) -> (Seq<TokenView>, Seq<TokenView>)
    decreases stack.len(),
{
    if stack.len() == 0 {
        (output, stack)
    } else if stack.last() is LParen {
        (output, stack.drop_last())
    } else {
        spec_pop_until_lparen(output.push(stack.last()), stack.drop_last())
    }
}

/// One converter step. A number goes straight to the output. Any other token
/// first pops the lower-or-equal-precedence operators to the output; then a
/// closing parenthesis pops the stack to the output up to its opening
/// parenthesis (discarding both), and every other token is pushed onto the
/// stack.
pub open spec fn spec_postfix_step(
    output: Seq<TokenView>,
    stack: Seq<TokenView>,
    t: TokenView,
) -> (Seq<TokenView>, Seq<TokenView>) {
    if t is Number {
        (output.push(t), stack)
    } else {
        let popped = spec_pop_lower(output, stack, t);
        if t is RParen {
            spec_pop_until_lparen(popped.0, popped.1)
        } else {
            (popped.0, popped.1.push(t))
        }
    }
}

/// Runs the converter steps over the remaining tokens, from the given output
/// and operator stack.
pub open spec fn spec_postfix_run(
    output: Seq<TokenView>,
    stack: Seq<TokenView>,
    tokens: Seq<TokenView>,
) -> (Seq<TokenView>, Seq<TokenView>)
    decreases tokens.len(),
{
    if tokens.len() == 0 {
        (output, stack)
    } else {
        let st = spec_postfix_step(output, stack, tokens[0]);
        spec_postfix_run(st.0, st.1, tokens.drop_first())
    }
}

/// The postfix order of a token sequence: every token stepped through the
/// converter, then the remaining operator stack drained to the output in pop
/// order (top of the stack first).
pub open spec fn spec_to_postfix(tokens: Seq<TokenView>) -> Seq<TokenView> {
    let st = spec_postfix_run(Seq::empty(), Seq::empty(), tokens);
    st.0 + st.1.reverse()
}

/// Reorders an infix token sequence into postfix (reverse Polish) order by
/// the shunting-yard algorithm: numbers pass through in order, operators
/// leave in precedence order, `^` on `^` and negation on negation associate
/// to the right, and matched parentheses are consumed.
pub fn to_postfix(tokens: Vec<Token>) -> (r: Vec<Token>)
    ensures
        r.deep_view() == spec_to_postfix(tokens.deep_view()),
{
    let ghost all = tokens.deep_view();
    let mut rest = tokens;
    let mut output: Vec<Token> = Vec::new();
    let mut op_stack: Vec<Token> = Vec::new();
    proof {
        assert(output.deep_view() =~= Seq::<TokenView>::empty());
        assert(op_stack.deep_view() =~= Seq::<TokenView>::empty());
    }
    while rest.len() > 0
        invariant
            spec_postfix_run(output.deep_view(), op_stack.deep_view(), rest.deep_view())
                == spec_postfix_run(Seq::empty(), Seq::empty(), all),
        decreases rest@.len(),
    {
        let ghost pre_output = output.deep_view();
        let ghost pre_stack = op_stack.deep_view();
        let ghost pre_rest = rest.deep_view();
        let token = rest.remove(0);
        proof {
            assert(pre_rest[0] == token@);
            assert(rest.deep_view() =~= pre_rest.drop_first());
        }
        if matches!(token, Token::Number(_)) {
            output.push(token);
            proof {
                assert(output.deep_view() =~= pre_output.push(pre_rest[0]));
            }
        } else {
            while op_stack.len() > 0 && is_lt_eq_precedence(
                &token,
                &op_stack[op_stack.len() - 1],
            )
                invariant
                    spec_pop_lower(output.deep_view(), op_stack.deep_view(), token@)
                        == spec_pop_lower(pre_output, pre_stack, token@),
                decreases op_stack@.len(),
            {
                let ghost in_output = output.deep_view();
                let ghost in_stack = op_stack.deep_view();
                proof {
                    assert(in_stack.last() == op_stack@[op_stack@.len() - 1]@);
                }
                let op = op_stack.pop().unwrap();
                output.push(op);
                proof {
                    assert(op_stack.deep_view() =~= in_stack.drop_last());
                    assert(output.deep_view() =~= in_output.push(in_stack.last()));
                }
            }
            let ghost popped_output = output.deep_view();
            let ghost popped_stack = op_stack.deep_view();
            proof {
                if op_stack@.len() > 0 {
                    assert(popped_stack.last() == op_stack@[op_stack@.len() - 1]@);
                }
                assert(spec_pop_lower(popped_output, popped_stack, token@) == (
                    popped_output,
                    popped_stack,
                ));
            }
            if matches!(token, Token::RParen) {
                loop
                    invariant_except_break
                        spec_pop_until_lparen(output.deep_view(), op_stack.deep_view())
                            == spec_pop_until_lparen(popped_output, popped_stack),
                    ensures
                        (output.deep_view(), op_stack.deep_view()) == spec_pop_until_lparen(
                            popped_output,
                            popped_stack,
                        ),
                    decreases op_stack@.len(),
                {
                    let ghost in_output = output.deep_view();
                    let ghost in_stack = op_stack.deep_view();
                    proof {
                        if op_stack@.len() > 0 {
                            assert(in_stack.last() == op_stack@[op_stack@.len() - 1]@);
                        }
                    }
                    match op_stack.pop() {
                        None => {
                            proof {
                                assert(spec_pop_until_lparen(in_output, in_stack) == (
                                    in_output,
                                    in_stack,
                                ));
                            }
                            break;
                        },
                        Some(op) => {
                            proof {
                                assert(op_stack.deep_view() =~= in_stack.drop_last());
                            }
                            if matches!(op, Token::LParen) {
                                proof {
                                    assert(in_stack.last() is LParen);
                                    assert(spec_pop_until_lparen(in_output, in_stack) == (
                                        in_output,
                                        in_stack.drop_last(),
                                    ));
                                }
                                break;
                            }
                            output.push(op);
                            proof {
                                assert(output.deep_view() =~= in_output.push(in_stack.last()));
                            }
                        },
                    }
                }
            } else {
                op_stack.push(token);
                proof {
                    assert(op_stack.deep_view() =~= popped_stack.push(pre_rest[0]));
                }
            }
        }
    }
    proof {
        assert(rest.deep_view() =~= Seq::<TokenView>::empty());
        assert(output.deep_view() + op_stack.deep_view().reverse() =~= spec_to_postfix(all));
    }
    while op_stack.len() > 0
        invariant
            output.deep_view() + op_stack.deep_view().reverse() == spec_to_postfix(all),
        decreases op_stack@.len(),
    {
        let ghost in_output = output.deep_view();
        let ghost in_stack = op_stack.deep_view();
        proof {
            assert(in_stack.last() == op_stack@[op_stack@.len() - 1]@);
        }
        let op = op_stack.pop().unwrap();
        output.push(op);
        proof {
            assert(op_stack.deep_view() =~= in_stack.drop_last());
            assert(output.deep_view() =~= in_output.push(in_stack.last()));
            assert(output.deep_view() + op_stack.deep_view().reverse() =~= in_output
                + in_stack.reverse());
        }
    }
    proof {
        assert(output.deep_view() =~= spec_to_postfix(all));
    }
    output
}

} // verus!
