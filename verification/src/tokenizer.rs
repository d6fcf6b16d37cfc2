use vstd::prelude::*;

use crate::token::{spec_is_op_or_paren, Token, TokenView};

verus! {

/// A decimal digit.
pub open spec fn spec_is_digit_char(c: char) -> bool {
    '0' <= c && c <= '9'
}

/// One of the seven operator and parenthesis characters.
pub open spec fn spec_is_op_char(c: char) -> bool {
    c == '+' || c == '-' || c == '*' || c == '/' || c == '^' || c == '(' || c == ')'
}

/// Whether the character sequence holds at least one decimal digit; a buffer
/// with a digit in it is a number literal being accumulated.
pub open spec fn spec_has_digit(s: Seq<char>) -> bool {
    exists|i: int| 0 <= i < s.len() && spec_is_digit_char(s[i])
}

/// Whether the characters hold at least one decimal digit.
pub fn is_str_digit(s: &Vec<char>) -> (r: bool)
    ensures
        r == spec_has_digit(s@),
{
    let mut i: usize = 0;
    while i < s.len()
        invariant
            0 <= i <= s@.len(),
            forall|j: int| 0 <= j < i ==> !spec_is_digit_char(s@[j]),
        decreases s@.len() - i,
    {
        let c = s[i];
        if '0' <= c && c <= '9' {
            return true;
        }
        i = i + 1;
    }
    false
}

/// The unary-versus-binary rule for a pending `-` in the buffer: the minus is
/// unary when nothing has been emitted yet, or when the most recently emitted
/// token is an operator, the negation marker or an opening parenthesis — but
/// never after a closing parenthesis or a number, which make it binary
/// subtraction.
pub open spec fn spec_is_unary_neg(tokens: Seq<TokenView>, buffer: Seq<char>) -> bool {
    &&& buffer.len() == 1 && buffer[0] == '-'
    &&& (tokens.len() == 0 || {
        let last = tokens.last();
        &&& !(last is RParen)
        &&& (last is Negate || spec_is_op_or_paren(last))
    })
}

/// Whether a buffered `-` stands for unary negation rather than subtraction.
pub fn is_unary_neg(tokens: &Vec<Token>, buffer: &Vec<char>) -> (r: bool)
    ensures
        r == spec_is_unary_neg(tokens.deep_view(), buffer@),
{
    if !(buffer.len() == 1 && buffer[0] == '-') {
        return false;
    }
    if tokens.len() == 0 {
        return true;
    }
    let last = &tokens[tokens.len() - 1];
    proof {
        assert(tokens.deep_view()[tokens@.len() - 1] == tokens@[tokens@.len() - 1]@);
    }
    match last {
        Token::RParen => false,
        Token::Number(_) => false,
        _ => true,
    }
}

/// The flush rule: a non-empty buffer is flushed to the token sequence,
/// except that a pending unary `-` is held back for promotion to the
/// negation marker.
pub open spec fn spec_should_push_buffer(tokens: Seq<TokenView>, buffer: Seq<char>) -> bool {
    !spec_is_unary_neg(tokens, buffer) && buffer.len() > 0
}

/// Whether the buffer is flushed as a token before the next character is
/// taken up.
pub fn should_push_buffer(tokens: &Vec<Token>, buffer: &Vec<char>) -> (r: bool)
    ensures
        r == spec_should_push_buffer(tokens.deep_view(), buffer@),
{
    if is_unary_neg(tokens, buffer) {
        return false;
    }
    buffer.len() > 0
}

/// How a flushed buffer is classified: a lone operator or parenthesis
/// character becomes that token; anything else is a number candidate, kept
/// verbatim — a malformed candidate surfaces later as an invalid-number
/// error, when the tree is built.
pub open spec fn spec_classify(buffer: Seq<char>) -> TokenView {
    if buffer.len() == 1 && buffer[0] == '+' {
        TokenView::Plus
    } else if buffer.len() == 1 && buffer[0] == '-' {
        TokenView::Minus
    } else if buffer.len() == 1 && buffer[0] == '*' {
        TokenView::Star
    } else if buffer.len() == 1 && buffer[0] == '/' {
        TokenView::Slash
    } else if buffer.len() == 1 && buffer[0] == '^' {
        TokenView::Caret
    } else if buffer.len() == 1 && buffer[0] == '(' {
        TokenView::LParen
    } else if buffer.len() == 1 && buffer[0] == ')' {
        TokenView::RParen
    } else {
        TokenView::Number(buffer)
    }
}

/// Copies a character buffer into a fresh vector.
fn copy_chars(src: &Vec<char>) -> (r: Vec<char>)
    ensures
        r@ == src@,
{
    let mut out: Vec<char> = Vec::new();
    let mut i: usize = 0;
    while i < src.len()
        invariant
            0 <= i <= src@.len(),
            out@ == src@.take(i as int),
        decreases src@.len() - i,
    {
        out.push(src[i]);
        proof {
            assert(out@ =~= src@.take(i as int + 1));
        }
        i = i + 1;
    }
    proof {
        assert(out@ =~= src@);
    }
    out
}

/// Turns a flushed buffer into its token.
fn classify_buffer(buffer: &Vec<char>) -> (t: Token)
    ensures
        t@ == spec_classify(buffer@),
{
    if buffer.len() == 1 {
        match buffer[0] {
            '+' => Token::Plus,
            '-' => Token::Minus,
            '*' => Token::Star,
            '/' => Token::Slash,
            '^' => Token::Caret,
            '(' => Token::LParen,
            ')' => Token::RParen,
            _ => Token::Number(copy_chars(buffer)),
        }
    } else {
        Token::Number(copy_chars(buffer))
    }
}

/// One tokenizer step: how one input character transforms the emitted token
/// sequence and the accumulation buffer.
///
/// A digit flushes a buffer that holds something other than a number (an
/// operator character or a held-back `)`), then joins the buffer. An operator
/// or parenthesis character first emits an implicit `*` when `(` follows a
/// number or a `)`, then flushes the buffer, then promotes a pending unary
/// `-` to the negation marker, and finally starts a fresh buffer. A point
/// always joins the buffer, and every other character — whitespace included —
/// is ignored.
pub open spec fn spec_tokenize_step(
    tokens: Seq<TokenView>,
    buffer: Seq<char>,
    c: char,
) -> (Seq<TokenView>, Seq<char>) {
    if spec_is_digit_char(c) {
        if spec_should_push_buffer(tokens, buffer) && !spec_has_digit(buffer) {
            (tokens.push(spec_classify(buffer)), seq![c])
        } else {
            (tokens, buffer.push(c))
        }
    } else if spec_is_op_char(c) {
        let s1 = if c == '(' && (spec_has_digit(buffer) || (buffer.len() == 1 && buffer[0]
            == ')')) {
            (tokens.push(spec_classify(buffer)), seq!['*'])
        } else {
            (tokens, buffer)
        };
        let s2 = if spec_should_push_buffer(s1.0, s1.1) {
            (s1.0.push(spec_classify(s1.1)), Seq::<char>::empty())
        } else {
            s1
        };
        let s3 = if (c == '(' || c == '-') && s2.1.len() == 1 && s2.1[0] == '-' {
            (s2.0.push(TokenView::Negate), Seq::<char>::empty())
        } else {
            s2
        };
        (s3.0, s3.1.push(c))
    } else if c == '.' {
        (tokens, buffer.push(c))
    } else {
        (tokens, buffer)
    }
}

/// Runs the tokenizer steps over the remaining input characters, from the
/// given emitted tokens and buffer.
pub open spec fn spec_tokenize_run(
    tokens: Seq<TokenView>,
    buffer: Seq<char>,
    s: Seq<char>,
) -> (Seq<TokenView>, Seq<char>)
    decreases s.len(),
{
    if s.len() == 0 {
        (tokens, buffer)
    } else {
        let st = spec_tokenize_step(tokens, buffer, s[0]);
        spec_tokenize_run(st.0, st.1, s.drop_first())
    }
}

/// The token sequence of an input text: every character stepped through the
/// tokenizer, and whatever remains in the buffer flushed at the end.
pub open spec fn spec_tokenize(s: Seq<char>) -> Seq<TokenView> {
    let st = spec_tokenize_run(Seq::empty(), Seq::empty(), s);
    if st.1.len() > 0 {
        st.0.push(spec_classify(st.1))
    } else {
        st.0
    }
}

/// Scans the input text into its token sequence, inserting implicit
/// multiplication before `(` where it follows a number or a `)`, and
/// promoting unary minus to the negation marker.
pub fn tokenize(problem: &str) -> (r: Vec<Token>)
    ensures
        r.deep_view() == spec_tokenize(problem@),
{
    let n: usize = problem.unicode_len();
    let mut tokens: Vec<Token> = Vec::new();
    let mut buffer: Vec<char> = Vec::new();
    let mut i: usize = 0;
    proof {
        assert(tokens.deep_view() =~= Seq::<TokenView>::empty());
        assert(problem@.skip(0) =~= problem@);
    }
    while i < n
        invariant
            0 <= i <= n,
            n == problem@.len(),
            spec_tokenize_run(tokens.deep_view(), buffer@, problem@.skip(i as int))
                == spec_tokenize_run(Seq::empty(), Seq::empty(), problem@),
        decreases n - i,
    {
        let ghost pre_tokens = tokens.deep_view();
        let ghost pre_buffer = buffer@;
        let c = problem.get_char(i);
        if '0' <= c && c <= '9' {
            if should_push_buffer(&tokens, &buffer) && !is_str_digit(&buffer) {
                let t = classify_buffer(&buffer);
                tokens.push(t);
                buffer.clear();
            }
            buffer.push(c);
        } else if c == '+' || c == '-' || c == '*' || c == '/' || c == '^' || c == '(' || c
            == ')' {
            if c == '(' && (is_str_digit(&buffer) || (buffer.len() == 1 && buffer[0] == ')')) {
                let t = classify_buffer(&buffer);
                tokens.push(t);
                buffer.clear();
                buffer.push('*');
            }
            if should_push_buffer(&tokens, &buffer) {
                let t = classify_buffer(&buffer);
                tokens.push(t);
                buffer.clear();
            }
            if (c == '(' || c == '-') && buffer.len() == 1 && buffer[0] == '-' {
                tokens.push(Token::Negate);
                buffer.clear();
            }
            buffer.push(c);
        } else if c == '.' {
            buffer.push(c);
        }
        proof {
            let st = spec_tokenize_step(pre_tokens, pre_buffer, c);
            assert(tokens.deep_view() =~= st.0);
            assert(buffer@ =~= st.1);
            assert(problem@.skip(i as int)[0] == problem@[i as int]);
            assert(problem@.skip(i as int).drop_first() =~= problem@.skip(i as int + 1));
        }
        i = i + 1;
    }
    proof {
        assert(problem@.skip(n as int) =~= Seq::<char>::empty());
    }
    if buffer.len() > 0 {
        let t = classify_buffer(&buffer);
        tokens.push(t);
        proof {
            assert(tokens.deep_view() =~= spec_tokenize(problem@));
        }
    }
    proof {
        assert(tokens.deep_view() =~= spec_tokenize(problem@));
    }
    tokens
}

} // verus!
