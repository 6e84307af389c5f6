//! The lexer: converts raw source text into the ordered token sequence,
//! left to right, with single-character lookahead.  On success the sequence
//! ends with the end-of-input sentinel; the first error aborts the whole
//! scan.
//!
//! The mathematical model is [`spec_scan`]: `scan_tokens` returns exactly
//! the tokens that `spec_scan` assigns to its input.

use crate::errors::{LexerError, LexerErrorV};
use crate::float::{decimal_numeral, decimal_to_bits, float_of_decimal, is_digit_char, FloatBits};
use crate::tokens::{get_keyword, keyword_token, tokens_view, Token, TokenV};
use vstd::prelude::*;
use vstd::string::*;

verus! {

broadcast use vstd::std_specs::vec::axiom_spec_len;

/// `c` is one of the whitespace characters the lexer discards.
pub open spec fn is_ws_char(c: char) -> bool {
    c == '\n' || c == '\t' || c == '\r' || c == ' '
}

/// `c` is alphabetic in the Unicode sense.  Relies on `char::is_alphabetic`:
/// a property of the character alone.
pub uninterp spec fn alphabetic(c: char) -> bool;

/// `c` is alphanumeric in the Unicode sense.  Relies on
/// `char::is_alphanumeric`: a property of the character alone.
pub uninterp spec fn alphanumeric(c: char) -> bool;

/// Relies on `char::is_alphabetic` of std, which decides it from the
/// character alone.
#[verifier::external_body]
fn is_alphabetic_ch(c: char) -> (r: bool)
    ensures
        r == alphabetic(c),
{
    c.is_alphabetic()
}

/// Relies on `char::is_alphanumeric` of std, which decides it from the
/// character alone.
#[verifier::external_body]
fn is_alphanumeric_ch(c: char) -> (r: bool)
    ensures
        r == alphanumeric(c),
{
    c.is_alphanumeric()
}

/// Whether `ch` is whitespace to the lexer.
pub fn is_white_space(ch: char) -> (r: bool)
    ensures
        r == is_ws_char(ch),
{
    match ch {
        '\n' | '\t' | '\r' | ' ' => true,
        _ => false,
    }
}

/// Whether `c` is a decimal digit.
fn is_digit(c: char) -> (r: bool)
    ensures
        r == is_digit_char(c),
{
    '0' <= c && c <= '9'
}

/// The numeric value of the digit `c`.
pub open spec fn digit_val(c: char) -> int {
    c as u32 - 48
}

/// The end of the run of digits that starts at `i`: the first position at
/// or after `i` that is past the input or holds a non-digit.
pub open spec fn digit_run_end(cs: Seq<char>, i: int) -> int
    decreases cs.len() - i,
{
    if i < 0 || i >= cs.len() {
        i
    } else if is_digit_char(cs[i]) {
        digit_run_end(cs, i + 1)
    } else {
        i
    }
}

/// The end of the run of alphanumeric characters that starts at `i`.
pub open spec fn alnum_run_end(cs: Seq<char>, i: int) -> int
    decreases cs.len() - i,
{
    if i < 0 || i >= cs.len() {
        i
    } else if alphanumeric(cs[i]) {
        alnum_run_end(cs, i + 1)
    } else {
        i
    }
}

/// The position of the first double quote at or after `i`, or the input
/// length if there is none.
pub open spec fn find_quote(cs: Seq<char>, i: int) -> int
    decreases cs.len() - i,
{
    if i < 0 || i >= cs.len() {
        cs.len() as int
    } else if cs[i] == '"' {
        i
    } else {
        find_quote(cs, i + 1)
    }
}

/// The value of the digit string `cs[i..j)` read in base ten.
pub open spec fn digits_val(cs: Seq<char>, i: int, j: int) -> int
    decreases j - i,
{
    if j <= i {
        0
    } else {
        digits_val(cs, i, j - 1) * 10 + digit_val(cs[j - 1])
    }
}

/// One step of the lexer: a token and the position after it, or an error.
pub enum LexStep {
    Tok(TokenV, int),
    Fail(LexerErrorV),
}

/// The message carried by an integer numeral whose value does not fit.
pub open spec fn overflow_msg() -> Seq<char> {
    "number too large to fit in target type"@
}

/// Where the numeral that starts with the digit at `i` ends: after the
/// maximal run of digits and, if a decimal point follows it, after the
/// point and the maximal digit run behind it.  A second point is not
/// consumed.
pub open spec fn numeral_end(cs: Seq<char>, i: int) -> int {
    let a = digit_run_end(cs, i + 1);
    if a < cs.len() && cs[a] == '.' {
        digit_run_end(cs, a + 1)
    } else {
        a
    }
}

/// Whether the numeral that starts at `i` contains a decimal point.
pub open spec fn numeral_is_float(cs: Seq<char>, i: int) -> bool {
    let a = digit_run_end(cs, i + 1);
    a < cs.len() && cs[a] == '.'
}

/// The lexer's step on a numeral: a float literal if the numeral contains
/// a point, otherwise an integer literal, or an overflow error when the
/// integer value does not fit in a signed 64-bit word.
pub open spec fn spec_number(cs: Seq<char>, i: int) -> LexStep {
    let end = numeral_end(cs, i);
    if numeral_is_float(cs, i) {
        LexStep::Tok(TokenV::Float(decimal_to_bits(cs.subrange(i, end))), end)
    } else {
        let v = digits_val(cs, i, end);
        if v <= i64::MAX {
            LexStep::Tok(TokenV::Integer(v as i64), end)
        } else {
            LexStep::Fail(LexerErrorV::InvalidNum(overflow_msg()))
        }
    }
}

/// The lexer's step on a string literal: the content through the next
/// double quote, verbatim, without the delimiting quotes; reaching end of
/// input first is an error carrying the partial content from the opening
/// quote on.
pub open spec fn spec_string(cs: Seq<char>, i: int) -> LexStep {
    let j = find_quote(cs, i + 1);
    if j < cs.len() {
        LexStep::Tok(TokenV::SString(cs.subrange(i + 1, j)), j + 1)
    } else {
        LexStep::Fail(LexerErrorV::InvalidString(cs.subrange(i, cs.len() as int)))
    }
}

/// The lexer's step on an identifier or keyword: the maximal alphanumeric
/// run, looked up in the keyword table.
pub open spec fn spec_ident(cs: Seq<char>, i: int) -> LexStep {
    let end = alnum_run_end(cs, i + 1);
    let s = cs.subrange(i, end);
    match keyword_token(s) {
        Some(t) => LexStep::Tok(t, end),
        None => LexStep::Tok(TokenV::Ident(s), end),
    }
}

/// One step of the lexer at position `i` (meaningful for `0 <= i < len`):
/// whitespace becomes a discarded `WhiteSpace` token; punctuation maps
/// directly; `=`, `<`, `>`, `|`, `&` look one character ahead for their
/// two-character forms; `"` starts a string, a digit a numeral, an
/// alphabetic character an identifier; anything else is an error.
pub open spec fn spec_next(cs: Seq<char>, i: int) -> LexStep {
    let c = cs[i];
    if is_ws_char(c) {
        LexStep::Tok(TokenV::WhiteSpace, i + 1)
    } else if c == '(' {
        LexStep::Tok(TokenV::LParent('('), i + 1)
    } else if c == ')' {
        LexStep::Tok(TokenV::RParent(')'), i + 1)
    } else if c == '{' {
        LexStep::Tok(TokenV::LBrace('{'), i + 1)
    } else if c == '}' {
        LexStep::Tok(TokenV::RBrace('}'), i + 1)
    } else if c == '[' {
        LexStep::Tok(TokenV::LSBracket('['), i + 1)
    } else if c == ']' {
        LexStep::Tok(TokenV::RSBracket(']'), i + 1)
    } else if c == '+' {
        LexStep::Tok(TokenV::Plus('+'), i + 1)
    } else if c == '-' {
        LexStep::Tok(TokenV::Minus('-'), i + 1)
    } else if c == '*' {
        LexStep::Tok(TokenV::Star('*'), i + 1)
    } else if c == '/' {
        LexStep::Tok(TokenV::Slash('/'), i + 1)
    } else if c == '!' {
        LexStep::Tok(TokenV::Bang, i + 1)
    } else if c == '=' {
        if i + 1 < cs.len() && cs[i + 1] == '=' {
            LexStep::Tok(TokenV::EQ("=="@), i + 2)
        } else {
            LexStep::Tok(TokenV::Assign('='), i + 1)
        }
    } else if c == '<' {
        if i + 1 < cs.len() && cs[i + 1] == '=' {
            LexStep::Tok(TokenV::LtEQ("<="@), i + 2)
        } else {
            LexStep::Tok(TokenV::Lt("<"@), i + 1)
        }
    } else if c == '>' {
        if i + 1 < cs.len() && cs[i + 1] == '=' {
            LexStep::Tok(TokenV::GtEQ(">="@), i + 2)
        } else {
            LexStep::Tok(TokenV::Gt(">"@), i + 1)
        }
    } else if c == '|' {
        if i + 1 < cs.len() && cs[i + 1] == '|' {
            LexStep::Tok(TokenV::Or, i + 2)
        } else {
            LexStep::Tok(TokenV::BitOr, i + 1)
        }
    } else if c == '&' {
        if i + 1 < cs.len() && cs[i + 1] == '&' {
            LexStep::Tok(TokenV::And, i + 2)
        } else {
            LexStep::Tok(TokenV::BitAnd, i + 1)
        }
    } else if c == '"' {
        spec_string(cs, i)
    } else if is_digit_char(c) {
        spec_number(cs, i)
    } else if alphabetic(c) {
        spec_ident(cs, i)
    } else {
        LexStep::Fail(LexerErrorV::InvalidToken(c))
    }
}

/// The token sequence of the input from position `i` on: the steps of
/// [`spec_next`] in order, whitespace discarded, ended by the end-of-input
/// sentinel; the first failing step is the result.  (The position guard in
/// the recursion holds of every step; see [`lemma_next_in_range`].)
pub open spec fn spec_scan(cs: Seq<char>, i: int) -> Result<Seq<TokenV>, LexerErrorV>
    decreases cs.len() - i,
{
    if i < 0 || i >= cs.len() {
        Ok(seq![TokenV::EOF])
    } else {
        match spec_next(cs, i) {
            LexStep::Fail(e) => Err(e),
            LexStep::Tok(t, j) => if i < j <= cs.len() {
                match spec_scan(cs, j) {
                    Ok(rest) => if t is WhiteSpace {
                        Ok(rest)
                    } else {
                        Ok(seq![t] + rest)
                    },
                    Err(e) => Err(e),
                }
            } else {
                Err(LexerErrorV::InvalidToken(cs[i]))
            },
        }
    }
}

/// The sequence `pre` prepended to a scan result.
pub open spec fn scan_app(pre: Seq<TokenV>, r: Result<Seq<TokenV>, LexerErrorV>) -> Result<
    Seq<TokenV>,
    LexerErrorV,
> {
    match r {
        Ok(rest) => Ok(pre + rest),
        Err(e) => Err(e),
    }
}

/// The value of a scan's outcome.
pub open spec fn lex_result_view(r: Result<Vec<Token>, LexerError>) -> Result<
    Seq<TokenV>,
    LexerErrorV,
> {
    match r {
        Ok(v) => Ok(tokens_view(v@)),
        Err(e) => Err(e@),
    }
}

/// A digit run ends within the input, contains only digits, and is maximal.
pub proof fn lemma_digit_run(cs: Seq<char>, i: int)
    requires
        0 <= i <= cs.len(),
    ensures
        i <= digit_run_end(cs, i) <= cs.len(),
        forall|k: int| i <= k < digit_run_end(cs, i) ==> is_digit_char(cs[k]),
        digit_run_end(cs, i) < cs.len() ==> !is_digit_char(cs[digit_run_end(cs, i)]),
    decreases cs.len() - i,
{
    if i < cs.len() && is_digit_char(cs[i]) {
        lemma_digit_run(cs, i + 1);
    }
}

/// An alphanumeric run ends within the input, contains only alphanumeric
/// characters, and is maximal.
pub proof fn lemma_alnum_run(cs: Seq<char>, i: int)
    requires
        0 <= i <= cs.len(),
    ensures
        i <= alnum_run_end(cs, i) <= cs.len(),
        forall|k: int| i <= k < alnum_run_end(cs, i) ==> alphanumeric(cs[k]),
        alnum_run_end(cs, i) < cs.len() ==> !alphanumeric(cs[alnum_run_end(cs, i)]),
    decreases cs.len() - i,
{
    if i < cs.len() && alphanumeric(cs[i]) {
        lemma_alnum_run(cs, i + 1);
    }
}

/// `find_quote` yields the first quote at or after `i`, or the length.
pub proof fn lemma_find_quote(cs: Seq<char>, i: int)
    requires
        0 <= i <= cs.len(),
    ensures
        i <= find_quote(cs, i) <= cs.len(),
        forall|k: int| i <= k < find_quote(cs, i) ==> cs[k] != '"',
        find_quote(cs, i) < cs.len() ==> cs[find_quote(cs, i)] == '"',
    decreases cs.len() - i,
{
    if i < cs.len() && cs[i] != '"' {
        lemma_find_quote(cs, i + 1);
    }
}

/// Any position with the first-quote properties is `find_quote`.
pub proof fn lemma_find_quote_unique(cs: Seq<char>, i: int, j: int)
    requires
        0 <= i <= j <= cs.len(),
        forall|k: int| i <= k < j ==> cs[k] != '"',
        j < cs.len() ==> cs[j] == '"',
    ensures
        find_quote(cs, i) == j,
    decreases j - i,
{
    if i < j {
        lemma_find_quote_unique(cs, i + 1, j);
    }
}

/// The value of a digit string is nonnegative.
pub proof fn lemma_digits_val_nonneg(cs: Seq<char>, i: int, j: int)
    requires
        0 <= i <= j <= cs.len(),
        forall|m: int| i <= m < j ==> is_digit_char(cs[m]),
    ensures
        digits_val(cs, i, j) >= 0,
    decreases j - i,
{
    if i < j {
        lemma_digits_val_nonneg(cs, i, j - 1);
        assert(is_digit_char(cs[j - 1]));
    }
}

/// Extending a digit string on the right never shrinks its value.
pub proof fn lemma_digits_val_mono(cs: Seq<char>, i: int, j: int, k: int)
    requires
        0 <= i <= j <= k <= cs.len(),
        forall|m: int| i <= m < k ==> is_digit_char(cs[m]),
    ensures
        0 <= digits_val(cs, i, j) <= digits_val(cs, i, k),
    decreases k - j,
{
    lemma_digits_val_nonneg(cs, i, j);
    if j < k {
        lemma_digits_val_mono(cs, i, j, k - 1);
        assert(is_digit_char(cs[k - 1]));
        let prev = digits_val(cs, i, k - 1);
        assert(digits_val(cs, i, k) == prev * 10 + digit_val(cs[k - 1]));
        assert(prev * 10 >= prev) by (nonlinear_arith)
            requires
                prev >= 0,
        ;
    }
}

/// Every step of the lexer moves forward and stays within the input.
pub proof fn lemma_next_in_range(cs: Seq<char>, i: int)
    requires
        0 <= i < cs.len(),
    ensures
        spec_next(cs, i) matches LexStep::Tok(_, j) ==> i < j <= cs.len(),
{
    let c = cs[i];
    if c == '"' {
        lemma_find_quote(cs, i + 1);
    } else if is_digit_char(c) {
        lemma_digit_run(cs, i + 1);
        let a = digit_run_end(cs, i + 1);
        if a < cs.len() && cs[a] == '.' {
            lemma_digit_run(cs, a + 1);
        }
    } else if alphabetic(c) {
        lemma_alnum_run(cs, i + 1);
    }
}

/// An operator lexeme: one of the one- or two-character operator and
/// bracket spellings.
pub open spec fn op_lexeme(s: Seq<char>) -> bool {
    ||| s == seq!['+']
    ||| s == seq!['-']
    ||| s == seq!['*']
    ||| s == seq!['/']
    ||| s == seq!['<']
    ||| s == seq!['<', '=']
    ||| s == seq!['>']
    ||| s == seq!['>', '=']
    ||| s == seq!['(']
    ||| s == seq![')']
    ||| s == seq!['{']
    ||| s == seq!['}']
    ||| s == seq!['[']
    ||| s == seq![']']
}

/// The token an operator lexeme scans to.
pub open spec fn op_token(s: Seq<char>) -> TokenV {
    if s == seq!['+'] {
        TokenV::Plus('+')
    } else if s == seq!['-'] {
        TokenV::Minus('-')
    } else if s == seq!['*'] {
        TokenV::Star('*')
    } else if s == seq!['/'] {
        TokenV::Slash('/')
    } else if s == seq!['<'] {
        TokenV::Lt("<"@)
    } else if s == seq!['<', '='] {
        TokenV::LtEQ("<="@)
    } else if s == seq!['>'] {
        TokenV::Gt(">"@)
    } else if s == seq!['>', '='] {
        TokenV::GtEQ(">="@)
    } else if s == seq!['('] {
        TokenV::LParent('(')
    } else if s == seq![')'] {
        TokenV::RParent(')')
    } else if s == seq!['{'] {
        TokenV::LBrace('{')
    } else if s == seq!['}'] {
        TokenV::RBrace('}')
    } else if s == seq!['['] {
        TokenV::LSBracket('[')
    } else {
        TokenV::RSBracket(']')
    }
}

/// A single whitespace character, or an operator lexeme.
pub open spec fn ws_or_op(s: Seq<char>) -> bool {
    (s.len() == 1 && is_ws_char(s[0])) || op_lexeme(s)
}

/// The tokens of a run of such pieces: one per operator lexeme, in order,
/// with the whitespace pieces dropped.
pub open spec fn op_piece_tokens(segs: Seq<Seq<char>>) -> Seq<TokenV>
    decreases segs.len(),
{
    if segs.len() == 0 {
        Seq::empty()
    } else if op_lexeme(segs.first()) {
        seq![op_token(segs.first())] + op_piece_tokens(segs.drop_first())
    } else {
        op_piece_tokens(segs.drop_first())
    }
}

/// On input containing only whitespace and operator lexemes, the lexer
/// produces exactly the corresponding operator tokens, in source order,
/// followed by the end-of-input sentinel.  The input from `i` on is given
/// as the concatenation of its pieces `segs`.
pub proof fn lemma_scan_operators(cs: Seq<char>, i: int, segs: Seq<Seq<char>>)
    requires
        0 <= i <= cs.len(),
        cs.subrange(i, cs.len() as int) == segs.flatten(),
        forall|k: int| 0 <= k < segs.len() ==> ws_or_op(#[trigger] segs[k]),
    ensures
        spec_scan(cs, i) == Ok::<Seq<TokenV>, LexerErrorV>(
            op_piece_tokens(segs) + seq![TokenV::EOF],
        ),
    decreases segs.len(),
{
    if segs.len() == 0 {
        assert(cs.subrange(i, cs.len() as int).len() == 0);
        assert(i == cs.len());
        assert(op_piece_tokens(segs) + seq![TokenV::EOF] =~= seq![TokenV::EOF]);
    } else {
        let seg = segs.first();
        let rest = segs.drop_first();
        assert(seg == segs[0]);
        assert(ws_or_op(seg));
        assert(cs.subrange(i, cs.len() as int) == seg + rest.flatten());
        let n = seg.len() as int;
        let j = i + n;
        assert(seg.len() > 0);
        assert(cs.subrange(i, cs.len() as int).len() == seg.len() + rest.flatten().len());
        assert(j <= cs.len());
        assert forall|m: int| 0 <= m < n implies cs[i + m] == seg[m] by {
            assert(cs.subrange(i, cs.len() as int)[m] == seg[m]);
        }
        assert(cs.subrange(j, cs.len() as int) =~= rest.flatten()) by {
            assert forall|m: int| 0 <= m < cs.len() - j implies cs.subrange(
                j,
                cs.len() as int,
            )[m] == rest.flatten()[m] by {
                assert(cs.subrange(i, cs.len() as int)[n + m] == (seg + rest.flatten())[n + m]);
            }
        }
        assert(forall|k: int| 0 <= k < rest.len() ==> ws_or_op(#[trigger] rest[k]));
        if j < cs.len() {
            // The following piece starts with a whitespace or operator
            // character, never `=`, so single-character `<` and `>` pieces
            // are not merged with what follows.
            assert(rest.flatten().len() > 0);
            assert(rest.len() > 0);
            assert(rest.flatten() == rest.first() + rest.drop_first().flatten());
            assert(ws_or_op(rest[0]));
            assert(rest.first().len() > 0);
            assert(cs[j] == rest.flatten()[0]);
            assert(rest.flatten()[0] == rest.first()[0]);
            assert(cs[j] != '=');
        }
        lemma_scan_operators(cs, j, rest);
        if seg.len() == 1 && is_ws_char(seg[0]) {
            assert(spec_next(cs, i) == LexStep::Tok(TokenV::WhiteSpace, i + 1));
            assert(spec_scan(cs, i) == Ok::<Seq<TokenV>, LexerErrorV>(
                op_piece_tokens(rest) + seq![TokenV::EOF],
            ));
            assert(op_piece_tokens(segs) == op_piece_tokens(rest));
        } else {
            assert(op_lexeme(seg));
            let t = op_token(seg);
            assert(spec_next(cs, i) == LexStep::Tok(t, j));
            assert(spec_scan(cs, i) == Ok::<Seq<TokenV>, LexerErrorV>(
                seq![t] + (op_piece_tokens(rest) + seq![TokenV::EOF]),
            ));
            assert(seq![t] + (op_piece_tokens(rest) + seq![TokenV::EOF]) =~= (seq![t]
                + op_piece_tokens(rest)) + seq![TokenV::EOF]);
            assert(op_piece_tokens(segs) == seq![t] + op_piece_tokens(rest));
        }
    }
}

/// The lexer: character-indexed with single-character lookahead over the
/// source text.
pub struct Lexer {
    text: String,
    chars: Vec<char>,
    start: usize,
    current: usize,
}

impl Lexer {
    /// The characters of the source text.
    pub closed spec fn src(&self) -> Seq<char> {
        self.chars@
    }

    /// The current scanning position, in characters.
    pub closed spec fn pos(&self) -> int {
        self.current as int
    }

    /// The lexer's held text agrees with its character index and the
    /// cursors lie within it.
    pub closed spec fn wf(&self) -> bool {
        &&& self.text@ == self.chars@
        &&& self.start <= self.chars@.len()
        &&& self.current <= self.chars@.len()
    }

    /// A lexer over `text`, positioned at its start.
    pub fn new(text: String) -> (r: Self)
        ensures
            r.wf(),
            r.src() == text@,
            r.pos() == 0,
    {
        let n = text.as_str().unicode_len();
        let mut chars: Vec<char> = Vec::new();
        let mut i: usize = 0;
        while i < n
            invariant
                i <= n,
                n == text@.len(),
                chars@.len() == i,
                forall|k: int| 0 <= k < i ==> chars@[k] == text@[k],
            decreases n - i,
        {
            let c = text.as_str().get_char(i);
            chars.push(c);
            i += 1;
        }
        proof {
            assert(chars@ =~= text@);
        }
        Self { text, start: 0, current: 0, chars }
    }

    /// Scans the whole remaining input in one pass: exactly the tokens of
    /// [`spec_scan`], ending with the end-of-input sentinel, or the first
    /// error.
    pub fn scan_tokens(&mut self) -> (r: Result<Vec<Token>, LexerError>)
        requires
            old(self).wf(),
        ensures
            final(self).wf(),
            final(self).src() == old(self).src(),
            lex_result_view(r) == spec_scan(old(self).src(), old(self).pos()),
    {
        let ghost cs = self.chars@;
        let ghost i0 = self.current as int;
        let mut tokens: Vec<Token> = Vec::new();
        loop
            invariant
                self.wf(),
                self.chars@ == cs,
                cs == old(self).src(),
                i0 == old(self).pos(),
                spec_scan(cs, i0) == scan_app(tokens_view(tokens@), spec_scan(cs, self.pos())),
            decreases cs.len() - self.pos(),
        {
            if self.is_at_end() {
                let ghost pre = tokens@;
                tokens.push(Token::EOF);
                proof {
                    assert(spec_scan(cs, self.pos()) == Ok::<_, LexerErrorV>(seq![TokenV::EOF]));
                    assert(tokens_view(tokens@) =~= tokens_view(pre) + seq![TokenV::EOF]);
                    assert(lex_result_view(Ok(tokens)) == spec_scan(cs, i0));
                }
                return Ok(tokens);
            }
            self.start = self.current;
            let ghost i = self.pos();
            let tk_result = self.next_token();
            proof {
                lemma_next_in_range(cs, i);
            }
            match tk_result {
                Ok(Token::WhiteSpace) => {
                    proof {
                        assert(spec_scan(cs, i) == spec_scan(cs, self.pos())) by {
                            let r = spec_scan(cs, self.pos());
                            if r is Err {
                            }
                        }
                    }
                }
                Ok(tk) => {
                    proof {
                        let j = self.pos();
                        assert(spec_scan(cs, i) == scan_app(seq![tk@], spec_scan(cs, j))) by {
                            let r = spec_scan(cs, j);
                            if r is Err {
                            }
                        }
                        assert(tokens_view(tokens@.push(tk)) =~= tokens_view(tokens@) + seq![tk@]);
                        let r = spec_scan(cs, j);
                        if r is Ok {
                            assert((tokens_view(tokens@) + seq![tk@]) + r->Ok_0 =~= tokens_view(
                                tokens@,
                            ) + (seq![tk@] + r->Ok_0));
                        }
                    }
                    tokens.push(tk);
                }
                Err(e) => {
                    proof {
                        assert(spec_scan(cs, i) == Err::<Seq<TokenV>, _>(e@));
                    }
                    return Err(e);
                }
            }
        }
    }

    /// One token: the step of [`spec_next`] at the current position.
    fn next_token(&mut self) -> (r: Result<Token, LexerError>)
        requires
            old(self).wf(),
            old(self).start == old(self).pos(),
            old(self).pos() < old(self).src().len(),
        ensures
            final(self).wf(),
            final(self).src() == old(self).src(),
            match r {
                Ok(t) => spec_next(old(self).src(), old(self).pos()) == LexStep::Tok(
                    t@,
                    final(self).pos(),
                ),
                Err(e) => spec_next(old(self).src(), old(self).pos()) == LexStep::Fail(e@),
            },
    {
        let ch = self.advance();
        match ch {
            ' ' | '\n' | '\t' | '\r' => Ok(Token::WhiteSpace),
            '(' => Ok(Token::LParent('(')),
            ')' => Ok(Token::RParent(')')),
            '{' => Ok(Token::LBrace('{')),
            '}' => Ok(Token::RBrace('}')),
            '[' => Ok(Token::LSBracket('[')),
            ']' => Ok(Token::RSBracket(']')),
            '+' => Ok(Token::Plus(ch)),
            '-' => Ok(Token::Minus(ch)),
            '*' => Ok(Token::Star(ch)),
            '/' => Ok(Token::Slash(ch)),
            '!' => Ok(Token::Bang),
            '=' => {
                if self.is_current_match('=') {
                    Ok(Token::EQ(String::from_str("==")))
                } else {
                    Ok(Token::Assign(ch))
                }
            }
            '<' => {
                if self.is_current_match('=') {
                    Ok(Token::LtEQ(String::from_str("<=")))
                } else {
                    Ok(Token::Lt(String::from_str("<")))
                }
            }
            '>' => {
                if self.is_current_match('=') {
                    Ok(Token::GtEQ(String::from_str(">=")))
                } else {
                    Ok(Token::Gt(String::from_str(">")))
                }
            }
            '|' => {
                if self.is_current_match('|') {
                    Ok(Token::Or)
                } else {
                    Ok(Token::BitOr)
                }
            }
            '&' => {
                if self.is_current_match('&') {
                    Ok(Token::And)
                } else {
                    Ok(Token::BitAnd)
                }
            }
            '"' => self.parse_string(),
            _ => {
                if is_digit(ch) {
                    let tk = self.parse_number()?;
                    return Ok(tk);
                }
                if is_alphabetic_ch(ch) {
                    let tk = self.parse_ident()?;
                    return Ok(tk);
                }
                Err(LexerError::InvalidToken(ch))
            }
        }
    }

    /// Whether the current character is `ch`; consumes it when it is.
    fn is_current_match(&mut self, ch: char) -> (r: bool)
        requires
            old(self).wf(),
        ensures
            final(self).wf(),
            final(self).src() == old(self).src(),
            final(self).start == old(self).start,
            final(self).text == old(self).text,
            r == (old(self).pos() < old(self).src().len() && old(self).src()[old(self).pos()]
                == ch),
            final(self).pos() == old(self).pos() + if r {
                1int
            } else {
                0int
            },
    {
        if self.is_at_end() {
            return false;
        }
        if self.chars[self.current] != ch {
            return false;
        }
        proof {
            assert(self.chars.len() == self.chars@.len());
        }
        self.current += 1;
        true
    }

    /// Whether the whole input has been consumed.
    fn is_at_end(&self) -> (r: bool)
        requires
            self.wf(),
        ensures
            r == (self.pos() >= self.src().len()),
    {
        self.current >= self.chars.len()
    }

    /// Consumes and returns the current character.
    fn advance(&mut self) -> (c: char)
        requires
            old(self).wf(),
            old(self).pos() < old(self).src().len(),
        ensures
            final(self).wf(),
            final(self).src() == old(self).src(),
            final(self).start == old(self).start,
            final(self).text == old(self).text,
            final(self).pos() == old(self).pos() + 1,
            c == old(self).src()[old(self).pos()],
    {
        proof {
            assert(self.chars.len() == self.chars@.len());
        }
        self.current += 1;
        self.chars[self.current - 1]
    }

    /// The current character, if any, without consuming it.
    fn peek(&self) -> (r: Option<char>)
        requires
            self.wf(),
        ensures
            r == if self.pos() < self.src().len() {
                Some(self.src()[self.pos()])
            } else {
                None::<char>
            },
    {
        if self.is_at_end() {
            return None;
        }
        Some(self.chars[self.current])
    }

    /// A numeral: a maximal digit run with at most one decimal point.  A
    /// numeral with a point is a float literal; one without is an integer
    /// literal, or an overflow error when its value does not fit.
    fn parse_number(&mut self) -> (r: Result<Token, LexerError>)
        requires
            old(self).wf(),
            old(self).start + 1 == old(self).pos(),
            old(self).start < old(self).src().len(),
            is_digit_char(old(self).src()[old(self).start as int]),
        ensures
            final(self).wf(),
            final(self).src() == old(self).src(),
            match r {
                Ok(t) => spec_number(old(self).src(), old(self).start as int) == LexStep::Tok(
                    t@,
                    final(self).pos(),
                ),
                Err(e) => spec_number(old(self).src(), old(self).start as int) == LexStep::Fail(
                    e@,
                ),
            },
    {
        let ghost cs = self.chars@;
        let ghost st = self.start as int;
        let mut is_float = false;
        loop
            invariant
                self.wf(),
                self.chars@ == cs,
                self.text == old(self).text,
                self.start == old(self).start,
                st + 1 <= self.pos() <= cs.len(),
                digit_run_end(cs, st + 1) == digit_run_end(cs, self.pos()),
                forall|k: int| st <= k < self.pos() ==> is_digit_char(cs[k]),
            ensures
                self.wf(),
                self.chars@ == cs,
                self.text == old(self).text,
                self.start == old(self).start,
                st + 1 <= self.pos() <= cs.len(),
                self.pos() == digit_run_end(cs, st + 1),
                forall|k: int| st <= k < self.pos() ==> is_digit_char(cs[k]),
            decreases cs.len() - self.pos(),
        {
            match self.peek() {
                Some(d) => {
                    if is_digit(d) {
                        self.advance();
                    } else {
                        break;
                    }
                }
                None => {
                    break;
                }
            }
        }
        let ghost a = digit_run_end(cs, st + 1);
        match self.peek() {
            Some(d) => {
                if d == '.' {
                    is_float = true;
                    self.advance();
                    loop
                        invariant
                            self.wf(),
                            self.chars@ == cs,
                            self.text == old(self).text,
                            self.start == old(self).start,
                            a + 1 <= self.pos() <= cs.len(),
                            digit_run_end(cs, a + 1) == digit_run_end(cs, self.pos()),
                            forall|k: int| a + 1 <= k < self.pos() ==> is_digit_char(cs[k]),
                        ensures
                            self.wf(),
                            self.chars@ == cs,
                            self.text == old(self).text,
                            self.start == old(self).start,
                            a + 1 <= self.pos() <= cs.len(),
                            self.pos() == digit_run_end(cs, a + 1),
                            forall|k: int| a + 1 <= k < self.pos() ==> is_digit_char(cs[k]),
                        decreases cs.len() - self.pos(),
                    {
                        match self.peek() {
                            Some(d2) => {
                                if is_digit(d2) {
                                    self.advance();
                                } else {
                                    break;
                                }
                            }
                            None => {
                                break;
                            }
                        }
                    }
                }
            }
            None => {}
        }
        let ghost end = numeral_end(cs, st);
        proof {
            assert(end == self.pos());
        }
        let num_text = self.text.as_str().substring_char(self.start, self.current);
        if is_float {
            proof {
                let s = cs.subrange(st, end);
                assert(is_digit_char(s[0]));
                let d = a - st;
                assert(0 <= d <= s.len() && (forall|k: int|
                    0 <= k < s.len() && k != d ==> is_digit_char(s[k])) && (d < s.len() ==> s[d]
                    == '.'));
                assert(decimal_numeral(s));
            }
            let bits = float_of_decimal(num_text);
            return Ok(Token::Float(FloatBits(bits)));
        }
        // An integer numeral: fold the digits, watching for overflow.
        let mut val: i64 = 0;
        let mut k = self.start;
        proof {
            assert(numeral_is_float(cs, st) == false);
            assert(end == a);
        }
        while k < self.current
            invariant
                self.wf(),
                self.chars@ == cs,
                cs == old(self).src(),
                st == old(self).start as int,
                self.start <= k <= self.current,
                self.current as int == end,
                self.start as int == st,
                0 <= st,
                st <= end <= cs.len(),
                end == numeral_end(cs, st),
                !numeral_is_float(cs, st),
                forall|m: int| st <= m < end ==> is_digit_char(cs[m]),
                0 <= val,
                val == digits_val(cs, st, k as int),
            decreases self.current - k,
        {
            let c = self.chars[k];
            let d = (c as u32 - 48) as i64;
            if val > (i64::MAX - d) / 10 {
                proof {
                    assert(val * 10 + d > i64::MAX) by (nonlinear_arith)
                        requires
                            val > (i64::MAX - d) / 10,
                            0 <= d <= 9,
                    ;
                    assert(digits_val(cs, st, k + 1) == val * 10 + d);
                    lemma_digits_val_mono(cs, st, k + 1, end);
                    assert(digits_val(cs, st, end) > i64::MAX);
                }
                return Err(LexerError::InvalidNum(String::from_str(
                    "number too large to fit in target type",
                )));
            }
            proof {
                assert(val * 10 + d <= i64::MAX) by (nonlinear_arith)
                    requires
                        val <= (i64::MAX - d) / 10,
                        0 <= val,
                        0 <= d <= 9,
                ;
            }
            val = val * 10 + d;
            k += 1;
        }
        proof {
            lemma_digits_val_mono(cs, st, st, end);
        }
        Ok(Token::Integer(val))
    }

    /// A string literal: verbatim through the next double quote, with no
    /// escape processing; reaching end of input first is an error.
    fn parse_string(&mut self) -> (r: Result<Token, LexerError>)
        requires
            old(self).wf(),
            old(self).start + 1 == old(self).pos(),
            old(self).start < old(self).src().len(),
            old(self).src()[old(self).start as int] == '"',
        ensures
            final(self).wf(),
            final(self).src() == old(self).src(),
            match r {
                Ok(t) => spec_string(old(self).src(), old(self).start as int) == LexStep::Tok(
                    t@,
                    final(self).pos(),
                ),
                Err(e) => spec_string(old(self).src(), old(self).start as int) == LexStep::Fail(
                    e@,
                ),
            },
    {
        let ghost cs = self.chars@;
        let ghost st = self.start as int;
        let mut valid_str = false;
        loop
            invariant
                self.wf(),
                self.chars@ == cs,
                self.text == old(self).text,
                self.start == old(self).start,
                st + 1 <= self.pos() <= cs.len(),
                valid_str ==> self.pos() >= st + 2 && cs[self.pos() - 1] == '"' && forall|k: int|
                    st + 1 <= k < self.pos() - 1 ==> cs[k] != '"',
                !valid_str ==> forall|k: int| st + 1 <= k < self.pos() ==> cs[k] != '"',
            ensures
                self.wf(),
                self.chars@ == cs,
                self.text == old(self).text,
                self.start == old(self).start,
                st + 1 <= self.pos() <= cs.len(),
                valid_str ==> self.pos() >= st + 2 && cs[self.pos() - 1] == '"' && forall|k: int|
                    st + 1 <= k < self.pos() - 1 ==> cs[k] != '"',
                !valid_str ==> self.pos() == cs.len() && forall|k: int|
                    st + 1 <= k < cs.len() ==> cs[k] != '"',
            decreases cs.len() - self.pos() + if valid_str {
                0int
            } else {
                1int
            },
        {
            if valid_str {
                break;
            }
            match self.peek() {
                Some(c) => {
                    self.advance();
                    if c == '"' {
                        valid_str = true;
                    }
                }
                None => {
                    break;
                }
            }
        }
        if self.is_at_end() && !valid_str {
            proof {
                lemma_find_quote_unique(cs, st + 1, cs.len() as int);
            }
            let content = self.text.as_str().substring_char(self.start, self.chars.len());
            return Err(LexerError::InvalidString(content.to_owned()));
        }
        proof {
            lemma_find_quote_unique(cs, st + 1, self.pos() - 1);
        }
        let content = self.text.as_str().substring_char(self.start + 1, self.current - 1);
        Ok(Token::SString(content.to_owned()))
    }

    /// An identifier or keyword: a maximal alphanumeric run, looked up in
    /// the keyword table.
    fn parse_ident(&mut self) -> (r: Result<Token, LexerError>)
        requires
            old(self).wf(),
            old(self).start + 1 == old(self).pos(),
            old(self).start < old(self).src().len(),
        ensures
            final(self).wf(),
            final(self).src() == old(self).src(),
            match r {
                Ok(t) => spec_ident(old(self).src(), old(self).start as int) == LexStep::Tok(
                    t@,
                    final(self).pos(),
                ),
                Err(e) => false,
            },
    {
        let ghost cs = self.chars@;
        let ghost st = self.start as int;
        loop
            invariant
                self.wf(),
                self.chars@ == cs,
                self.text == old(self).text,
                self.start == old(self).start,
                st + 1 <= self.pos() <= cs.len(),
                alnum_run_end(cs, st + 1) == alnum_run_end(cs, self.pos()),
            ensures
                self.wf(),
                self.chars@ == cs,
                self.text == old(self).text,
                self.start == old(self).start,
                st + 1 <= self.pos() <= cs.len(),
                self.pos() == alnum_run_end(cs, st + 1),
            decreases cs.len() - self.pos(),
        {
            match self.peek() {
                Some(c) => {
                    if is_alphanumeric_ch(c) {
                        self.advance();
                    } else {
                        break;
                    }
                }
                None => {
                    break;
                }
            }
        }
        let ident_str = self.text.as_str().substring_char(self.start, self.current);
        let ident = ident_str.to_owned();
        match get_keyword(ident.as_str()) {
            Some(tk) => Ok(tk),
            None => Ok(Token::Ident(ident)),
        }
    }
}

} // verus!
