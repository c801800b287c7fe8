//! The lexical rules, stated over the characters of the source.
//!
//! At each position the skip rules come first: a run of whitespace, a line
//! comment, or a block comment closed by the first `*/` after its opening.
//! Where none applies, one lexeme is taken by longest match: a word (keyword,
//! boolean or identifier), a number (integer before real when both match the
//! same characters), a quoted symbol, an operator or delimiter, or else a
//! single character reported as an invalid token.
use crate::text::digits_value;
use crate::token::{keyword_of, LexicalError, Token};
use vstd::prelude::*;

verus! {

/// The classes of characters that the rules take runs of.
#[derive(Clone, Copy, Debug, PartialEq, Eq, Structural)]
pub enum CharClass {
    /// Space, tab, newline, form feed.
    Space,
    /// A letter, a digit or `_`.
    WordChar,
    /// An ASCII decimal digit.
    Digit,
    /// Any character but a newline.
    LineChar,
}

pub open spec fn is_space(c: char) -> bool {
    c == ' ' || c == '\t' || c == '\n' || c == '\x0C'
}

pub open spec fn is_digit(c: char) -> bool {
    '0' <= c && c <= '9'
}

pub open spec fn is_word_start(c: char) -> bool {
    c == '_' || ('a' <= c && c <= 'z') || ('A' <= c && c <= 'Z')
}

pub open spec fn is_word_char(c: char) -> bool {
    is_word_start(c) || is_digit(c)
}

/// The symbols that may stand alone between single quotes as an identifier.
pub open spec fn is_quotable(c: char) -> bool {
    c == '!' || c == '#' || c == '$' || c == '%' || c == '&' || c == '(' || c == ')' || c == '*'
        || c == '+' || c == ',' || c == '-' || c == '.' || c == '/' || c == ':' || c == ';'
        || c == '<' || c == '>' || c == '=' || c == '?' || c == '@' || c == '[' || c == ']'
        || c == '^' || c == '{' || c == '}' || c == '|' || c == '~' || c == ' ' || c == '"'
}

pub open spec fn in_class(k: CharClass, c: char) -> bool {
    match k {
        CharClass::Space => is_space(c),
        CharClass::WordChar => is_word_char(c),
        CharClass::Digit => is_digit(c),
        CharClass::LineChar => c != '\n',
    }
}

/// A plain word: `[_a-zA-Z][_0-9a-zA-Z]*`.
pub open spec fn is_word(w: Seq<char>) -> bool {
    &&& w.len() > 0
    &&& is_word_start(w[0])
    &&& forall|j: int| 0 < j < w.len() ==> is_word_char(#[trigger] w[j])
}

/// `s[i] == c`, with `i` in range.
pub open spec fn at(s: Seq<char>, i: int, c: char) -> bool {
    0 <= i < s.len() && s[i] == c
}

/// The length of the longest run of characters of class `k` from `i`.
pub open spec fn run(s: Seq<char>, i: int, k: CharClass) -> int
    decreases s.len() - i,
{
    if 0 <= i < s.len() && in_class(k, s[i]) {
        1 + run(s, i + 1, k)
    } else {
        0
    }
}

/// The position of the first `*/` at or after `j`, or -1 when there is none.
pub open spec fn close_from(s: Seq<char>, j: int) -> int
    decreases s.len() - j,
{
    if !(0 <= j && j + 1 < s.len()) {
        -1
    } else if s[j] == '*' && s[j + 1] == '/' {
        j
    } else {
        close_from(s, j + 1)
    }
}

/// How many characters a skip rule drops at `i`; 0 where none applies.
pub open spec fn skip_len(s: Seq<char>, i: int) -> int {
    if !(0 <= i < s.len()) {
        0
    } else if is_space(s[i]) {
        run(s, i, CharClass::Space)
    } else if at(s, i, '/') && at(s, i + 1, '/') {
        let body = run(s, i + 2, CharClass::LineChar);
        2 + body + if at(s, i + 2 + body, '\n') {
            1int
        } else {
            0int
        }
    } else if at(s, i, '/') && at(s, i + 1, '*') && close_from(s, i + 2) >= 0 {
        close_from(s, i + 2) + 2 - i
    } else {
        0
    }
}

/// Where the next lexeme starts: `i`, after every skip rule that applies there in turn.
pub open spec fn next_start(s: Seq<char>, i: int) -> int
    decreases s.len() - i,
    via next_start_decreases
{
    if 0 <= i < s.len() && skip_len(s, i) > 0 {
        next_start(s, i + skip_len(s, i))
    } else {
        i
    }
}

/// The length of `[1-9][0-9]*` at `i`, or 0.
pub open spec fn int_len(s: Seq<char>, i: int) -> int {
    if 0 <= i < s.len() && '1' <= s[i] && s[i] <= '9' {
        run(s, i, CharClass::Digit)
    } else {
        0
    }
}

/// The length of `\.[0-9]+` at `j`, or 0.
pub open spec fn fraction_len(s: Seq<char>, j: int) -> int {
    if at(s, j, '.') && run(s, j + 1, CharClass::Digit) > 0 {
        1 + run(s, j + 1, CharClass::Digit)
    } else {
        0
    }
}

/// The length of `[eE][+-]?[0-9]+` at `j`, or 0.
pub open spec fn exponent_len(s: Seq<char>, j: int) -> int {
    if at(s, j, 'e') || at(s, j, 'E') {
        let sign: int = if at(s, j + 1, '+') || at(s, j + 1, '-') {
            1
        } else {
            0
        };
        let digits = run(s, j + 1 + sign, CharClass::Digit);
        if digits > 0 {
            1 + sign + digits
        } else {
            0
        }
    } else {
        0
    }
}

/// The length of the longest match of `(0|[1-9][0-9]*)(\.[0-9]+)?([eE][+-]?[0-9]+)?` at `i`, or 0.
pub open spec fn real_len(s: Seq<char>, i: int) -> int {
    let whole = if at(s, i, '0') {
        1
    } else {
        int_len(s, i)
    };
    if whole == 0 {
        0
    } else {
        let frac = fraction_len(s, i + whole);
        whole + frac + exponent_len(s, i + whole + frac)
    }
}

/// The number at `i` is an integer: the integer pattern matches as many
/// characters as the real one, and takes precedence.
pub open spec fn is_integer_at(s: Seq<char>, i: int) -> bool {
    int_len(s, i) > 0 && int_len(s, i) == real_len(s, i)
}

/// A single quote, one quotable symbol, a single quote.
pub open spec fn quoted_at(s: Seq<char>, i: int) -> bool {
    at(s, i, '\'') && i + 2 < s.len() && is_quotable(s[i + 1]) && s[i + 2] == '\''
}

/// The operator or delimiter that starts at `i`, two-character ones first.
pub open spec fn operator_at(s: Seq<char>, i: int) -> Option<Token> {
    if at(s, i, ':') && at(s, i + 1, '=') {
        Some(Token::Assign)
    } else if at(s, i, '.') && at(s, i + 1, '+') {
        Some(Token::OperatorElemAdd)
    } else if at(s, i, '.') && at(s, i + 1, '-') {
        Some(Token::OperatorElemSub)
    } else if at(s, i, '.') && at(s, i + 1, '*') {
        Some(Token::OperatorElemMul)
    } else if at(s, i, '.') && at(s, i + 1, '/') {
        Some(Token::OperatorElemDiv)
    } else if at(s, i, '(') {
        Some(Token::LParen)
    } else if at(s, i, ')') {
        Some(Token::RParen)
    } else if at(s, i, '=') {
        Some(Token::Equal)
    } else if at(s, i, ';') {
        Some(Token::Semicolon)
    } else if at(s, i, '+') {
        Some(Token::OperatorAdd)
    } else if at(s, i, '-') {
        Some(Token::OperatorSub)
    } else if at(s, i, '*') {
        Some(Token::OperatorMul)
    } else if at(s, i, '/') {
        Some(Token::OperatorDiv)
    } else {
        None
    }
}

/// The token a word stands for when it is not an identifier: a keyword, or
/// a boolean literal for `true` and `false`.
///
/// Booleans are read from these two words. The text `(true|false)?` is not a
/// token of its own: it scans as a parenthesis, the two booleans, and the
/// invalid `|` and `?` around them.
pub open spec fn word_token(w: Seq<char>) -> Option<Token> {
    match keyword_of(w) {
        Some(t) => Some(t),
        None => if w == "true"@ {
            Some(Token::Boolean(true))
        } else if w == "false"@ {
            Some(Token::Boolean(false))
        } else {
            None
        },
    }
}

/// How many characters the lexeme at `i` covers.
pub open spec fn lexeme_len(s: Seq<char>, i: int) -> int {
    if is_word_start(s[i]) {
        run(s, i, CharClass::WordChar)
    } else if is_digit(s[i]) {
        real_len(s, i)
    } else if quoted_at(s, i) {
        3
    } else if operator_at(s, i) is Some && (at(s, i, ':') || at(s, i, '.')) {
        2
    } else {
        1
    }
}

/// `r` is an identifier whose text is `text`.
pub open spec fn is_identifier(r: Result<Token, LexicalError>, text: Seq<char>) -> bool {
    match r {
        Ok(Token::Identifier(x)) => x@ == text,
        _ => false,
    }
}

/// `r` is what the lexeme at `i` yields.
pub open spec fn yields(s: Seq<char>, i: int, r: Result<Token, LexicalError>) -> bool {
    let text = s.subrange(i, i + lexeme_len(s, i));
    if is_word_start(s[i]) {
        match word_token(text) {
            Some(t) => r == Ok::<Token, LexicalError>(t),
            None => is_identifier(r, text),
        }
    } else if is_digit(s[i]) {
        if is_integer_at(s, i) {
            if digits_value(text) <= i64::MAX {
                r == Ok::<Token, LexicalError>(Token::UnsignedInteger(digits_value(text) as i64))
            } else {
                match r {
                    Err(LexicalError::InvalidInteger(_)) => true,
                    _ => false,
                }
            }
        } else {
            match r {
                Ok(Token::UnsignedReal(x)) => x@ == text,
                _ => false,
            }
        }
    } else if quoted_at(s, i) {
        is_identifier(r, text)
    } else {
        match operator_at(s, i) {
            Some(t) => r == Ok::<Token, LexicalError>(t),
            None => r == Err::<Token, LexicalError>(LexicalError::InvalidToken),
        }
    }
}

/// The spans of the lexemes from `i` on, in order, as a scan reports them.
pub open spec fn spans_from(s: Seq<char>, i: int) -> Seq<(int, int)>
    decreases s.len() - i,
    via spans_from_decreases
{
    let p = next_start(s, i);
    if 0 <= i && 0 <= p < s.len() {
        seq![(p, p + lexeme_len(s, p))] + spans_from(s, p + lexeme_len(s, p))
    } else {
        seq![]
    }
}

#[via_fn]
proof fn next_start_decreases(s: Seq<char>, i: int) {
    lemma_skip_len_bounds(s, i);
}

#[via_fn]
proof fn spans_from_decreases(s: Seq<char>, i: int) {
    let p = next_start(s, i);
    if 0 <= i && 0 <= p < s.len() {
        lemma_next_start_bounds(s, i);
        lemma_lexeme_len_bounds(s, p);
    }
}

/// A run stays within the text and holds only characters of its class.
pub proof fn lemma_run(s: Seq<char>, i: int, k: CharClass)
    requires
        0 <= i,
    ensures
        0 <= run(s, i, k),
        run(s, i, k) == 0 || i + run(s, i, k) <= s.len(),
        forall|j: int| i <= j < i + run(s, i, k) ==> in_class(k, #[trigger] s[j]),
        i + run(s, i, k) < s.len() ==> !in_class(k, s[i + run(s, i, k)]),
    decreases s.len() - i,
{
    if i < s.len() && in_class(k, s[i]) {
        lemma_run(s, i + 1, k);
    }
}

/// The first close found from `j` lies within the text.
pub proof fn lemma_close_from(s: Seq<char>, j: int)
    ensures
        close_from(s, j) >= 0 ==> j <= close_from(s, j) && close_from(s, j) + 2 <= s.len(),
    decreases s.len() - j,
{
    if 0 <= j && j + 1 < s.len() && !(s[j] == '*' && s[j + 1] == '/') {
        lemma_close_from(s, j + 1);
    }
}

/// A skip stays within the text.
pub proof fn lemma_skip_len_bounds(s: Seq<char>, i: int)
    ensures
        0 <= skip_len(s, i),
        0 <= i < s.len() ==> i + skip_len(s, i) <= s.len(),
{
    if 0 <= i < s.len() {
        if is_space(s[i]) {
            lemma_run(s, i, CharClass::Space);
        } else if at(s, i, '/') && at(s, i + 1, '/') {
            lemma_run(s, i + 2, CharClass::LineChar);
        } else {
            lemma_close_from(s, i + 2);
        }
    }
}

/// Skipping moves forward, and never past the end of the text.
pub proof fn lemma_next_start_bounds(s: Seq<char>, i: int)
    ensures
        i <= next_start(s, i),
        0 <= i <= s.len() ==> next_start(s, i) <= s.len(),
        0 <= i < s.len() ==> next_start(s, i) == i || skip_len(s, i) > 0,
    decreases s.len() - i,
{
    lemma_skip_len_bounds(s, i);
    if 0 <= i < s.len() && skip_len(s, i) > 0 {
        lemma_next_start_bounds(s, i + skip_len(s, i));
    }
}

/// Every lexeme covers at least one character, and stays within the text.
pub proof fn lemma_lexeme_len_bounds(s: Seq<char>, i: int)
    requires
        0 <= i < s.len(),
    ensures
        1 <= lexeme_len(s, i) <= s.len() - i,
{
    lemma_run(s, i, CharClass::WordChar);
    lemma_run(s, i, CharClass::Digit);
    let whole = if at(s, i, '0') {
        1
    } else {
        int_len(s, i)
    };
    if is_digit(s[i]) {
        lemma_run(s, i + whole + 1, CharClass::Digit);
        let frac = fraction_len(s, i + whole);
        let j = i + whole + frac;
        lemma_run(s, j + 1, CharClass::Digit);
        if j + 2 <= s.len() {
            lemma_run(s, j + 2, CharClass::Digit);
        }
    }
}

} // verus!
