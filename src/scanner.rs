//! The executable scanner: a cursor over the characters of the source.
use crate::rules::{
    at, close_from, in_class, is_digit, is_quotable, lemma_close_from, lemma_lexeme_len_bounds,
    lemma_next_start_bounds, lemma_run, lemma_skip_len_bounds, lexeme_len, next_start,
    operator_at, real_len, run, skip_len, spans_from, word_token, yields, CharClass,
};
use crate::text::{all_digits, chars_of, parse_i64, string_of};
use crate::token::{keyword_at, same_text, LexicalError, Span, Token};
use vstd::prelude::*;
use vstd::slice::slice_subrange;

verus! {

fn in_class_exec(k: CharClass, c: char) -> (r: bool)
    ensures
        r == in_class(k, c),
{
    match k {
        CharClass::Space => c == ' ' || c == '\t' || c == '\n' || c == '\x0C',
        CharClass::WordChar => c == '_' || ('a' <= c && c <= 'z') || ('A' <= c && c <= 'Z') || (
        '0' <= c && c <= '9'),
        CharClass::Digit => '0' <= c && c <= '9',
        CharClass::LineChar => c != '\n',
    }
}

fn is_quotable_exec(c: char) -> (r: bool)
    ensures
        r == is_quotable(c),
{
    c == '!' || c == '#' || c == '$' || c == '%' || c == '&' || c == '(' || c == ')' || c == '*'
        || c == '+' || c == ',' || c == '-' || c == '.' || c == '/' || c == ':' || c == ';'
        || c == '<' || c == '>' || c == '=' || c == '?' || c == '@' || c == '[' || c == ']'
        || c == '^' || c == '{' || c == '}' || c == '|' || c == '~' || c == ' ' || c == '"'
}

fn is_at(s: &Vec<char>, i: usize, c: char) -> (r: bool)
    ensures
        r == at(s@, i as int, c),
{
    i < s.len() && s[i] == c
}

/// The length of the run of class `k` from `i`.
fn run_len(s: &Vec<char>, i: usize, k: CharClass) -> (r: usize)
    ensures
        r == run(s@, i as int, k),
        r == 0 || i + r <= s.len(),
{
    let mut j: usize = i;
    while j < s.len() && in_class_exec(k, s[j])
        invariant
            i <= j,
            j == i || j <= s.len(),
            run(s@, i as int, k) == (j - i) + run(s@, j as int, k),
        decreases s.len() - j,
    {
        j = j + 1;
    }
    j - i
}

/// The position of the first `*/` at or after `j`, if any.
fn find_close(s: &Vec<char>, j: usize) -> (r: Option<usize>)
    ensures
        match r {
            Some(k) => k == close_from(s@, j as int),
            None => close_from(s@, j as int) < 0,
        },
{
    let mut k: usize = j;
    while k < s.len() && s.len() - k >= 2
        invariant
            j <= k,
            close_from(s@, j as int) == close_from(s@, k as int),
        decreases s.len() - k,
    {
        if s[k] == '*' && s[k + 1] == '/' {
            return Some(k);
        }
        k = k + 1;
    }
    None
}

/// How many characters a skip rule drops at `i`.
fn skip_len_exec(s: &Vec<char>, i: usize) -> (r: usize)
    requires
        i < s.len(),
    ensures
        r == skip_len(s@, i as int),
{
    proof {
        lemma_skip_len_bounds(s@, i as int);
    }
    let c = s[i];
    if in_class_exec(CharClass::Space, c) {
        run_len(s, i, CharClass::Space)
    } else if c == '/' && is_at(s, i + 1, '/') {
        let body = run_len(s, i + 2, CharClass::LineChar);
        proof {
            lemma_run(s@, i + 2, CharClass::LineChar);
        }
        if is_at(s, i + 2 + body, '\n') {
            3 + body
        } else {
            2 + body
        }
    } else if c == '/' && is_at(s, i + 1, '*') {
        match find_close(s, i + 2) {
            Some(k) => {
                proof {
                    lemma_close_from(s@, i + 2);
                }
                k + 2 - i
            },
            None => 0,
        }
    } else {
        0
    }
}

/// The length of the real pattern at `i`, where a digit stands.
fn real_len_exec(s: &Vec<char>, i: usize) -> (r: usize)
    requires
        i < s.len(),
        is_digit(s@[i as int]),
    ensures
        r == real_len(s@, i as int),
{
    proof {
        lemma_lexeme_len_bounds(s@, i as int);
        lemma_run(s@, i as int, CharClass::Digit);
    }
    let whole = if s[i] == '0' {
        1
    } else {
        run_len(s, i, CharClass::Digit)
    };
    let j = i + whole;
    let frac = if is_at(s, j, '.') {
        let d = run_len(s, j + 1, CharClass::Digit);
        if d > 0 {
            1 + d
        } else {
            0
        }
    } else {
        0
    };
    let k = j + frac;
    let exp = if is_at(s, k, 'e') || is_at(s, k, 'E') {
        let sign: usize = if is_at(s, k + 1, '+') || is_at(s, k + 1, '-') {
            1
        } else {
            0
        };
        let d = run_len(s, k + 1 + sign, CharClass::Digit);
        if d > 0 {
            1 + sign + d
        } else {
            0
        }
    } else {
        0
    };
    whole + frac + exp
}

/// The operator or delimiter at `i`, if any.
fn operator_at_exec(s: &Vec<char>, i: usize) -> (r: Option<Token>)
    requires
        i < s.len(),
    ensures
        r == operator_at(s@, i as int),
{
    let c = s[i];
    if c == ':' && is_at(s, i + 1, '=') {
        Some(Token::Assign)
    } else if c == '.' && is_at(s, i + 1, '+') {
        Some(Token::OperatorElemAdd)
    } else if c == '.' && is_at(s, i + 1, '-') {
        Some(Token::OperatorElemSub)
    } else if c == '.' && is_at(s, i + 1, '*') {
        Some(Token::OperatorElemMul)
    } else if c == '.' && is_at(s, i + 1, '/') {
        Some(Token::OperatorElemDiv)
    } else if c == '(' {
        Some(Token::LParen)
    } else if c == ')' {
        Some(Token::RParen)
    } else if c == '=' {
        Some(Token::Equal)
    } else if c == ';' {
        Some(Token::Semicolon)
    } else if c == '+' {
        Some(Token::OperatorAdd)
    } else if c == '-' {
        Some(Token::OperatorSub)
    } else if c == '*' {
        Some(Token::OperatorMul)
    } else if c == '/' {
        Some(Token::OperatorDiv)
    } else {
        None
    }
}

/// The token that the word `s[a..b]` stands for, if it is not an identifier.
fn word_token_exec(s: &Vec<char>, a: usize, b: usize) -> (r: Option<Token>)
    requires
        a <= b <= s.len(),
    ensures
        r == word_token(s@.subrange(a as int, b as int)),
{
    match keyword_at(s, a, b) {
        Some(t) => Some(t),
        None => if same_text(s, a, b, "true") {
            Some(Token::Boolean(true))
        } else if same_text(s, a, b, "false") {
            Some(Token::Boolean(false))
        } else {
            None
        },
    }
}

/// The characters `s[a..b]` as a `String`.
fn text_between(s: &Vec<char>, a: usize, b: usize) -> (r: String)
    requires
        a <= b <= s.len(),
    ensures
        r@ == s@.subrange(a as int, b as int),
{
    string_of(slice_subrange(s.as_slice(), a, b))
}

/// Scans the lexeme that starts at `i`: what it yields, and where it ends.
fn lex_at(s: &Vec<char>, i: usize) -> (r: (Result<Token, LexicalError>, usize))
    requires
        i < s.len(),
    ensures
        r.1 == i + lexeme_len(s@, i as int),
        yields(s@, i as int, r.0),
{
    proof {
        lemma_lexeme_len_bounds(s@, i as int);
    }
    let c = s[i];
    if c == '_' || ('a' <= c && c <= 'z') || ('A' <= c && c <= 'Z') {
        let end = i + run_len(s, i, CharClass::WordChar);
        match word_token_exec(s, i, end) {
            Some(t) => (Ok(t), end),
            None => (Ok(Token::Identifier(text_between(s, i, end))), end),
        }
    } else if '0' <= c && c <= '9' {
        let len = real_len_exec(s, i);
        let end = i + len;
        let text = text_between(s, i, end);
        let whole = if c == '0' {
            0
        } else {
            run_len(s, i, CharClass::Digit)
        };
        if whole > 0 && whole == len {
            proof {
                lemma_run(s@, i as int, CharClass::Digit);
                assert(all_digits(text@));
            }
            match parse_i64(text.as_str()) {
                Ok(v) => (Ok(Token::UnsignedInteger(v)), end),
                Err(e) => (Err(LexicalError::from(e)), end),
            }
        } else {
            (Ok(Token::UnsignedReal(text)), end)
        }
    } else if c == '\'' && s.len() - i > 2 && is_quotable_exec(s[i + 1]) && s[i + 2] == '\'' {
        (Ok(Token::Identifier(text_between(s, i, i + 3))), i + 3)
    } else {
        match operator_at_exec(s, i) {
            Some(t) => {
                let len: usize = if c == ':' || c == '.' {
                    2
                } else {
                    1
                };
                (Ok(t), i + len)
            },
            None => (Err(LexicalError::InvalidToken), i + 1),
        }
    }
}

/// One scanned lexeme that yields `item`, starting at `p` in `s`.
pub open spec fn emitted(s: Seq<char>, p: int, item: (Result<Token, LexicalError>, Span)) -> bool {
    &&& item.1.start == p
    &&& item.1.end == p + lexeme_len(s, p)
    &&& yields(s, p, item.0)
}

/// A forward-only cursor over source text that hands out one token at a time.
pub struct Scanner {
    chars: Vec<char>,
    pos: usize,
}

impl Scanner {
    /// The characters being scanned.
    pub closed spec fn text(&self) -> Seq<char> {
        self.chars@
    }

    /// Where scanning goes on from.
    pub closed spec fn cursor(&self) -> int {
        self.pos as int
    }

    /// A scanner at the start of `source`.
    pub fn new(source: &str) -> (r: Scanner)
        ensures
            r.text() == source@,
            r.cursor() == 0,
    {
        Scanner { chars: chars_of(source), pos: 0 }
    }

    /// The position, in characters, that scanning goes on from.
    pub fn position(&self) -> (r: usize)
        ensures
            r == self.cursor(),
    {
        self.pos
    }

    /// Drops what the skip rules match, then scans the next lexeme: what it
    /// yields and the span it covers. `None` once the text is used up.
    pub fn next_token(&mut self) -> (r: Option<(Result<Token, LexicalError>, Span)>)
        ensures
            final(self).text() == old(self).text(),
            ({
                let s = old(self).text();
                let p = next_start(s, old(self).cursor());
                match r {
                    Some(item) => p < s.len() && emitted(s, p, item) && final(self).cursor()
                        == item.1.end,
                    None => p >= s.len() && final(self).cursor() == p,
                }
            }),
    {
        let n = self.chars.len();
        let mut p = self.pos;
        loop
            invariant
                self.chars.len() == n,
                next_start(self.chars@, p as int) == next_start(self.chars@, self.pos as int),
            ensures
                next_start(self.chars@, p as int) == p,
                next_start(self.chars@, p as int) == next_start(self.chars@, self.pos as int),
            decreases n - p,
        {
            if p >= n {
                break;
            }
            let k = skip_len_exec(&self.chars, p);
            if k == 0 {
                break;
            }
            proof {
                lemma_skip_len_bounds(self.chars@, p as int);
            }
            p = p + k;
        }
        if p >= n {
            self.pos = p;
            return None;
        }
        let (res, end) = lex_at(&self.chars, p);
        self.pos = end;
        Some((res, Span { start: p, end }))
    }
}

/// Scans the whole of `source`: each lexeme with its span, in order.
pub fn scan(source: &str) -> (r: Vec<(Result<Token, LexicalError>, Span)>)
    ensures
        r.len() == spans_from(source@, 0).len(),
        forall|k: int|
            0 <= k < r.len() ==> {
                &&& (#[trigger] r[k]).1.start == spans_from(source@, 0)[k].0
                &&& r[k].1.end == spans_from(source@, 0)[k].1
                &&& yields(source@, r[k].1.start as int, r[k].0)
            },
{
    let ghost s = source@;
    let mut scanner = Scanner::new(source);
    let mut out: Vec<(Result<Token, LexicalError>, Span)> = Vec::new();
    loop
        invariant
            scanner.text() == s,
            0 <= scanner.cursor() <= s.len(),
            spans_from(s, 0) == spans_of(out@) + spans_from(s, scanner.cursor()),
            forall|k: int| 0 <= k < out.len() ==> yields(s, (#[trigger] out@[k]).1.start as int, out@[k].0),
        ensures
            spans_from(s, 0) == spans_of(out@),
            forall|k: int| 0 <= k < out.len() ==> yields(s, (#[trigger] out@[k]).1.start as int, out@[k].0),
        decreases s.len() - scanner.cursor(),
    {
        let ghost before = scanner.cursor();
        proof {
            lemma_next_start_bounds(s, before);
        }
        match scanner.next_token() {
            Some(item) => {
                proof {
                    let p = next_start(s, before);
                    lemma_lexeme_len_bounds(s, p);
                    assert(spans_of(out@.push(item)) =~= spans_of(out@) + seq![(p, p + lexeme_len(s, p))]);
                    assert(spans_from(s, before) == seq![(p, p + lexeme_len(s, p))] + spans_from(s, p + lexeme_len(s, p)));
                }
                out.push(item);
            },
            None => {
                proof {
                    assert(spans_from(s, before) =~= seq![]);
                    assert(spans_of(out@) + seq![] =~= spans_of(out@));
                }
                break;
            },
        }
    }
    out
}

/// The spans of scanned items, as pairs of integers.
pub open spec fn spans_of(items: Seq<(Result<Token, LexicalError>, Span)>) -> Seq<(int, int)> {
    items.map_values(|item: (Result<Token, LexicalError>, Span)| (item.1.start as int, item.1.end as int))
}

} // verus!
