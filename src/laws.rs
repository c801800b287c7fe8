//! Laws of the scanner, proved over the rules.
use crate::rules::{
    at, in_class, is_digit, is_identifier, is_integer_at, is_space, is_word, is_word_char,
    is_word_start, lemma_lexeme_len_bounds, lemma_next_start_bounds, lemma_run, lexeme_len,
    next_start, operator_at, quoted_at, real_len, run, skip_len, spans_from, yields, CharClass,
};
use crate::text::{all_digits, digits_value};
use crate::token::{keyword_of, LexicalError, Token};
use vstd::prelude::*;

verus! {

/// Every keyword is spelled as a plain word.
pub proof fn lemma_keywords_are_words(w: Seq<char>)
    requires
        keyword_of(w) is Some,
    ensures
        is_word(w),
{
    reveal_strlit("algorithm");
    reveal_strlit("and");
    reveal_strlit("annotation");
    reveal_strlit("block");
    reveal_strlit("break");
    reveal_strlit("class");
    reveal_strlit("connect");
    reveal_strlit("connector");
    reveal_strlit("constant");
    reveal_strlit("constrainedby");
    reveal_strlit("der");
    reveal_strlit("discrete");
    reveal_strlit("each");
    reveal_strlit("else");
    reveal_strlit("elseif");
    reveal_strlit("elsewhen");
    reveal_strlit("encapsulated");
    reveal_strlit("end");
    reveal_strlit("enumeration");
    reveal_strlit("equation");
    reveal_strlit("expandable");
    reveal_strlit("extends");
    reveal_strlit("external");
    reveal_strlit("final");
    reveal_strlit("flow");
    reveal_strlit("for");
    reveal_strlit("function");
    reveal_strlit("if");
    reveal_strlit("import");
    reveal_strlit("impure");
    reveal_strlit("in");
    reveal_strlit("initial");
    reveal_strlit("inner");
    reveal_strlit("input");
    reveal_strlit("loop");
    reveal_strlit("model");
    reveal_strlit("not");
    reveal_strlit("operator");
    reveal_strlit("or");
    reveal_strlit("outer");
    reveal_strlit("output");
    reveal_strlit("package");
    reveal_strlit("parameter");
    reveal_strlit("partial");
    reveal_strlit("protected");
    reveal_strlit("public");
    reveal_strlit("pure");
    reveal_strlit("record");
    reveal_strlit("redeclare");
    reveal_strlit("replaceable");
    reveal_strlit("return");
    reveal_strlit("stream");
    reveal_strlit("then");
    reveal_strlit("type");
    reveal_strlit("when");
    reveal_strlit("while");
    reveal_strlit("within");
}

/// A run that meets only characters of its class reaches the end of the text.
proof fn lemma_run_to_end(s: Seq<char>, i: int, k: CharClass)
    requires
        0 <= i <= s.len(),
        forall|j: int| i <= j < s.len() ==> in_class(k, #[trigger] s[j]),
    ensures
        run(s, i, k) == s.len() - i,
    decreases s.len() - i,
{
    if i < s.len() {
        lemma_run_to_end(s, i + 1, k);
    }
}

/// A text that starts with a letter, `_` or a digit, and whose first lexeme
/// covers all of it, scans as exactly that one lexeme.
proof fn lemma_single_lexeme(s: Seq<char>)
    requires
        s.len() > 0,
        is_word_start(s[0]) || is_digit(s[0]),
        lexeme_len(s, 0) == s.len(),
    ensures
        next_start(s, 0) == 0,
        spans_from(s, 0) == seq![(0int, s.len() as int)],
        s.subrange(0, lexeme_len(s, 0)) == s,
{
    assert(skip_len(s, 0) == 0);
    assert(spans_from(s, s.len() as int) == Seq::<(int, int)>::empty());
    assert(s.subrange(0, s.len() as int) =~= s);
    assert(seq![(0int, s.len() as int)] + Seq::<(int, int)>::empty() =~= seq![(0int, s.len() as int)]);
}

/// The lexemes of a scan, together with the regions that the skip rules drop
/// between them, tile the text from `i` to its end: each span is non-empty and
/// lies in the text, the first one starts where skipping from `i` stops, each
/// next one starts where skipping from the end of the one before stops, and
/// skipping from the end of the last one (or from `i`, when there is none)
/// reaches the end of the text.
pub proof fn lemma_spans_tile(s: Seq<char>, i: int)
    requires
        0 <= i <= s.len(),
    ensures
        ({
            let sp = spans_from(s, i);
            &&& forall|k: int| 0 <= k < sp.len() ==> i <= (#[trigger] sp[k]).0 < sp[k].1 <= s.len()
            &&& sp.len() == 0 ==> next_start(s, i) == s.len()
            &&& sp.len() > 0 ==> next_start(s, i) == sp[0].0
            &&& forall|k: int| 0 <= k < sp.len() - 1 ==> next_start(s, (#[trigger] sp[k]).1) == sp[k + 1].0
            &&& sp.len() > 0 ==> next_start(s, sp.last().1) == s.len()
        }),
    decreases s.len() - i,
{
    let p = next_start(s, i);
    lemma_next_start_bounds(s, i);
    if p < s.len() {
        lemma_lexeme_len_bounds(s, p);
        let e = p + lexeme_len(s, p);
        lemma_spans_tile(s, e);
        let rest = spans_from(s, e);
        let sp = spans_from(s, i);
        assert(sp == seq![(p, e)] + rest);
        assert forall|k: int| 0 <= k < sp.len() implies i <= (#[trigger] sp[k]).0 < sp[k].1 <= s.len() by {
            if k > 0 {
                assert(sp[k] == rest[k - 1]);
            }
        }
        assert forall|k: int| 0 <= k < sp.len() - 1 implies next_start(s, (#[trigger] sp[k]).1) == sp[k + 1].0 by {
            if k > 0 {
                assert(sp[k] == rest[k - 1]);
                assert(sp[k + 1] == rest[k]);
            }
        }
        if rest.len() > 0 {
            assert(sp.last() == rest.last());
        }
    }
}

/// Scanning exactly the spelling of a keyword gives that keyword alone.
pub proof fn lemma_keyword_scans(w: Seq<char>)
    requires
        keyword_of(w) is Some,
    ensures
        spans_from(w, 0) == seq![(0int, w.len() as int)],
        forall|r: Result<Token, LexicalError>| #[trigger] yields(w, 0, r) <==> r == Ok::<Token, LexicalError>(keyword_of(w).unwrap()),
{
    lemma_keywords_are_words(w);
    lemma_run_to_end(w, 0, CharClass::WordChar);
    lemma_single_lexeme(w);
}

/// Scanning a word that is neither a keyword nor `true` or `false` gives that
/// word alone, as an identifier.
pub proof fn lemma_identifier_scans(w: Seq<char>)
    requires
        is_word(w),
        keyword_of(w) is None,
        w != "true"@,
        w != "false"@,
    ensures
        spans_from(w, 0) == seq![(0int, w.len() as int)],
        forall|r: Result<Token, LexicalError>| #[trigger] yields(w, 0, r) <==> is_identifier(r, w),
{
    assert forall|j: int| 0 <= j < w.len() implies in_class(CharClass::WordChar, #[trigger] w[j]) by {
        if j > 0 {
            assert(is_word_char(w[j]));
        }
    }
    lemma_run_to_end(w, 0, CharClass::WordChar);
    lemma_single_lexeme(w);
}

/// Scanning a string of digits without a leading zero gives one integer of
/// that value, or an invalid-integer error where the value exceeds `i64::MAX`.
pub proof fn lemma_integer_scans(d: Seq<char>)
    requires
        d.len() > 0,
        all_digits(d),
        d[0] != '0',
    ensures
        spans_from(d, 0) == seq![(0int, d.len() as int)],
        digits_value(d) <= i64::MAX ==> forall|r: Result<Token, LexicalError>| #[trigger] yields(d, 0, r)
            <==> r == Ok::<Token, LexicalError>(Token::UnsignedInteger(digits_value(d) as i64)),
        digits_value(d) > i64::MAX ==> forall|r: Result<Token, LexicalError>| #[trigger] yields(d, 0, r)
            <==> (r matches Err(LexicalError::InvalidInteger(_))),
{
    assert(in_class(CharClass::Digit, d[0]));
    lemma_run_to_end(d, 0, CharClass::Digit);
    assert(!at(d, d.len() as int, '.') && !at(d, d.len() as int, 'e') && !at(d, d.len() as int, 'E'));
    assert(is_integer_at(d, 0));
    lemma_single_lexeme(d);
}

/// Scanning a whole real literal that is `0`, starts with `0`, or holds a
/// point or an exponent gives one real carrying that text.
pub proof fn lemma_real_scans(t: Seq<char>)
    requires
        t.len() > 0,
        is_digit(t[0]),
        real_len(t, 0) == t.len(),
        t[0] == '0' || exists|j: int| 0 <= j < t.len() && (t[j] == '.' || t[j] == 'e' || t[j] == 'E'),
    ensures
        spans_from(t, 0) == seq![(0int, t.len() as int)],
        forall|r: Result<Token, LexicalError>| #[trigger] yields(t, 0, r) <==> (match r {
            Ok(Token::UnsignedReal(x)) => x@ == t,
            _ => false,
        }),
{
    lemma_run(t, 0, CharClass::Digit);
    if t[0] != '0' {
        let j = choose|j: int| 0 <= j < t.len() && (t[j] == '.' || t[j] == 'e' || t[j] == 'E');
        assert(!in_class(CharClass::Digit, t[j]));
        assert(run(t, 0, CharClass::Digit) <= j);
    }
    assert(!is_integer_at(t, 0));
    lemma_single_lexeme(t);
}

/// A character that starts no skip rule and no lexeme is one invalid token
/// of its own, and scanning goes on right after it.
pub proof fn lemma_unmatched_char(s: Seq<char>, i: int)
    requires
        0 <= i < s.len(),
        !is_space(s[i]),
        s[i] != '/',
        !is_word_start(s[i]),
        !is_digit(s[i]),
        !quoted_at(s, i),
        operator_at(s, i) is None,
    ensures
        next_start(s, i) == i,
        lexeme_len(s, i) == 1,
        forall|r: Result<Token, LexicalError>| #[trigger] yields(s, i, r)
            <==> r == Err::<Token, LexicalError>(LexicalError::InvalidToken),
        spans_from(s, i) == seq![(i, i + 1)] + spans_from(s, i + 1),
{
    assert(skip_len(s, i) == 0);
}

} // verus!
