//! Tokens, lexical errors and spans.
use std::num::ParseIntError;
use vstd::prelude::*;
use vstd::string::*;

verus! {

/// An error met while scanning.
#[derive(Default, Debug, Clone, PartialEq)]
pub enum LexicalError {
    /// An integer literal whose value does not fit in an `i64`.
    InvalidInteger(ParseIntError),
    /// No rule matches at the current position.
    #[default]
    InvalidToken,
}

impl From<ParseIntError> for LexicalError {
    fn from(err: ParseIntError) -> Self {
        LexicalError::InvalidInteger(err)
    }
}

impl vstd::std_specs::convert::FromSpecImpl<ParseIntError> for LexicalError {
    open spec fn obeys_from_spec() -> bool {
        true
    }

    open spec fn from_spec(v: ParseIntError) -> Self {
        LexicalError::InvalidInteger(v)
    }
}

/// One lexical unit of the language.
#[derive(Clone, Debug, PartialEq)]
pub enum Token {
    KeywordAlgorithm,
    KeywordAnd,
    KeywordAnnotation,
    KeywordBlock,
    KeywordBreak,
    KeywordClass,
    KeywordConnect,
    KeywordConnector,
    KeywordConstant,
    KeywordConstrainedby,
    KeywordDer,
    KeywordDiscrete,
    KeywordEach,
    KeywordElse,
    KeywordElseif,
    KeywordElsewhen,
    KeywordEncapsulated,
    KeywordEnd,
    KeywordEnumeration,
    KeywordEquation,
    KeywordExpandable,
    KeywordExtends,
    KeywordExternal,
    KeywordFinal,
    KeywordFlow,
    KeywordFor,
    KeywordFunction,
    KeywordIf,
    KeywordImport,
    KeywordImpure,
    KeywordIn,
    KeywordInitial,
    KeywordInner,
    KeywordInput,
    KeywordLoop,
    KeywordModel,
    KeywordNot,
    KeywordOperator,
    KeywordOr,
    KeywordOuter,
    KeywordOutput,
    KeywordPackage,
    KeywordParameter,
    KeywordPartial,
    KeywordProtected,
    KeywordPublic,
    KeywordPure,
    KeywordRecord,
    KeywordRedeclare,
    KeywordReplaceable,
    KeywordReturn,
    KeywordStream,
    KeywordThen,
    KeywordType,
    KeywordWhen,
    KeywordWhile,
    KeywordWithin,
    /// A plain word, or one symbol between single quotes, as written.
    Identifier(String),
    /// An integer literal without leading zero, fraction or exponent.
    UnsignedInteger(i64),
    /// A real literal, kept as the text written in the source.
    UnsignedReal(String),
    /// The words `true` and `false`.
    Boolean(bool),
    LParen,
    RParen,
    Equal,
    Assign,
    Semicolon,
    OperatorAdd,
    OperatorSub,
    OperatorMul,
    OperatorDiv,
    OperatorElemAdd,
    OperatorElemSub,
    OperatorElemMul,
    OperatorElemDiv,
}

/// The characters `[start, end)` of the source that a token covers.
#[derive(Clone, Copy, Debug, PartialEq, Eq, Structural)]
pub struct Span {
    pub start: usize,
    pub end: usize,
}

/// The keyword spelled by `w`, if `w` is a reserved word.
pub open spec fn keyword_of(w: Seq<char>) -> Option<Token> {
    if w == "algorithm"@ {
        Some(Token::KeywordAlgorithm)
    } else if w == "and"@ {
        Some(Token::KeywordAnd)
    } else if w == "annotation"@ {
        Some(Token::KeywordAnnotation)
    } else if w == "block"@ {
        Some(Token::KeywordBlock)
    } else if w == "break"@ {
        Some(Token::KeywordBreak)
    } else if w == "class"@ {
        Some(Token::KeywordClass)
    } else if w == "connect"@ {
        Some(Token::KeywordConnect)
    } else if w == "connector"@ {
        Some(Token::KeywordConnector)
    } else if w == "constant"@ {
        Some(Token::KeywordConstant)
    } else if w == "constrainedby"@ {
        Some(Token::KeywordConstrainedby)
    } else if w == "der"@ {
        Some(Token::KeywordDer)
    } else if w == "discrete"@ {
        Some(Token::KeywordDiscrete)
    } else if w == "each"@ {
        Some(Token::KeywordEach)
    } else if w == "else"@ {
        Some(Token::KeywordElse)
    } else if w == "elseif"@ {
        Some(Token::KeywordElseif)
    } else if w == "elsewhen"@ {
        Some(Token::KeywordElsewhen)
    } else if w == "encapsulated"@ {
        Some(Token::KeywordEncapsulated)
    } else if w == "end"@ {
        Some(Token::KeywordEnd)
    } else if w == "enumeration"@ {
        Some(Token::KeywordEnumeration)
    } else if w == "equation"@ {
        Some(Token::KeywordEquation)
    } else if w == "expandable"@ {
        Some(Token::KeywordExpandable)
    } else if w == "extends"@ {
        Some(Token::KeywordExtends)
    } else if w == "external"@ {
        Some(Token::KeywordExternal)
    } else if w == "final"@ {
        Some(Token::KeywordFinal)
    } else if w == "flow"@ {
        Some(Token::KeywordFlow)
    } else if w == "for"@ {
        Some(Token::KeywordFor)
    } else if w == "function"@ {
        Some(Token::KeywordFunction)
    } else if w == "if"@ {
        Some(Token::KeywordIf)
    } else if w == "import"@ {
        Some(Token::KeywordImport)
    } else if w == "impure"@ {
        Some(Token::KeywordImpure)
    } else if w == "in"@ {
        Some(Token::KeywordIn)
    } else if w == "initial"@ {
        Some(Token::KeywordInitial)
    } else if w == "inner"@ {
        Some(Token::KeywordInner)
    } else if w == "input"@ {
        Some(Token::KeywordInput)
    } else if w == "loop"@ {
        Some(Token::KeywordLoop)
    } else if w == "model"@ {
        Some(Token::KeywordModel)
    } else if w == "not"@ {
        Some(Token::KeywordNot)
    } else if w == "operator"@ {
        Some(Token::KeywordOperator)
    } else if w == "or"@ {
        Some(Token::KeywordOr)
    } else if w == "outer"@ {
        Some(Token::KeywordOuter)
    } else if w == "output"@ {
        Some(Token::KeywordOutput)
    } else if w == "package"@ {
        Some(Token::KeywordPackage)
    } else if w == "parameter"@ {
        Some(Token::KeywordParameter)
    } else if w == "partial"@ {
        Some(Token::KeywordPartial)
    } else if w == "protected"@ {
        Some(Token::KeywordProtected)
    } else if w == "public"@ {
        Some(Token::KeywordPublic)
    } else if w == "pure"@ {
        Some(Token::KeywordPure)
    } else if w == "record"@ {
        Some(Token::KeywordRecord)
    } else if w == "redeclare"@ {
        Some(Token::KeywordRedeclare)
    } else if w == "replaceable"@ {
        Some(Token::KeywordReplaceable)
    } else if w == "return"@ {
        Some(Token::KeywordReturn)
    } else if w == "stream"@ {
        Some(Token::KeywordStream)
    } else if w == "then"@ {
        Some(Token::KeywordThen)
    } else if w == "type"@ {
        Some(Token::KeywordType)
    } else if w == "when"@ {
        Some(Token::KeywordWhen)
    } else if w == "while"@ {
        Some(Token::KeywordWhile)
    } else if w == "within"@ {
        Some(Token::KeywordWithin)
    } else {
        None
    }
}

/// Whether `s[a..b]` spells `lit`.
pub(crate) fn same_text(s: &Vec<char>, a: usize, b: usize, lit: &str) -> (r: bool)
    requires
        a <= b <= s.len(),
    ensures
        r == (s@.subrange(a as int, b as int) == lit@),
{
    let m = lit.unicode_len();
    if m != b - a {
        proof {
            assert(s@.subrange(a as int, b as int).len() != lit@.len());
        }
        return false;
    }
    let mut j: usize = 0;
    while j < m
        invariant
            j <= m,
            m == b - a,
            m == lit@.len(),
            b <= s.len(),
            forall|q: int| 0 <= q < j ==> s@[a + q] == lit@[q],
        decreases m - j,
    {
        if lit.get_char(j) != s[a + j] {
            proof {
                assert(s@.subrange(a as int, b as int)[j as int] != lit@[j as int]);
            }
            return false;
        }
        j = j + 1;
    }
    proof {
        assert(s@.subrange(a as int, b as int) =~= lit@);
    }
    true
}

/// The keyword spelled by `s[a..b]`, if any.
pub(crate) fn keyword_at(s: &Vec<char>, a: usize, b: usize) -> (r: Option<Token>)
    requires
        a <= b <= s.len(),
    ensures
        r == keyword_of(s@.subrange(a as int, b as int)),
{
    if same_text(s, a, b, "algorithm") {
        return Some(Token::KeywordAlgorithm);
    }
    if same_text(s, a, b, "and") {
        return Some(Token::KeywordAnd);
    }
    if same_text(s, a, b, "annotation") {
        return Some(Token::KeywordAnnotation);
    }
    if same_text(s, a, b, "block") {
        return Some(Token::KeywordBlock);
    }
    if same_text(s, a, b, "break") {
        return Some(Token::KeywordBreak);
    }
    if same_text(s, a, b, "class") {
        return Some(Token::KeywordClass);
    }
    if same_text(s, a, b, "connect") {
        return Some(Token::KeywordConnect);
    }
    if same_text(s, a, b, "connector") {
        return Some(Token::KeywordConnector);
    }
    if same_text(s, a, b, "constant") {
        return Some(Token::KeywordConstant);
    }
    if same_text(s, a, b, "constrainedby") {
        return Some(Token::KeywordConstrainedby);
    }
    if same_text(s, a, b, "der") {
        return Some(Token::KeywordDer);
    }
    if same_text(s, a, b, "discrete") {
        return Some(Token::KeywordDiscrete);
    }
    if same_text(s, a, b, "each") {
        return Some(Token::KeywordEach);
    }
    if same_text(s, a, b, "else") {
        return Some(Token::KeywordElse);
    }
    if same_text(s, a, b, "elseif") {
        return Some(Token::KeywordElseif);
    }
    if same_text(s, a, b, "elsewhen") {
        return Some(Token::KeywordElsewhen);
    }
    if same_text(s, a, b, "encapsulated") {
        return Some(Token::KeywordEncapsulated);
    }
    if same_text(s, a, b, "end") {
        return Some(Token::KeywordEnd);
    }
    if same_text(s, a, b, "enumeration") {
        return Some(Token::KeywordEnumeration);
    }
    if same_text(s, a, b, "equation") {
        return Some(Token::KeywordEquation);
    }
    if same_text(s, a, b, "expandable") {
        return Some(Token::KeywordExpandable);
    }
    if same_text(s, a, b, "extends") {
        return Some(Token::KeywordExtends);
    }
    if same_text(s, a, b, "external") {
        return Some(Token::KeywordExternal);
    }
    if same_text(s, a, b, "final") {
        return Some(Token::KeywordFinal);
    }
    if same_text(s, a, b, "flow") {
        return Some(Token::KeywordFlow);
    }
    if same_text(s, a, b, "for") {
        return Some(Token::KeywordFor);
    }
    if same_text(s, a, b, "function") {
        return Some(Token::KeywordFunction);
    }
    if same_text(s, a, b, "if") {
        return Some(Token::KeywordIf);
    }
    if same_text(s, a, b, "import") {
        return Some(Token::KeywordImport);
    }
    if same_text(s, a, b, "impure") {
        return Some(Token::KeywordImpure);
    }
    if same_text(s, a, b, "in") {
        return Some(Token::KeywordIn);
    }
    if same_text(s, a, b, "initial") {
        return Some(Token::KeywordInitial);
    }
    if same_text(s, a, b, "inner") {
        return Some(Token::KeywordInner);
    }
    if same_text(s, a, b, "input") {
        return Some(Token::KeywordInput);
    }
    if same_text(s, a, b, "loop") {
        return Some(Token::KeywordLoop);
    }
    if same_text(s, a, b, "model") {
        return Some(Token::KeywordModel);
    }
    if same_text(s, a, b, "not") {
        return Some(Token::KeywordNot);
    }
    if same_text(s, a, b, "operator") {
        return Some(Token::KeywordOperator);
    }
    if same_text(s, a, b, "or") {
        return Some(Token::KeywordOr);
    }
    if same_text(s, a, b, "outer") {
        return Some(Token::KeywordOuter);
    }
    if same_text(s, a, b, "output") {
        return Some(Token::KeywordOutput);
    }
    if same_text(s, a, b, "package") {
        return Some(Token::KeywordPackage);
    }
    if same_text(s, a, b, "parameter") {
        return Some(Token::KeywordParameter);
    }
    if same_text(s, a, b, "partial") {
        return Some(Token::KeywordPartial);
    }
    if same_text(s, a, b, "protected") {
        return Some(Token::KeywordProtected);
    }
    if same_text(s, a, b, "public") {
        return Some(Token::KeywordPublic);
    }
    if same_text(s, a, b, "pure") {
        return Some(Token::KeywordPure);
    }
    if same_text(s, a, b, "record") {
        return Some(Token::KeywordRecord);
    }
    if same_text(s, a, b, "redeclare") {
        return Some(Token::KeywordRedeclare);
    }
    if same_text(s, a, b, "replaceable") {
        return Some(Token::KeywordReplaceable);
    }
    if same_text(s, a, b, "return") {
        return Some(Token::KeywordReturn);
    }
    if same_text(s, a, b, "stream") {
        return Some(Token::KeywordStream);
    }
    if same_text(s, a, b, "then") {
        return Some(Token::KeywordThen);
    }
    if same_text(s, a, b, "type") {
        return Some(Token::KeywordType);
    }
    if same_text(s, a, b, "when") {
        return Some(Token::KeywordWhen);
    }
    if same_text(s, a, b, "while") {
        return Some(Token::KeywordWhile);
    }
    if same_text(s, a, b, "within") {
        return Some(Token::KeywordWithin);
    }
    None
}

} // verus!
