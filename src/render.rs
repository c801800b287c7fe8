//! A readable rendering of tokens for diagnostics.
use crate::text::{chars_of, string_of};
use crate::token::Token;
use vstd::prelude::*;
use vstd::string::*;

verus! {

/// The name of the variant of `t`.
pub open spec fn variant_name(t: Token) -> Seq<char> {
    match t {
        Token::KeywordAlgorithm => "KeywordAlgorithm"@,
        Token::KeywordAnd => "KeywordAnd"@,
        Token::KeywordAnnotation => "KeywordAnnotation"@,
        Token::KeywordBlock => "KeywordBlock"@,
        Token::KeywordBreak => "KeywordBreak"@,
        Token::KeywordClass => "KeywordClass"@,
        Token::KeywordConnect => "KeywordConnect"@,
        Token::KeywordConnector => "KeywordConnector"@,
        Token::KeywordConstant => "KeywordConstant"@,
        Token::KeywordConstrainedby => "KeywordConstrainedby"@,
        Token::KeywordDer => "KeywordDer"@,
        Token::KeywordDiscrete => "KeywordDiscrete"@,
        Token::KeywordEach => "KeywordEach"@,
        Token::KeywordElse => "KeywordElse"@,
        Token::KeywordElseif => "KeywordElseif"@,
        Token::KeywordElsewhen => "KeywordElsewhen"@,
        Token::KeywordEncapsulated => "KeywordEncapsulated"@,
        Token::KeywordEnd => "KeywordEnd"@,
        Token::KeywordEnumeration => "KeywordEnumeration"@,
        Token::KeywordEquation => "KeywordEquation"@,
        Token::KeywordExpandable => "KeywordExpandable"@,
        Token::KeywordExtends => "KeywordExtends"@,
        Token::KeywordExternal => "KeywordExternal"@,
        Token::KeywordFinal => "KeywordFinal"@,
        Token::KeywordFlow => "KeywordFlow"@,
        Token::KeywordFor => "KeywordFor"@,
        Token::KeywordFunction => "KeywordFunction"@,
        Token::KeywordIf => "KeywordIf"@,
        Token::KeywordImport => "KeywordImport"@,
        Token::KeywordImpure => "KeywordImpure"@,
        Token::KeywordIn => "KeywordIn"@,
        Token::KeywordInitial => "KeywordInitial"@,
        Token::KeywordInner => "KeywordInner"@,
        Token::KeywordInput => "KeywordInput"@,
        Token::KeywordLoop => "KeywordLoop"@,
        Token::KeywordModel => "KeywordModel"@,
        Token::KeywordNot => "KeywordNot"@,
        Token::KeywordOperator => "KeywordOperator"@,
        Token::KeywordOr => "KeywordOr"@,
        Token::KeywordOuter => "KeywordOuter"@,
        Token::KeywordOutput => "KeywordOutput"@,
        Token::KeywordPackage => "KeywordPackage"@,
        Token::KeywordParameter => "KeywordParameter"@,
        Token::KeywordPartial => "KeywordPartial"@,
        Token::KeywordProtected => "KeywordProtected"@,
        Token::KeywordPublic => "KeywordPublic"@,
        Token::KeywordPure => "KeywordPure"@,
        Token::KeywordRecord => "KeywordRecord"@,
        Token::KeywordRedeclare => "KeywordRedeclare"@,
        Token::KeywordReplaceable => "KeywordReplaceable"@,
        Token::KeywordReturn => "KeywordReturn"@,
        Token::KeywordStream => "KeywordStream"@,
        Token::KeywordThen => "KeywordThen"@,
        Token::KeywordType => "KeywordType"@,
        Token::KeywordWhen => "KeywordWhen"@,
        Token::KeywordWhile => "KeywordWhile"@,
        Token::KeywordWithin => "KeywordWithin"@,
        Token::LParen => "LParen"@,
        Token::RParen => "RParen"@,
        Token::Equal => "Equal"@,
        Token::Assign => "Assign"@,
        Token::Semicolon => "Semicolon"@,
        Token::OperatorAdd => "OperatorAdd"@,
        Token::OperatorSub => "OperatorSub"@,
        Token::OperatorMul => "OperatorMul"@,
        Token::OperatorDiv => "OperatorDiv"@,
        Token::OperatorElemAdd => "OperatorElemAdd"@,
        Token::OperatorElemSub => "OperatorElemSub"@,
        Token::OperatorElemMul => "OperatorElemMul"@,
        Token::OperatorElemDiv => "OperatorElemDiv"@,
        Token::Identifier(_) => "Identifier"@,
        Token::UnsignedInteger(_) => "UnsignedInteger"@,
        Token::UnsignedReal(_) => "UnsignedReal"@,
        Token::Boolean(_) => "Boolean"@,
    }
}

/// `x` with a backslash put before each `"` and `\\`.
pub open spec fn escaped(x: Seq<char>) -> Seq<char>
    decreases x.len(),
{
    if x.len() == 0 {
        seq![]
    } else if x.last() == '"' || x.last() == '\\' {
        escaped(x.drop_last()) + seq!['\\', x.last()]
    } else {
        escaped(x.drop_last()) + seq![x.last()]
    }
}

/// The decimal digits of `m`, most significant first.
pub open spec fn decimal(m: nat) -> Seq<char>
    decreases m,
{
    if m < 10 {
        seq!["0123456789"@[m as int]]
    } else {
        decimal(m / 10) + seq!["0123456789"@[(m % 10) as int]]
    }
}

/// `v` in decimal, with a leading `-` when negative.
pub open spec fn signed_decimal(v: int) -> Seq<char> {
    if v < 0 {
        seq!['-'] + decimal((-v) as nat)
    } else {
        decimal(v as nat)
    }
}

/// The rendering of a token: the variant's name, then any payload in
/// parentheses, an identifier's text quoted and escaped.
pub open spec fn rendering(t: Token) -> Seq<char> {
    variant_name(t) + match t {
        Token::Identifier(x) => seq!['(', '"'] + escaped(x@) + seq!['"', ')'],
        Token::UnsignedInteger(v) => seq!['('] + signed_decimal(v as int) + seq![')'],
        Token::UnsignedReal(x) => seq!['('] + x@ + seq![')'],
        Token::Boolean(b) => seq!['('] + (if b {
            "true"@
        } else {
            "false"@
        }) + seq![')'],
        _ => seq![],
    }
}

fn variant_name_exec(t: &Token) -> (r: &'static str)
    ensures
        r@ == variant_name(*t),
{
    match t {
        Token::KeywordAlgorithm => "KeywordAlgorithm",
        Token::KeywordAnd => "KeywordAnd",
        Token::KeywordAnnotation => "KeywordAnnotation",
        Token::KeywordBlock => "KeywordBlock",
        Token::KeywordBreak => "KeywordBreak",
        Token::KeywordClass => "KeywordClass",
        Token::KeywordConnect => "KeywordConnect",
        Token::KeywordConnector => "KeywordConnector",
        Token::KeywordConstant => "KeywordConstant",
        Token::KeywordConstrainedby => "KeywordConstrainedby",
        Token::KeywordDer => "KeywordDer",
        Token::KeywordDiscrete => "KeywordDiscrete",
        Token::KeywordEach => "KeywordEach",
        Token::KeywordElse => "KeywordElse",
        Token::KeywordElseif => "KeywordElseif",
        Token::KeywordElsewhen => "KeywordElsewhen",
        Token::KeywordEncapsulated => "KeywordEncapsulated",
        Token::KeywordEnd => "KeywordEnd",
        Token::KeywordEnumeration => "KeywordEnumeration",
        Token::KeywordEquation => "KeywordEquation",
        Token::KeywordExpandable => "KeywordExpandable",
        Token::KeywordExtends => "KeywordExtends",
        Token::KeywordExternal => "KeywordExternal",
        Token::KeywordFinal => "KeywordFinal",
        Token::KeywordFlow => "KeywordFlow",
        Token::KeywordFor => "KeywordFor",
        Token::KeywordFunction => "KeywordFunction",
        Token::KeywordIf => "KeywordIf",
        Token::KeywordImport => "KeywordImport",
        Token::KeywordImpure => "KeywordImpure",
        Token::KeywordIn => "KeywordIn",
        Token::KeywordInitial => "KeywordInitial",
        Token::KeywordInner => "KeywordInner",
        Token::KeywordInput => "KeywordInput",
        Token::KeywordLoop => "KeywordLoop",
        Token::KeywordModel => "KeywordModel",
        Token::KeywordNot => "KeywordNot",
        Token::KeywordOperator => "KeywordOperator",
        Token::KeywordOr => "KeywordOr",
        Token::KeywordOuter => "KeywordOuter",
        Token::KeywordOutput => "KeywordOutput",
        Token::KeywordPackage => "KeywordPackage",
        Token::KeywordParameter => "KeywordParameter",
        Token::KeywordPartial => "KeywordPartial",
        Token::KeywordProtected => "KeywordProtected",
        Token::KeywordPublic => "KeywordPublic",
        Token::KeywordPure => "KeywordPure",
        Token::KeywordRecord => "KeywordRecord",
        Token::KeywordRedeclare => "KeywordRedeclare",
        Token::KeywordReplaceable => "KeywordReplaceable",
        Token::KeywordReturn => "KeywordReturn",
        Token::KeywordStream => "KeywordStream",
        Token::KeywordThen => "KeywordThen",
        Token::KeywordType => "KeywordType",
        Token::KeywordWhen => "KeywordWhen",
        Token::KeywordWhile => "KeywordWhile",
        Token::KeywordWithin => "KeywordWithin",
        Token::LParen => "LParen",
        Token::RParen => "RParen",
        Token::Equal => "Equal",
        Token::Assign => "Assign",
        Token::Semicolon => "Semicolon",
        Token::OperatorAdd => "OperatorAdd",
        Token::OperatorSub => "OperatorSub",
        Token::OperatorMul => "OperatorMul",
        Token::OperatorDiv => "OperatorDiv",
        Token::OperatorElemAdd => "OperatorElemAdd",
        Token::OperatorElemSub => "OperatorElemSub",
        Token::OperatorElemMul => "OperatorElemMul",
        Token::OperatorElemDiv => "OperatorElemDiv",
        Token::Identifier(_) => "Identifier",
        Token::UnsignedInteger(_) => "UnsignedInteger",
        Token::UnsignedReal(_) => "UnsignedReal",
        Token::Boolean(_) => "Boolean",
    }
}

/// Appends the characters of `lit`.
fn push_str(out: &mut Vec<char>, lit: &str)
    ensures
        final(out)@ == old(out)@ + lit@,
{
    let m = lit.unicode_len();
    let mut j: usize = 0;
    while j < m
        invariant
            j <= m,
            m == lit@.len(),
            out@ == old(out)@ + lit@.subrange(0, j as int),
        decreases m - j,
    {
        out.push(lit.get_char(j));
        j = j + 1;
        proof {
            assert(lit@.subrange(0, j as int) =~= lit@.subrange(0, j - 1) + seq![lit@[j - 1]]);
        }
    }
    proof {
        assert(lit@.subrange(0, m as int) =~= lit@);
    }
}

/// Appends the characters of `x`, escaped.
fn push_escaped(out: &mut Vec<char>, x: &Vec<char>)
    ensures
        final(out)@ == old(out)@ + escaped(x@),
{
    let mut j: usize = 0;
    while j < x.len()
        invariant
            j <= x.len(),
            out@ == old(out)@ + escaped(x@.subrange(0, j as int)),
        decreases x.len() - j,
    {
        let c = x[j];
        if c == '"' || c == '\\' {
            out.push('\\');
        }
        out.push(c);
        j = j + 1;
        proof {
            let p = x@.subrange(0, j as int);
            assert(p.drop_last() =~= x@.subrange(0, j - 1));
            assert(out@ =~= old(out)@ + escaped(p));
        }
    }
    proof {
        assert(x@.subrange(0, x.len() as int) =~= x@);
    }
}

/// Appends the decimal digits of `m`.
fn push_decimal(out: &mut Vec<char>, m: u64)
    ensures
        final(out)@ == old(out)@ + decimal(m as nat),
    decreases m,
{
    proof {
        reveal_strlit("0123456789");
    }
    if m >= 10 {
        push_decimal(out, m / 10);
    }
    out.push("0123456789".get_char((m % 10) as usize));
    proof {
        assert(out@ =~= old(out)@ + decimal(m as nat));
    }
}

impl Token {
    /// The token rendered for diagnostics, such as `KeywordModel`,
    /// `Identifier("model")` or `UnsignedInteger(42)`.
    pub fn to_string(&self) -> (r: String)
        ensures
            r@ == rendering(*self),
    {
        let mut out: Vec<char> = Vec::new();
        push_str(&mut out, variant_name_exec(self));
        match self {
            Token::Identifier(x) => {
                out.push('(');
                out.push('"');
                push_escaped(&mut out, &chars_of(x.as_str()));
                out.push('"');
                out.push(')');
            },
            Token::UnsignedInteger(v) => {
                out.push('(');
                if *v < 0 {
                    out.push('-');
                    let m: u64 = ((-(*v + 1)) as u64) + 1;
                    push_decimal(&mut out, m);
                } else {
                    push_decimal(&mut out, *v as u64);
                }
                out.push(')');
            },
            Token::UnsignedReal(x) => {
                out.push('(');
                push_str(&mut out, x.as_str());
                out.push(')');
            },
            Token::Boolean(b) => {
                out.push('(');
                if *b {
                    push_str(&mut out, "true");
                } else {
                    push_str(&mut out, "false");
                }
                out.push(')');
            },
            _ => {},
        }
        proof {
            assert(out@ =~= rendering(*self));
        }
        string_of(out.as_slice())
    }
}

} // verus!
