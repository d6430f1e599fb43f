//! The until-condition expression language: tokenizer and recursive
//! descent parser, specified exactly by the `*_model` functions.

use vstd::prelude::*;
use vstd::string::{StrSliceExecFns, StringExecFns};
use crate::error::{ParseError, SpecParseError};
use crate::expr::{
    ComparisonOp, Expr, IndexExpr, Literal, LogicalOp, SpecExpr, SpecLiteral, comparison_op_of,
    logical_op_of,
};
use crate::seq_view::view_seq;
use crate::strutil::{chars_of, str_eq, string_from_chars};

verus! {

/// One token of the expression language.
#[derive(Debug, PartialEq)]
pub enum Token {
    Ident(String),
    Integer(i64),
    StrLit(String),
    LeftBracket,
    RightBracket,
    Dot,
    Comma,
    Minus,
    CompOp(ComparisonOp),
    LogicalOp(LogicalOp),
}

/// View of [`Token`].
#[verifier::ext_equal]
pub enum SpecToken {
    Ident(Seq<char>),
    Integer(i64),
    StrLit(Seq<char>),
    LeftBracket,
    RightBracket,
    Dot,
    Comma,
    Minus,
    CompOp(ComparisonOp),
    LogicalOp(LogicalOp),
}

impl View for Token {
    type V = SpecToken;

    open spec fn view(&self) -> SpecToken {
        match self {
            Token::Ident(s) => SpecToken::Ident(s@),
            Token::Integer(v) => SpecToken::Integer(*v),
            Token::StrLit(s) => SpecToken::StrLit(s@),
            Token::LeftBracket => SpecToken::LeftBracket,
            Token::RightBracket => SpecToken::RightBracket,
            Token::Dot => SpecToken::Dot,
            Token::Comma => SpecToken::Comma,
            Token::Minus => SpecToken::Minus,
            Token::CompOp(op) => SpecToken::CompOp(*op),
            Token::LogicalOp(op) => SpecToken::LogicalOp(*op),
        }
    }
}

/// Every expression failure carries the field name `expression`.
pub open spec fn expr_err(msg: Seq<char>) -> SpecParseError {
    SpecParseError::InvalidValue { field: "expression"@, message: msg }
}

fn mk_err(msg: String) -> (r: ParseError)
    ensures
        r@ == expr_err(msg@),
{
    ParseError::InvalidValue { field: String::from_str("expression"), message: msg }
}

// ------------------------------------------------------------------
// Character classes
// ------------------------------------------------------------------

/// Whether `char::is_alphanumeric` accepts the character; the result
/// depends on the character alone.
pub uninterp spec fn is_unicode_alphanumeric(c: char) -> bool;

/// Relies on `char::is_alphanumeric`: the Unicode alphabetic and numeric
/// classes.  On the ASCII range its documentation pins the result
/// exactly: the digits and letters, and nothing else.
pub assume_specification[ char::is_alphanumeric ](c: char) -> (r: bool)
    ensures
        r == is_unicode_alphanumeric(c),
        (c as int) < 128 ==> (r <==> (48 <= c as int <= 57 || 65 <= c as int <= 90 || 97 <= (
        c as int) <= 122)),
;

pub open spec fn is_ws(c: char) -> bool {
    c == ' ' || c == '\t' || c == '\n' || c == '\r'
}

pub open spec fn is_dec_digit(c: char) -> bool {
    48 <= c as int <= 57
}

pub open spec fn is_hex_digit(c: char) -> bool {
    is_dec_digit(c) || 97 <= c as int <= 102 || 65 <= c as int <= 70
}

/// The numeric value of a hexadecimal digit.
pub open spec fn hex_digit_val(c: char) -> int {
    if is_dec_digit(c) {
        c as int - 48
    } else if 97 <= c as int <= 102 {
        c as int - 87
    } else {
        c as int - 55
    }
}

pub open spec fn is_num_char(c: char) -> bool {
    is_dec_digit(c) || c == 'x' || is_hex_digit(c)
}

pub open spec fn is_ident_start(c: char) -> bool {
    97 <= c as int <= 122 || 65 <= c as int <= 90 || c == '_'
}

pub open spec fn is_ident_cont(c: char) -> bool {
    is_unicode_alphanumeric(c) || c == '_' || c == '-'
}

// ------------------------------------------------------------------
// Scanning
// ------------------------------------------------------------------

/// The scans below always move past `i` and never past the end; this
/// fallback keeps the recursion of the tokenizer well-founded without a
/// side lemma.
pub open spec fn step_to(s: Seq<char>, i: int, e: int) -> int {
    if i < e <= s.len() {
        e
    } else {
        i + 1
    }
}

/// The first position at or after `j` whose character ends a number.
pub open spec fn num_end(s: Seq<char>, j: int) -> int
    decreases s.len() - j,
{
    if j < 0 || j >= s.len() || !is_num_char(s[j]) {
        j
    } else {
        num_end(s, j + 1)
    }
}

/// The first position at or after `j` whose character ends an identifier.
pub open spec fn ident_end(s: Seq<char>, j: int) -> int
    decreases s.len() - j,
{
    if j < 0 || j >= s.len() || !is_ident_cont(s[j]) {
        j
    } else {
        ident_end(s, j + 1)
    }
}

/// The first position at or after `j` holding a closing quote, or the
/// length of the input.
pub open spec fn quote_end(s: Seq<char>, j: int) -> int
    decreases s.len() - j,
{
    if j < 0 || j >= s.len() || s[j] == '\'' {
        j
    } else {
        quote_end(s, j + 1)
    }
}

/// The value of the decimal digits `s[j..e]` on top of `acc`, or `None`
/// on a stray character or once the value exceeds `i64::MAX`.
pub open spec fn dec_value(s: Seq<char>, j: int, e: int, acc: int) -> Option<int>
    decreases e - j,
{
    if j >= e {
        Some(acc)
    } else if !is_dec_digit(s[j]) {
        None
    } else {
        let v = acc * 10 + (s[j] as int - 48);
        if v > i64::MAX {
            None
        } else {
            dec_value(s, j + 1, e, v)
        }
    }
}

/// The value of the hexadecimal digits `s[j..e]` on top of `acc`.
pub open spec fn hex_value(s: Seq<char>, j: int, e: int, acc: int) -> Option<int>
    decreases e - j,
{
    if j >= e {
        Some(acc)
    } else if !is_hex_digit(s[j]) {
        None
    } else {
        let v = acc * 16 + hex_digit_val(s[j]);
        if v > i64::MAX {
            None
        } else {
            hex_value(s, j + 1, e, v)
        }
    }
}

// ------------------------------------------------------------------
// The tokenizer model
// ------------------------------------------------------------------

/// The tokens of `s` from position `i` on, appended to `acc`.
pub open spec fn tokenize_from(s: Seq<char>, i: int, acc: Seq<SpecToken>) -> Result<
    Seq<SpecToken>,
    SpecParseError,
>
    decreases s.len() - i,
{
    if i < 0 {
        Err(expr_err(Seq::empty()))
    } else if i >= s.len() {
        Ok(acc)
    } else {
        let c = s[i];
        if is_ws(c) {
            tokenize_from(s, i + 1, acc)
        } else if c == '[' {
            tokenize_from(s, i + 1, acc.push(SpecToken::LeftBracket))
        } else if c == ']' {
            tokenize_from(s, i + 1, acc.push(SpecToken::RightBracket))
        } else if c == '.' {
            tokenize_from(s, i + 1, acc.push(SpecToken::Dot))
        } else if c == ',' {
            tokenize_from(s, i + 1, acc.push(SpecToken::Comma))
        } else if c == '-' {
            tokenize_from(s, i + 1, acc.push(SpecToken::Minus))
        } else if c == '\'' {
            let e = quote_end(s, i + 1);
            let content = s.subrange(i + 1, e);
            let ni = if e < s.len() {
                e + 1
            } else {
                e
            };
            tokenize_from(s, step_to(s, i, ni), acc.push(SpecToken::StrLit(content)))
        } else if is_dec_digit(c) {
            let e = num_end(s, i);
            if e - i >= 2 && s[i] == '0' && s[i + 1] == 'x' {
                if e == i + 2 {
                    Err(expr_err("Invalid hex literal: "@ + s.subrange(i, e)))
                } else {
                    match hex_value(s, i + 2, e, 0) {
                        Some(v) => tokenize_from(
                            s,
                            step_to(s, i, e),
                            acc.push(SpecToken::Integer(v as i64)),
                        ),
                        None => Err(expr_err("Invalid hex literal: "@ + s.subrange(i, e))),
                    }
                }
            } else {
                match dec_value(s, i, e, 0) {
                    Some(v) => tokenize_from(
                        s,
                        step_to(s, i, e),
                        acc.push(SpecToken::Integer(v as i64)),
                    ),
                    None => Err(expr_err("Invalid integer: "@ + s.subrange(i, e))),
                }
            }
        } else if is_ident_start(c) {
            let e = ident_end(s, i);
            let w = s.subrange(i, e);
            let tok = match comparison_op_of(w) {
                Some(op) => SpecToken::CompOp(op),
                None => match logical_op_of(w) {
                    Some(op) => SpecToken::LogicalOp(op),
                    None => SpecToken::Ident(w),
                },
            };
            tokenize_from(s, step_to(s, i, e), acc.push(tok))
        } else {
            Err(expr_err("Unexpected character: "@ + seq![c]))
        }
    }
}

} // verus!
verus! {

// ------------------------------------------------------------------
// Executable character classes
// ------------------------------------------------------------------

pub(crate) fn ec_is_dec_digit(c: char) -> (r: bool)
    ensures
        r == is_dec_digit(c),
{
    let u = c as u32;
    48 <= u && u <= 57
}

pub(crate) fn ec_is_hex_digit(c: char) -> (r: bool)
    ensures
        r == is_hex_digit(c),
{
    let u = c as u32;
    (48 <= u && u <= 57) || (97 <= u && u <= 102) || (65 <= u && u <= 70)
}

pub(crate) fn ec_hex_digit_val(c: char) -> (r: u32)
    requires
        is_hex_digit(c),
    ensures
        r == hex_digit_val(c),
{
    let u = c as u32;
    if 48 <= u && u <= 57 {
        u - 48
    } else if 97 <= u && u <= 102 {
        u - 87
    } else {
        u - 55
    }
}

pub(crate) fn ec_is_num_char(c: char) -> (r: bool)
    ensures
        r == is_num_char(c),
{
    ec_is_dec_digit(c) || c == 'x' || ec_is_hex_digit(c)
}

pub(crate) fn ec_is_ident_start(c: char) -> (r: bool)
    ensures
        r == is_ident_start(c),
{
    let u = c as u32;
    (97 <= u && u <= 122) || (65 <= u && u <= 90) || c == '_'
}

pub(crate) fn ec_is_ident_cont(c: char) -> (r: bool)
    ensures
        r == is_ident_cont(c),
        is_ident_start(c) ==> r,
{
    c.is_alphanumeric() || c == '_' || c == '-'
}

// ------------------------------------------------------------------
// The executable tokenizer
// ------------------------------------------------------------------

#[verifier::loop_isolation(false)]
#[verifier::rlimit(100)]
fn tokenize(chars: &Vec<char>) -> (r: Result<Vec<Token>, ParseError>)
    ensures
        ({
            let m = tokenize_from(chars@, 0, Seq::empty());
            match r {
                Ok(toks) => m == Ok::<Seq<SpecToken>, SpecParseError>(view_seq(toks@)),
                Err(e) => m == Err::<Seq<SpecToken>, SpecParseError>(e@),
            }
        }),
{
    let n = chars.len();
    let mut tokens: Vec<Token> = Vec::new();
    proof {
        assert(view_seq(tokens@) =~= Seq::<SpecToken>::empty());
    }
    let mut i: usize = 0;
    while i < n
        invariant
            i <= n,
            tokenize_from(chars@, 0, Seq::empty()) == tokenize_from(
                chars@,
                i as int,
                view_seq(tokens@),
            ),
        decreases n - i,
    {
        let c = chars[i];
        if c == ' ' || c == '\t' || c == '\n' || c == '\r' {
            i += 1;
        } else if c == '[' {
            let tok = Token::LeftBracket;
            proof {
                crate::seq_view::lemma_view_seq_push_any(tokens@, tok);
            }
            tokens.push(tok);
            i += 1;
        } else if c == ']' {
            let tok = Token::RightBracket;
            proof {
                crate::seq_view::lemma_view_seq_push_any(tokens@, tok);
            }
            tokens.push(tok);
            i += 1;
        } else if c == '.' {
            let tok = Token::Dot;
            proof {
                crate::seq_view::lemma_view_seq_push_any(tokens@, tok);
            }
            tokens.push(tok);
            i += 1;
        } else if c == ',' {
            let tok = Token::Comma;
            proof {
                crate::seq_view::lemma_view_seq_push_any(tokens@, tok);
            }
            tokens.push(tok);
            i += 1;
        } else if c == '-' {
            let tok = Token::Minus;
            proof {
                crate::seq_view::lemma_view_seq_push_any(tokens@, tok);
            }
            tokens.push(tok);
            i += 1;
        } else if c == '\'' {
            let mut j = i + 1;
            let mut content: Vec<char> = Vec::new();
            while j < n && chars[j] != '\''
                invariant
                    i + 1 <= j <= n,
                    quote_end(chars@, i + 1 as int) == quote_end(chars@, j as int),
                    content@ == chars@.subrange(i + 1 as int, j as int),
                decreases n - j,
            {
                content.push(chars[j]);
                proof {
                    assert(content@ =~= chars@.subrange(i + 1 as int, j + 1 as int));
                }
                j += 1;
            }
            let s = string_from_chars(&content);
            let tok = Token::StrLit(s);
            proof {
                crate::seq_view::lemma_view_seq_push_any(tokens@, tok);
            }
            tokens.push(tok);
            i = if j < n {
                j + 1
            } else {
                j
            };
        } else if ec_is_dec_digit(c) {
            let mut j = i;
            let mut numv: Vec<char> = Vec::new();
            while j < n && ec_is_num_char(chars[j])
                invariant
                    i <= j <= n,
                    num_end(chars@, i as int) == num_end(chars@, j as int),
                    numv@ == chars@.subrange(i as int, j as int),
                decreases n - j,
            {
                numv.push(chars[j]);
                proof {
                    assert(numv@ =~= chars@.subrange(i as int, j + 1 as int));
                }
                j += 1;
            }
            proof {
                assert(is_num_char(chars@[i as int]));
                assert(j > i);
            }
            if j - i >= 2 && chars[i] == '0' && chars[i + 1] == 'x' {
                if j == i + 2 {
                    let mut msg = String::from_str("Invalid hex literal: ");
                    let num_str = string_from_chars(&numv);
                    msg.append(num_str.as_str());
                    return Err(mk_err(msg));
                }
                let mut acc: i64 = 0;
                let mut k = i + 2;
                let mut fail: bool = false;
                while k < j && !fail
                    invariant
                        i + 2 <= k <= j <= n,
                        0 <= acc,
                        !fail ==> hex_value(chars@, i + 2, j as int, 0) == hex_value(
                            chars@,
                            k as int,
                            j as int,
                            acc as int,
                        ),
                        fail ==> hex_value(chars@, i + 2, j as int, 0) is None,
                    decreases j - k, (if fail { 0int } else { 1int }),
                {
                    let c2 = chars[k];
                    if ec_is_hex_digit(c2) {
                        let d = ec_hex_digit_val(c2);
                        match acc.checked_mul(16) {
                            Some(a1) => match a1.checked_add(d as i64) {
                                Some(a2) => {
                                    acc = a2;
                                    k += 1;
                                },
                                None => {
                                    fail = true;
                                },
                            },
                            None => {
                                fail = true;
                            },
                        }
                    } else {
                        fail = true;
                    }
                }
                if fail {
                    let mut msg = String::from_str("Invalid hex literal: ");
                    let num_str = string_from_chars(&numv);
                    msg.append(num_str.as_str());
                    return Err(mk_err(msg));
                }
                let tok = Token::Integer(acc);
                proof {
                    crate::seq_view::lemma_view_seq_push_any(tokens@, tok);
                }
                tokens.push(tok);
                i = j;
            } else {
                let mut acc: i64 = 0;
                let mut k = i;
                let mut fail: bool = false;
                while k < j && !fail
                    invariant
                        i <= k <= j <= n,
                        0 <= acc,
                        !fail ==> dec_value(chars@, i as int, j as int, 0) == dec_value(
                            chars@,
                            k as int,
                            j as int,
                            acc as int,
                        ),
                        fail ==> dec_value(chars@, i as int, j as int, 0) is None,
                    decreases j - k, (if fail { 0int } else { 1int }),
                {
                    let c2 = chars[k];
                    if ec_is_dec_digit(c2) {
                        let d = (c2 as u32) - 48;
                        match acc.checked_mul(10) {
                            Some(a1) => match a1.checked_add(d as i64) {
                                Some(a2) => {
                                    acc = a2;
                                    k += 1;
                                },
                                None => {
                                    fail = true;
                                },
                            },
                            None => {
                                fail = true;
                            },
                        }
                    } else {
                        fail = true;
                    }
                }
                if fail {
                    let mut msg = String::from_str("Invalid integer: ");
                    let num_str = string_from_chars(&numv);
                    msg.append(num_str.as_str());
                    return Err(mk_err(msg));
                }
                let tok = Token::Integer(acc);
                proof {
                    crate::seq_view::lemma_view_seq_push_any(tokens@, tok);
                }
                tokens.push(tok);
                i = j;
            }
        } else if ec_is_ident_start(c) {
            let mut j = i;
            let mut wordv: Vec<char> = Vec::new();
            while j < n && ec_is_ident_cont(chars[j])
                invariant
                    i <= j <= n,
                    ident_end(chars@, i as int) == ident_end(chars@, j as int),
                    wordv@ == chars@.subrange(i as int, j as int),
                decreases n - j,
            {
                wordv.push(chars[j]);
                proof {
                    assert(wordv@ =~= chars@.subrange(i as int, j + 1 as int));
                }
                j += 1;
            }
            proof {
                assert(j > i);
            }
            let w = string_from_chars(&wordv);
            let tok = match ComparisonOp::from_str(w.as_str()) {
                Some(op) => Token::CompOp(op),
                None => match LogicalOp::from_str(w.as_str()) {
                    Some(op) => Token::LogicalOp(op),
                    None => Token::Ident(w),
                },
            };
            proof {
                crate::seq_view::lemma_view_seq_push_any(tokens@, tok);
            }
            tokens.push(tok);
            i = j;
        } else {
            let mut msg = String::from_str("Unexpected character: ");
            msg.push(c);
            proof {
                assert(msg@ =~= "Unexpected character: "@ + seq![c]);
            }
            return Err(mk_err(msg));
        }
    }
    Ok(tokens)
}

} // verus!
verus! {

// ------------------------------------------------------------------
// The parser model: recursive descent with three levels
// ------------------------------------------------------------------

/// The name of a token in an error message.
pub open spec fn token_text(t: SpecToken) -> Seq<char> {
    match t {
        SpecToken::Ident(s) => "Ident(\""@ + s + "\")"@,
        SpecToken::Integer(v) => "Integer("@ + crate::strutil::int_str(v as int) + ")"@,
        SpecToken::StrLit(s) => "StrLit(\""@ + s + "\")"@,
        SpecToken::LeftBracket => "LeftBracket"@,
        SpecToken::RightBracket => "RightBracket"@,
        SpecToken::Dot => "Dot"@,
        SpecToken::Comma => "Comma"@,
        SpecToken::Minus => "Minus"@,
        SpecToken::CompOp(op) => "CompOp("@ + comp_op_name(op) + ")"@,
        SpecToken::LogicalOp(op) => "LogicalOp("@ + logic_op_name(op) + ")"@,
    }
}

pub open spec fn comp_op_name(op: ComparisonOp) -> Seq<char> {
    match op {
        ComparisonOp::Equals => "Equals"@,
        ComparisonOp::NotEquals => "NotEquals"@,
        ComparisonOp::LessThan => "LessThan"@,
        ComparisonOp::GreaterThan => "GreaterThan"@,
        ComparisonOp::LessThanOrEqual => "LessThanOrEqual"@,
        ComparisonOp::GreaterThanOrEqual => "GreaterThanOrEqual"@,
    }
}

pub open spec fn logic_op_name(op: LogicalOp) -> Seq<char> {
    match op {
        LogicalOp::And => "And"@,
        LogicalOp::Or => "Or"@,
    }
}

/// The elements of a byte-array literal from `pos` on, ending at the
/// closing bracket.
pub open spec fn bytes_rest(toks: Seq<SpecToken>, pos: int, acc: Seq<u8>) -> Result<
    (Seq<u8>, int),
    SpecParseError,
>
    decreases toks.len() - pos,
{
    if pos < 0 || pos >= toks.len() {
        Err(expr_err("Expected closing bracket"@))
    } else {
        match toks[pos] {
            SpecToken::RightBracket => Ok((acc, pos + 1)),
            SpecToken::Integer(v) => {
                let p1 = pos + 1;
                let p2 = if p1 < toks.len() && toks[p1] is Comma {
                    p1 + 1
                } else {
                    p1
                };
                bytes_rest(toks, p2, acc.push(v as u8))
            },
            _ => Err(expr_err("Expected integer in byte array"@)),
        }
    }
}

/// Zero or more postfix steps (field access, array index) applied to `e`.
pub open spec fn postfix_rest(toks: Seq<SpecToken>, e: SpecExpr, pos: int) -> Result<
    (SpecExpr, int),
    SpecParseError,
>
    decreases toks.len() - pos,
{
    if pos < 0 || pos >= toks.len() {
        Ok((e, pos))
    } else {
        match toks[pos] {
            SpecToken::LeftBracket => {
                let p1 = pos + 1;
                let neg = p1 < toks.len() && toks[p1] is Minus;
                let p2 = if neg {
                    p1 + 1
                } else {
                    p1
                };
                if p2 >= toks.len() {
                    Err(expr_err("Expected index"@))
                } else {
                    match toks[p2] {
                        SpecToken::Integer(v) => {
                            let p3 = p2 + 1;
                            if p3 >= toks.len() || !(toks[p3] is RightBracket) {
                                Err(expr_err("Expected closing bracket"@))
                            } else {
                                let idx = if neg {
                                    IndexExpr::Negative(v as usize)
                                } else {
                                    IndexExpr::Positive(v as usize)
                                };
                                postfix_rest(
                                    toks,
                                    SpecExpr::ArrayIndex { array: Box::new(e), index: idx },
                                    p3 + 1,
                                )
                            }
                        },
                        _ => Err(expr_err("Expected integer index"@)),
                    }
                }
            },
            SpecToken::Dot => {
                let p1 = pos + 1;
                if p1 >= toks.len() {
                    Err(expr_err("Expected field name after '.'"@))
                } else {
                    match toks[p1] {
                        SpecToken::Ident(nm) => postfix_rest(
                            toks,
                            SpecExpr::FieldAccess { base: Box::new(e), field: nm },
                            p1 + 1,
                        ),
                        _ => Err(expr_err("Expected field name"@)),
                    }
                }
            },
            _ => Ok((e, pos)),
        }
    }
}

/// An atom (name, literal, or byte array) with its postfix steps.
pub open spec fn parse_primary_model(toks: Seq<SpecToken>, pos: int) -> Result<
    (SpecExpr, int),
    SpecParseError,
> {
    if pos < 0 || pos >= toks.len() {
        Err(expr_err("Unexpected end of expression"@))
    } else {
        match toks[pos] {
            SpecToken::Ident(nm) => postfix_rest(toks, SpecExpr::Variable(nm), pos + 1),
            SpecToken::Integer(v) => postfix_rest(
                toks,
                SpecExpr::Literal(SpecLiteral::Integer(v)),
                pos + 1,
            ),
            SpecToken::StrLit(s) => postfix_rest(
                toks,
                SpecExpr::Literal(SpecLiteral::String(s)),
                pos + 1,
            ),
            SpecToken::LeftBracket => match bytes_rest(toks, pos + 1, Seq::empty()) {
                Err(e) => Err(e),
                Ok((bs, p)) => postfix_rest(toks, SpecExpr::Literal(SpecLiteral::ByteArray(bs)), p),
            },
            _ => Err(expr_err("Unexpected token: "@ + token_text(toks[pos]))),
        }
    }
}

/// A primary, optionally compared against a second primary.
pub open spec fn parse_comparison_model(toks: Seq<SpecToken>, pos: int) -> Result<
    (SpecExpr, int),
    SpecParseError,
> {
    match parse_primary_model(toks, pos) {
        Err(e) => Err(e),
        Ok((left, p)) => {
            if 0 <= p < toks.len() {
                match toks[p] {
                    SpecToken::CompOp(op) => match parse_primary_model(toks, p + 1) {
                        Err(e) => Err(e),
                        Ok((right, p2)) => Ok(
                            (
                                SpecExpr::Comparison {
                                    left: Box::new(left),
                                    op,
                                    right: Box::new(right),
                                },
                                p2,
                            ),
                        ),
                    },
                    _ => Ok((left, p)),
                }
            } else {
                Ok((left, p))
            }
        },
    }
}

/// Left-associated logical connectives extending `left`.  A comparison
/// always consumes at least one token, so the final arm cannot be
/// reached; it keeps the recursion well-founded.
pub open spec fn logical_rest(toks: Seq<SpecToken>, left: SpecExpr, pos: int) -> Result<
    (SpecExpr, int),
    SpecParseError,
>
    decreases toks.len() - pos,
{
    if pos < 0 || pos >= toks.len() {
        Ok((left, pos))
    } else {
        match toks[pos] {
            SpecToken::LogicalOp(op) => match parse_comparison_model(toks, pos + 1) {
                Err(e) => Err(e),
                Ok((right, p2)) => {
                    if pos < p2 <= toks.len() {
                        logical_rest(
                            toks,
                            SpecExpr::Logical { left: Box::new(left), op, right: Box::new(right) },
                            p2,
                        )
                    } else {
                        Err(expr_err(Seq::empty()))
                    }
                },
            },
            _ => Ok((left, pos)),
        }
    }
}

/// The whole expression grammar: logical over comparison over primary.
pub open spec fn parse_logical_model(toks: Seq<SpecToken>, pos: int) -> Result<
    (SpecExpr, int),
    SpecParseError,
> {
    match parse_comparison_model(toks, pos) {
        Err(e) => Err(e),
        Ok((left, p)) => logical_rest(toks, left, p),
    }
}

/// What parsing an until-condition yields: tokens, then the expression;
/// trailing tokens after the expression are ignored.
pub open spec fn parse_expr_model(s: Seq<char>) -> Result<SpecExpr, SpecParseError> {
    match tokenize_from(s, 0, Seq::empty()) {
        Err(e) => Err(e),
        Ok(toks) => match parse_logical_model(toks, 0) {
            Err(e) => Err(e),
            Ok((e, _)) => Ok(e),
        },
    }
}

} // verus!
verus! {

// ------------------------------------------------------------------
// The executable parser
// ------------------------------------------------------------------

fn token_error_text(t: &Token) -> (r: String)
    ensures
        r@ == token_text(t@),
{
    match t {
        Token::Ident(s) => {
            let mut m = String::from_str("Ident(\"");
            m.append(s.as_str());
            m.append("\")");
            m
        },
        Token::Integer(v) => {
            let mut m = String::from_str("Integer(");
            let d = crate::strutil::i64_to_string(*v);
            m.append(d.as_str());
            m.append(")");
            m
        },
        Token::StrLit(s) => {
            let mut m = String::from_str("StrLit(\"");
            m.append(s.as_str());
            m.append("\")");
            m
        },
        Token::LeftBracket => String::from_str("LeftBracket"),
        Token::RightBracket => String::from_str("RightBracket"),
        Token::Dot => String::from_str("Dot"),
        Token::Comma => String::from_str("Comma"),
        Token::Minus => String::from_str("Minus"),
        Token::CompOp(op) => {
            let mut m = String::from_str("CompOp(");
            let nm = match op {
                ComparisonOp::Equals => "Equals",
                ComparisonOp::NotEquals => "NotEquals",
                ComparisonOp::LessThan => "LessThan",
                ComparisonOp::GreaterThan => "GreaterThan",
                ComparisonOp::LessThanOrEqual => "LessThanOrEqual",
                ComparisonOp::GreaterThanOrEqual => "GreaterThanOrEqual",
            };
            m.append(nm);
            m.append(")");
            m
        },
        Token::LogicalOp(op) => {
            let mut m = String::from_str("LogicalOp(");
            let nm = match op {
                LogicalOp::And => "And",
                LogicalOp::Or => "Or",
            };
            m.append(nm);
            m.append(")");
            m
        },
    }
}

#[verifier::loop_isolation(false)]
#[verifier::rlimit(100)]
fn parse_primary(tokens: &Vec<Token>, pos: usize) -> (r: Result<(Expr, usize), ParseError>)
    ensures
        ({
            let m = parse_primary_model(view_seq(tokens@), pos as int);
            match r {
                Ok(ep) => m matches Ok(pr) && ep.0@ == pr.0 && ep.1 as int == pr.1 && ep.1
                    <= tokens@.len(),
                Err(er) => m matches Err(me) && er@ == me,
            }
        }),
{
    let ghost toks = view_seq(tokens@);
    proof {
        assert(toks.len() == tokens@.len());
    }
    let n = tokens.len();
    if pos >= n {
        return Err(mk_err(String::from_str("Unexpected end of expression")));
    }
    proof {
        crate::seq_view::lemma_view_seq_index(tokens@, pos as int);
    }
    let mut expr: Expr;
    let mut p: usize;
    match &tokens[pos] {
        Token::Ident(nm) => {
            expr = Expr::Variable(nm.clone());
            p = pos + 1;
        },
        Token::Integer(v) => {
            expr = Expr::Literal(Literal::Integer(*v));
            p = pos + 1;
        },
        Token::StrLit(s) => {
            expr = Expr::Literal(Literal::String(s.clone()));
            p = pos + 1;
        },
        Token::LeftBracket => {
            let mut bytes: Vec<u8> = Vec::new();
            let mut q = pos + 1;
            proof {
                assert(bytes@ =~= Seq::<u8>::empty());
            }
            loop
                invariant
                    pos + 1 <= q,
                    q <= n + 2,
                    bytes_rest(toks, pos + 1 as int, Seq::empty()) == bytes_rest(
                        toks,
                        q as int,
                        bytes@,
                    ),
                    q <= n,
                decreases n - q,
            {
                if !(q < n) {
                    break ;
                }
                proof {
                    crate::seq_view::lemma_view_seq_index(tokens@, q as int);
                }
                let is_close = matches!(&tokens[q], Token::RightBracket);
                if is_close {
                    break ;
                }
                match &tokens[q] {
                    Token::Integer(v) => {
                        bytes.push(#[verifier::truncate] (*v as u8));
                        q += 1;
                        if q < n {
                            proof {
                                crate::seq_view::lemma_view_seq_index(tokens@, q as int);
                            }
                            if matches!(&tokens[q], Token::Comma) {
                                q += 1;
                            }
                        }
                    },
                    _ => {
                        return Err(mk_err(String::from_str("Expected integer in byte array")));
                    },
                }
            }
            if q >= n {
                return Err(mk_err(String::from_str("Expected closing bracket")));
            }
            expr = Expr::Literal(Literal::ByteArray(bytes));
            p = q + 1;
        },
        _ => {
            return Err(
                ParseError::InvalidValue {
                    field: String::from_str("expression"),
                    message: {
                        let mut m = String::from_str("Unexpected token: ");
                        let t = token_error_text(&tokens[pos]);
                        m.append(t.as_str());
                        m
                    },
                },
            );
        },
    }
    let ghost e0 = expr@;
    let ghost p0 = p as int;
    let mut scanning: bool = true;
    while scanning
        invariant
            p <= n,
            postfix_rest(toks, expr@, p as int) == postfix_rest(toks, e0, p0),
            !scanning ==> postfix_rest(toks, expr@, p as int) == Ok::<
                (SpecExpr, int),
                SpecParseError,
            >((expr@, p as int)),
        decreases n - p, (if scanning { 1int } else { 0int }),
    {
        if p >= n {
            scanning = false;
        } else {
            proof {
                crate::seq_view::lemma_view_seq_index(tokens@, p as int);
            }
            let step = match &tokens[p] {
                Token::LeftBracket => 0usize,
                Token::Dot => 1usize,
                _ => 2usize,
            };
            if step == 0 {
                let p1 = p + 1;
                let mut neg = false;
                if p1 < n {
                    proof {
                        crate::seq_view::lemma_view_seq_index(tokens@, p1 as int);
                    }
                    neg = matches!(&tokens[p1], Token::Minus);
                }
                let p2 = if neg {
                    p1 + 1
                } else {
                    p1
                };
                if p2 >= n {
                    return Err(mk_err(String::from_str("Expected index")));
                }
                proof {
                    crate::seq_view::lemma_view_seq_index(tokens@, p2 as int);
                }
                match &tokens[p2] {
                    Token::Integer(v) => {
                        let p3 = p2 + 1;
                        let mut closed = false;
                        if p3 < n {
                            proof {
                                crate::seq_view::lemma_view_seq_index(tokens@, p3 as int);
                            }
                            closed = matches!(&tokens[p3], Token::RightBracket);
                        }
                        if !closed {
                            return Err(mk_err(String::from_str("Expected closing bracket")));
                        }
                        let idx = if neg {
                            IndexExpr::Negative(#[verifier::truncate] (*v as usize))
                        } else {
                            IndexExpr::Positive(#[verifier::truncate] (*v as usize))
                        };
                        expr = Expr::ArrayIndex { array: Box::new(expr), index: idx };
                        p = p3 + 1;
                    },
                    _ => {
                        return Err(mk_err(String::from_str("Expected integer index")));
                    },
                }
            } else if step == 1 {
                let p1 = p + 1;
                if p1 >= n {
                    return Err(mk_err(String::from_str("Expected field name after '.'")));
                }
                proof {
                    crate::seq_view::lemma_view_seq_index(tokens@, p1 as int);
                }
                match &tokens[p1] {
                    Token::Ident(nm) => {
                        expr = Expr::FieldAccess { base: Box::new(expr), field: nm.clone() };
                        p = p1 + 1;
                    },
                    _ => {
                        return Err(mk_err(String::from_str("Expected field name")));
                    },
                }
            } else {
                scanning = false;
            }
        }
    }
    Ok((expr, p))
}

fn parse_comparison(tokens: &Vec<Token>, pos: usize) -> (r: Result<(Expr, usize), ParseError>)
    ensures
        ({
            let m = parse_comparison_model(view_seq(tokens@), pos as int);
            match r {
                Ok(ep) => m matches Ok(pr) && ep.0@ == pr.0 && ep.1 as int == pr.1 && ep.1
                    <= tokens@.len(),
                Err(er) => m matches Err(me) && er@ == me,
            }
        }),
{
    let ghost toks = view_seq(tokens@);
    proof {
        assert(toks.len() == tokens@.len());
    }
    let (left, p) = match parse_primary(tokens, pos) {
        Ok(lp) => lp,
        Err(e) => {
            return Err(e);
        },
    };
    let n = tokens.len();
    if p < n {
        proof {
            crate::seq_view::lemma_view_seq_index(tokens@, p as int);
        }
        match &tokens[p] {
            Token::CompOp(op) => {
                let op2 = *op;
                let (right, p2) = match parse_primary(tokens, p + 1) {
                    Ok(rp) => rp,
                    Err(e) => {
                        return Err(e);
                    },
                };
                return Ok(
                    (
                        Expr::Comparison {
                            left: Box::new(left),
                            op: op2,
                            right: Box::new(right),
                        },
                        p2,
                    ),
                );
            },
            _ => {
                return Ok((left, p));
            },
        }
    }
    Ok((left, p))
}

#[verifier::loop_isolation(false)]
fn parse_logical(tokens: &Vec<Token>, pos: usize) -> (r: Result<(Expr, usize), ParseError>)
    ensures
        ({
            let m = parse_logical_model(view_seq(tokens@), pos as int);
            match r {
                Ok(ep) => m matches Ok(pr) && ep.0@ == pr.0 && ep.1 as int == pr.1,
                Err(er) => m matches Err(me) && er@ == me,
            }
        }),
{
    let ghost toks = view_seq(tokens@);
    proof {
        assert(toks.len() == tokens@.len());
    }
    let (mut left, mut p) = match parse_comparison(tokens, pos) {
        Ok(lp) => lp,
        Err(e) => {
            return Err(e);
        },
    };
    let n = tokens.len();
    let ghost l0 = left@;
    let ghost p0 = p as int;
    let mut scanning: bool = true;
    while scanning
        invariant
            p <= n,
            logical_rest(toks, left@, p as int) == logical_rest(toks, l0, p0),
            !scanning ==> logical_rest(toks, left@, p as int) == Ok::<
                (SpecExpr, int),
                SpecParseError,
            >((left@, p as int)),
        decreases n - p, (if scanning { 1int } else { 0int }),
    {
        if p >= n {
            scanning = false;
        } else {
            proof {
                crate::seq_view::lemma_view_seq_index(tokens@, p as int);
            }
            match &tokens[p] {
                Token::LogicalOp(op) => {
                    let op2 = *op;
                    let (right, p2) = match parse_comparison(tokens, p + 1) {
                        Ok(rp) => rp,
                        Err(e) => {
                            return Err(e);
                        },
                    };
                    if p2 <= p {
                        // a comparison always consumes at least one token;
                        // this arm mirrors the model's well-foundedness guard
                        return Err(mk_err(String::new()));
                    }
                    left = Expr::Logical { left: Box::new(left), op: op2, right: Box::new(right) };
                    p = p2;
                },
                _ => {
                    scanning = false;
                },
            }
        }
    }
    Ok((left, p))
}

/// Parses an until-condition expression, such as
/// `chunks[-1].chunk_type equals [73, 69, 78, 68]`.  Trailing tokens
/// beyond the first complete expression are ignored, as are missing
/// closing quotes of string literals.
pub fn parse_expr(input: &str) -> (r: Result<Expr, ParseError>)
    ensures
        ({
            let m = parse_expr_model(input@);
            match r {
                Ok(e) => m matches Ok(me) && e@ == me,
                Err(er) => m matches Err(me) && er@ == me,
            }
        }),
{
    let chars = chars_of(input);
    let tokens = match tokenize(&chars) {
        Ok(t) => t,
        Err(e) => {
            return Err(e);
        },
    };
    match parse_logical(&tokens, 0) {
        Ok((e, _p)) => Ok(e),
        Err(e) => Err(e),
    }
}

} // verus!
