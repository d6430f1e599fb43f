//! C++ emission of until-condition expressions.

use vstd::prelude::*;
use vstd::string::{StrSliceExecFns, StringExecFns};
use vstd::slice::slice_index_get;
use crate::expr::{ComparisonOp, Expr, IndexExpr, Literal, LogicalOp};
use crate::strutil::{chars_of, dec_str, int_str, str_eq, string_from_chars, u64_to_string};

verus! {

/// The index of the last `.` strictly before position `i`, or `-1`.
pub open spec fn last_dot(s: Seq<char>, i: int) -> int
    decreases i,
{
    if i <= 0 {
        -1
    } else if s[i - 1] == '.' {
        i - 1
    } else {
        last_dot(s, i - 1)
    }
}

/// The text after the last `.`, or the whole text without one.
pub open spec fn after_last_dot(s: Seq<char>) -> Seq<char> {
    s.subrange(last_dot(s, s.len() as int) + 1, s.len() as int)
}

/// The decimal renderings of the bytes from index `i` on, comma-joined
/// and appended to the text built so far.
pub open spec fn bytes_join(bs: Seq<u8>, i: int, acc: Seq<char>) -> Seq<char>
    decreases bs.len() - i,
{
    if i < 0 || i >= bs.len() {
        acc
    } else if i > 0 {
        bytes_join(bs, i + 1, acc + ", "@ + dec_str(bs[i] as nat))
    } else {
        bytes_join(bs, i + 1, acc + dec_str(bs[i] as nat))
    }
}

/// The C++ text of a literal: integers in decimal, byte arrays and
/// strings as `std::array` aggregates of their bytes.
pub open spec fn cpp_literal_text(l: Literal) -> Seq<char> {
    match l {
        Literal::Integer(v) => int_str(v as int),
        Literal::ByteArray(bs) => bytes_join(
            bs@,
            0,
            "std::array<uint8_t, "@ + dec_str(bs@.len()) + ">{{"@,
        ) + "}}"@,
        Literal::String(s) => {
            let bs = vstd::utf8::encode_utf8(s@);
            bytes_join(bs, 0, "std::array<uint8_t, "@ + dec_str(bs.len()) + ">{{"@) + "}}"@
        },
    }
}

/// The C++ operator for a comparison.
pub open spec fn cpp_comp_op(op: ComparisonOp) -> Seq<char> {
    match op {
        ComparisonOp::Equals => "=="@,
        ComparisonOp::NotEquals => "!="@,
        ComparisonOp::LessThan => "<"@,
        ComparisonOp::GreaterThan => ">"@,
        ComparisonOp::LessThanOrEqual => "<="@,
        ComparisonOp::GreaterThanOrEqual => ">="@,
    }
}

/// The C++ operator for a logical connective.
pub open spec fn cpp_logic_op(op: LogicalOp) -> Seq<char> {
    match op {
        LogicalOp::And => "&&"@,
        LogicalOp::Or => "||"@,
    }
}

/// The C++ text of an until-condition against the in-scope array name:
/// a bare name equal to the trailing component of the array name is the
/// array itself; in a top-level scope (an array name without a dot) a
/// bare name becomes a field of it.
pub open spec fn cpp_expr_text(e: Expr, array_name: Seq<char>) -> Seq<char>
    decreases e,
{
    match e {
        Expr::Variable(name) => {
            if name@ == after_last_dot(array_name) {
                array_name
            } else if array_name.len() > 0 && last_dot(array_name, array_name.len() as int) < 0 {
                array_name + "."@ + name@
            } else {
                name@
            }
        },
        Expr::FieldAccess { base, field } => cpp_expr_text(*base, array_name) + "."@ + field@,
        Expr::ArrayIndex { array, index } => {
            let ac = cpp_expr_text(*array, array_name);
            match index {
                IndexExpr::Positive(i) => ac + "["@ + dec_str(i as nat) + "]"@,
                IndexExpr::Negative(i) => ac + "["@ + ac + ".size() - "@ + dec_str(i as nat)
                    + "]"@,
            }
        },
        Expr::Comparison { left, op, right } => "("@ + cpp_expr_text(*left, array_name) + " "@
            + cpp_comp_op(op) + " "@ + cpp_expr_text(*right, array_name) + ")"@,
        Expr::Logical { left, op, right } => "("@ + cpp_expr_text(*left, array_name) + " "@
            + cpp_logic_op(op) + " "@ + cpp_expr_text(*right, array_name) + ")"@,
        Expr::Literal(lit) => cpp_literal_text(lit),
    }
}

fn generate_literal(lit: &Literal) -> (r: String)
    ensures
        r@ == cpp_literal_text(*lit),
{
    match lit {
        Literal::Integer(v) => crate::strutil::i64_to_string(*v),
        Literal::ByteArray(bs) => {
            let mut s = String::from_str("std::array<uint8_t, ");
            let n = crate::strutil::usize_to_string(bs.len());
            s.append(n.as_str());
            s.append(">{{");
            let mut i: usize = 0;
            while i < bs.len()
                invariant
                    i <= bs@.len(),
                    bytes_join(bs@, i as int, s@) == bytes_join(
                        bs@,
                        0,
                        "std::array<uint8_t, "@ + dec_str(bs@.len()) + ">{{"@,
                    ),
                decreases bs@.len() - i,
            {
                if i > 0 {
                    s.append(", ");
                }
                let d = crate::strutil::u64_to_string(bs[i] as u64);
                s.append(d.as_str());
                i += 1;
            }
            s.append("}}");
            s
        },
        Literal::String(st) => {
            let bs: &[u8] = st.as_str().as_bytes();
            let ghost bsv = vstd::utf8::encode_utf8(st@);
            proof {
                assert(bs@ == bsv);
            }
            let mut s = String::from_str("std::array<uint8_t, ");
            let n = crate::strutil::usize_to_string(bs.len());
            s.append(n.as_str());
            s.append(">{{");
            let mut i: usize = 0;
            while i < bs.len()
                invariant
                    i <= bsv.len(),
                    bs@ == bsv,
                    bytes_join(bsv, i as int, s@) == bytes_join(
                        bsv,
                        0,
                        "std::array<uint8_t, "@ + dec_str(bsv.len()) + ">{{"@,
                    ),
                decreases bsv.len() - i,
            {
                if i > 0 {
                    s.append(", ");
                }
                let b: u8 = *slice_index_get(bs, i);
                let d = crate::strutil::u64_to_string(b as u64);
                s.append(d.as_str());
                i += 1;
            }
            s.append("}}");
            s
        },
    }
}

fn trailing_component(array_name: &str) -> (r: String)
    ensures
        r@ == after_last_dot(array_name@),
{
    let cs = chars_of(array_name);
    let n = cs.len();
    let mut i: usize = n;
    while i > 0 && cs[i - 1] != '.'
        invariant
            i <= n,
            n == array_name@.len(),
            cs@ == array_name@,
            last_dot(array_name@, n as int) == last_dot(array_name@, i as int),
            forall|j: int| i <= j < n ==> array_name@[j] != '.',
        decreases i,
    {
        i -= 1;
    }
    let mut suffix: Vec<char> = Vec::new();
    let mut j: usize = i;
    while j < n
        invariant
            i <= j <= n,
            cs@ == array_name@,
            n == array_name@.len(),
            suffix@ == array_name@.subrange(i as int, j as int),
        decreases n - j,
    {
        suffix.push(cs[j]);
        proof {
            assert(suffix@ =~= array_name@.subrange(i as int, j + 1 as int));
        }
        j += 1;
    }
    proof {
        assert(suffix@ =~= after_last_dot(array_name@));
    }
    string_from_chars(&suffix)
}

fn has_any_dot(array_name: &str) -> (r: bool)
    ensures
        r == (last_dot(array_name@, array_name@.len() as int) >= 0),
{
    let cs = chars_of(array_name);
    let n = cs.len();
    let mut i: usize = n;
    while i > 0 && cs[i - 1] != '.'
        invariant
            i <= n,
            n == array_name@.len(),
            cs@ == array_name@,
            last_dot(array_name@, n as int) == last_dot(array_name@, i as int),
        decreases i,
    {
        i -= 1;
    }
    i > 0
}

/// The C++ text of an until-condition, rendered against the name of the
/// array in scope.
pub fn generate_expr(expr: &Expr, array_name: &str) -> (r: String)
    ensures
        r@ == cpp_expr_text(*expr, array_name@),
    decreases *expr,
{
    match expr {
        Expr::Variable(name) => {
            let tc = trailing_component(array_name);
            if str_eq(name.as_str(), tc.as_str()) {
                return String::from_str(array_name);
            }
            if array_name.unicode_len() > 0 && !has_any_dot(array_name) {
                let mut s = String::from_str(array_name);
                s.append(".");
                s.append(name.as_str());
                return s;
            }
            name.clone()
        },
        Expr::FieldAccess { base, field } => {
            let mut s = generate_expr(&**base, array_name);
            s.append(".");
            s.append(field.as_str());
            s
        },
        Expr::ArrayIndex { array, index } => {
            let ac = generate_expr(&**array, array_name);
            match index {
                IndexExpr::Positive(i) => {
                    let mut s = ac;
                    s.append("[");
                    let d = crate::strutil::usize_to_string(*i);
                    s.append(d.as_str());
                    s.append("]");
                    s
                },
                IndexExpr::Negative(i) => {
                    let ac2 = ac.clone();
                    let mut s = ac;
                    s.append("[");
                    s.append(ac2.as_str());
                    s.append(".size() - ");
                    let d = crate::strutil::usize_to_string(*i);
                    s.append(d.as_str());
                    s.append("]");
                    s
                },
            }
        },
        Expr::Comparison { left, op, right } => {
            let mut s = String::from_str("(");
            let lc = generate_expr(&**left, array_name);
            s.append(lc.as_str());
            s.append(" ");
            let oc = match op {
                ComparisonOp::Equals => "==",
                ComparisonOp::NotEquals => "!=",
                ComparisonOp::LessThan => "<",
                ComparisonOp::GreaterThan => ">",
                ComparisonOp::LessThanOrEqual => "<=",
                ComparisonOp::GreaterThanOrEqual => ">=",
            };
            s.append(oc);
            s.append(" ");
            let rc = generate_expr(&**right, array_name);
            s.append(rc.as_str());
            s.append(")");
            s
        },
        Expr::Logical { left, op, right } => {
            let mut s = String::from_str("(");
            let lc = generate_expr(&**left, array_name);
            s.append(lc.as_str());
            s.append(" ");
            let oc = match op {
                LogicalOp::And => "&&",
                LogicalOp::Or => "||",
            };
            s.append(oc);
            s.append(" ");
            let rc = generate_expr(&**right, array_name);
            s.append(rc.as_str());
            s.append(")");
            s
        },
        Expr::Literal(lit) => generate_literal(lit),
    }
}

} // verus!
verus! {

/// How many times a character occurs in a text.
pub open spec fn count_char(s: Seq<char>, c: char) -> int
    decreases s.len(),
{
    if s.len() == 0 {
        0
    } else {
        (if s[0] == c {
            1int
        } else {
            0int
        }) + count_char(s.drop_first(), c)
    }
}

proof fn lemma_count_concat(a: Seq<char>, b: Seq<char>, c: char)
    ensures
        count_char(a + b, c) == count_char(a, c) + count_char(b, c),
    decreases a.len(),
{
    if a.len() == 0 {
        assert(a + b =~= b);
    } else {
        assert((a + b).drop_first() =~= a.drop_first() + b);
        lemma_count_concat(a.drop_first(), b, c);
    }
}

/// Counting distributes over concatenation.
pub broadcast proof fn lemma_count_concat_auto(a: Seq<char>, b: Seq<char>, c: char)
    ensures
        #[trigger] count_char(a + b, c) == count_char(a, c) + count_char(b, c),
{
    lemma_count_concat(a, b, c);
}

proof fn lemma_count_zero(s: Seq<char>, c: char)
    requires
        forall|i: int| 0 <= i < s.len() ==> s[i] != c,
    ensures
        count_char(s, c) == 0,
    decreases s.len(),
{
    if s.len() > 0 {
        lemma_count_zero(s.drop_first(), c);
    }
}

proof fn lemma_count_single(x: char, c: char)
    ensures
        count_char(seq![x], c) == (if x == c {
            1int
        } else {
            0int
        }),
{
    reveal_with_fuel(count_char, 3);
    assert(seq![x].drop_first() =~= Seq::<char>::empty());
}

proof fn lemma_dec_count(n: nat, c: char)
    requires
        c == '(' || c == ')',
    ensures
        count_char(dec_str(n), c) == 0,
    decreases n,
{
    broadcast use lemma_count_concat_auto;

    if n < 10 {
        lemma_count_single(crate::strutil::digit_char(n), c);
    } else {
        lemma_dec_count(n / 10, c);
        assert(dec_str(n) =~= dec_str(n / 10) + seq![crate::strutil::digit_char(n % 10)]);
        lemma_count_single(crate::strutil::digit_char(n % 10), c);
    }
}

proof fn lemma_int_count(v: int, c: char)
    requires
        c == '(' || c == ')',
    ensures
        count_char(int_str(v), c) == 0,
{
    broadcast use lemma_count_concat_auto;

    if v < 0 {
        lemma_count_single('-', c);
        assert(seq!['-'] =~= Seq::<char>::empty().push('-'));
        lemma_dec_count((-v) as nat, c);
    } else {
        lemma_dec_count(v as nat, c);
    }
}

proof fn lemma_bytes_join_count(bs: Seq<u8>, i: int, acc: Seq<char>, c: char)
    requires
        c == '(' || c == ')',
    ensures
        count_char(bytes_join(bs, i, acc), c) == count_char(acc, c),
    decreases bs.len() - i,
{
    broadcast use lemma_count_concat_auto;

    if 0 <= i < bs.len() {
        lemma_dec_count(bs[i] as nat, c);
        if i > 0 {
            reveal_strlit(", ");
            lemma_count_zero(", "@, c);
            lemma_bytes_join_count(bs, i + 1, acc + ", "@ + dec_str(bs[i] as nat), c);
        } else {
            lemma_bytes_join_count(bs, i + 1, acc + dec_str(bs[i] as nat), c);
        }
    }
}

proof fn lemma_literal_count(l: Literal, c: char)
    requires
        c == '(' || c == ')',
    ensures
        count_char(cpp_literal_text(l), c) == 0,
{
    broadcast use lemma_count_concat_auto;

    reveal_strlit("std::array<uint8_t, ");
    reveal_strlit(">{{");
    reveal_strlit("}}");
    lemma_count_zero("std::array<uint8_t, "@, c);
    lemma_count_zero(">{{"@, c);
    lemma_count_zero("}}"@, c);
    match l {
        Literal::Integer(v) => {
            lemma_int_count(v as int, c);
        },
        Literal::ByteArray(bs) => {
            lemma_dec_count(bs@.len(), c);
            lemma_bytes_join_count(
                bs@,
                0,
                "std::array<uint8_t, "@ + dec_str(bs@.len()) + ">{{"@,
                c,
            );
        },
        Literal::String(st) => {
            let bsv = vstd::utf8::encode_utf8(st@);
            lemma_dec_count(bsv.len(), c);
            lemma_bytes_join_count(bsv, 0, "std::array<uint8_t, "@ + dec_str(bsv.len()) + ">{{"@, c);
        },
    }
}

proof fn lemma_comp_op_count(op: ComparisonOp, c: char)
    requires
        c == '(' || c == ')',
    ensures
        count_char(cpp_comp_op(op), c) == 0,
{
    match op {
        ComparisonOp::Equals => {
            reveal_strlit("==");
            lemma_count_zero("=="@, c);
        },
        ComparisonOp::NotEquals => {
            reveal_strlit("!=");
            lemma_count_zero("!="@, c);
        },
        ComparisonOp::LessThan => {
            reveal_strlit("<");
            lemma_count_zero("<"@, c);
        },
        ComparisonOp::GreaterThan => {
            reveal_strlit(">");
            lemma_count_zero(">"@, c);
        },
        ComparisonOp::LessThanOrEqual => {
            reveal_strlit("<=");
            lemma_count_zero("<="@, c);
        },
        ComparisonOp::GreaterThanOrEqual => {
            reveal_strlit(">=");
            lemma_count_zero(">="@, c);
        },
    }
}

proof fn lemma_logic_op_count(op: LogicalOp, c: char)
    requires
        c == '(' || c == ')',
    ensures
        count_char(cpp_logic_op(op), c) == 0,
{
    match op {
        LogicalOp::And => {
            reveal_strlit("&&");
            lemma_count_zero("&&"@, c);
        },
        LogicalOp::Or => {
            reveal_strlit("||");
            lemma_count_zero("||"@, c);
        },
    }
}

/// Every name in the expression is free of parentheses.
pub open spec fn names_paren_free(e: Expr) -> bool
    decreases e,
{
    match e {
        Expr::Variable(n) => count_char(n@, '(') == 0 && count_char(n@, ')') == 0,
        Expr::FieldAccess { base, field } => names_paren_free(*base) && count_char(field@, '(')
            == 0 && count_char(field@, ')') == 0,
        Expr::ArrayIndex { array, .. } => names_paren_free(*array),
        Expr::Comparison { left, right, .. } => names_paren_free(*left) && names_paren_free(
            *right,
        ),
        Expr::Logical { left, right, .. } => names_paren_free(*left) && names_paren_free(*right),
        Expr::Literal(_) => true,
    }
}

/// The emitted text of an until-condition holds as many opening as
/// closing parentheses, for any scope name that is itself balanced and
/// any expression whose names carry none.
pub proof fn lemma_expr_parens_balanced(e: Expr, a: Seq<char>)
    requires
        count_char(a, '(') == count_char(a, ')'),
        names_paren_free(e),
    ensures
        count_char(cpp_expr_text(e, a), '(') == count_char(cpp_expr_text(e, a), ')'),
    decreases e,
{
    broadcast use lemma_count_concat_auto;

    match e {
        Expr::Variable(_) => {
            reveal_strlit(".");
            lemma_count_zero("."@, '(');
            lemma_count_zero("."@, ')');
        },
        Expr::FieldAccess { base, .. } => {
            lemma_expr_parens_balanced(*base, a);
            reveal_strlit(".");
            lemma_count_zero("."@, '(');
            lemma_count_zero("."@, ')');
        },
        Expr::ArrayIndex { array, index } => {
            lemma_expr_parens_balanced(*array, a);
            reveal_strlit("[");
            reveal_strlit("]");
            lemma_count_zero("["@, '(');
            lemma_count_zero("["@, ')');
            lemma_count_zero("]"@, '(');
            lemma_count_zero("]"@, ')');
            match index {
                IndexExpr::Positive(i) => {
                    lemma_dec_count(i as nat, '(');
                    lemma_dec_count(i as nat, ')');
                },
                IndexExpr::Negative(i) => {
                    lemma_dec_count(i as nat, '(');
                    lemma_dec_count(i as nat, ')');
                    reveal_strlit(".size() - ");
                    reveal_with_fuel(count_char, 12);
                    assert(".size() - "@.len() == 10);
                    assert(count_char(".size() - "@, '(') == 1);
                    assert(count_char(".size() - "@, ')') == 1);
                },
            }
        },
        Expr::Comparison { left, op, right } => {
            lemma_expr_parens_balanced(*left, a);
            lemma_expr_parens_balanced(*right, a);
            reveal_strlit("(");
            reveal_strlit(")");
            reveal_strlit(" ");
            reveal_with_fuel(count_char, 3);
            assert(count_char("("@, '(') == 1 && count_char("("@, ')') == 0);
            assert(count_char(")"@, '(') == 0 && count_char(")"@, ')') == 1);
            lemma_count_zero(" "@, '(');
            lemma_count_zero(" "@, ')');
            lemma_comp_op_count(op, '(');
            lemma_comp_op_count(op, ')');
        },
        Expr::Logical { left, op, right } => {
            lemma_expr_parens_balanced(*left, a);
            lemma_expr_parens_balanced(*right, a);
            reveal_strlit("(");
            reveal_strlit(")");
            reveal_strlit(" ");
            reveal_with_fuel(count_char, 3);
            assert(count_char("("@, '(') == 1 && count_char("("@, ')') == 0);
            assert(count_char(")"@, '(') == 0 && count_char(")"@, ')') == 1);
            lemma_count_zero(" "@, '(');
            lemma_count_zero(" "@, ')');
            lemma_logic_op_count(op, '(');
            lemma_logic_op_count(op, ')');
        },
        Expr::Literal(lit) => {
            lemma_literal_count(lit, '(');
            lemma_literal_count(lit, ')');
        },
    }
}

} // verus!
