//! Python emission of until-condition expressions, as used by the
//! externally compiled Python backend module.

use vstd::prelude::*;
use vstd::string::{StrSliceExecFns, StringExecFns};
use vstd::slice::slice_index_get;
use crate::expr::{ComparisonOp, Expr, IndexExpr, Literal, LogicalOp};
use crate::strutil::{dec_str, int_str, str_eq};

verus! {

/// The decimal renderings of the bytes from index `i` on, comma-joined
/// and appended to the text built so far.
pub open spec fn py_bytes_join(bs: Seq<u8>, i: int, acc: Seq<char>) -> Seq<char>
    decreases bs.len() - i,
{
    if i < 0 || i >= bs.len() {
        acc
    } else if i > 0 {
        py_bytes_join(bs, i + 1, acc + ", "@ + dec_str(bs[i] as nat))
    } else {
        py_bytes_join(bs, i + 1, acc + dec_str(bs[i] as nat))
    }
}

/// The Python text of a literal: integers in decimal, byte arrays and
/// strings as lists of their bytes.
pub open spec fn py_literal_text(l: Literal) -> Seq<char> {
    match l {
        Literal::Integer(v) => int_str(v as int),
        Literal::ByteArray(bs) => py_bytes_join(bs@, 0, "["@) + "]"@,
        Literal::String(s) => py_bytes_join(vstd::utf8::encode_utf8(s@), 0, "["@) + "]"@,
    }
}

/// The Python operator for a comparison.
pub open spec fn py_comp_op(op: ComparisonOp) -> Seq<char> {
    match op {
        ComparisonOp::Equals => "=="@,
        ComparisonOp::NotEquals => "!="@,
        ComparisonOp::LessThan => "<"@,
        ComparisonOp::GreaterThan => ">"@,
        ComparisonOp::LessThanOrEqual => "<="@,
        ComparisonOp::GreaterThanOrEqual => ">="@,
    }
}

/// The Python operator for a logical connective.
pub open spec fn py_logic_op(op: LogicalOp) -> Seq<char> {
    match op {
        LogicalOp::And => "and"@,
        LogicalOp::Or => "or"@,
    }
}

/// The Python text of an until-condition against the in-scope array
/// name; a negative index uses Python's indexing from the end.
pub open spec fn py_expr_text(e: Expr, array_name: Seq<char>) -> Seq<char>
    decreases e,
{
    match e {
        Expr::Variable(name) => if name@ == array_name {
            array_name
        } else {
            name@
        },
        Expr::FieldAccess { base, field } => py_expr_text(*base, array_name) + "."@ + field@,
        Expr::ArrayIndex { array, index } => {
            let ac = py_expr_text(*array, array_name);
            match index {
                IndexExpr::Positive(i) => ac + "["@ + dec_str(i as nat) + "]"@,
                IndexExpr::Negative(i) => ac + "[-"@ + dec_str(i as nat) + "]"@,
            }
        },
        Expr::Comparison { left, op, right } => "("@ + py_expr_text(*left, array_name) + " "@
            + py_comp_op(op) + " "@ + py_expr_text(*right, array_name) + ")"@,
        Expr::Logical { left, op, right } => "("@ + py_expr_text(*left, array_name) + " "@
            + py_logic_op(op) + " "@ + py_expr_text(*right, array_name) + ")"@,
        Expr::Literal(lit) => py_literal_text(lit),
    }
}

fn generate_literal(lit: &Literal) -> (r: String)
    ensures
        r@ == py_literal_text(*lit),
{
    match lit {
        Literal::Integer(v) => crate::strutil::i64_to_string(*v),
        Literal::ByteArray(bs) => {
            let mut s = String::from_str("[");
            let mut i: usize = 0;
            while i < bs.len()
                invariant
                    i <= bs@.len(),
                    py_bytes_join(bs@, i as int, s@) == py_bytes_join(bs@, 0, "["@),
                decreases bs@.len() - i,
            {
                if i > 0 {
                    s.append(", ");
                }
                let d = crate::strutil::u64_to_string(bs[i] as u64);
                s.append(d.as_str());
                i += 1;
            }
            s.append("]");
            s
        },
        Literal::String(st) => {
            let bs: &[u8] = st.as_str().as_bytes();
            let ghost bsv = vstd::utf8::encode_utf8(st@);
            proof {
                assert(bs@ == bsv);
            }
            let mut s = String::from_str("[");
            let mut i: usize = 0;
            while i < bs.len()
                invariant
                    i <= bsv.len(),
                    bs@ == bsv,
                    py_bytes_join(bsv, i as int, s@) == py_bytes_join(bsv, 0, "["@),
                decreases bsv.len() - i,
            {
                if i > 0 {
                    s.append(", ");
                }
                let b: u8 = *slice_index_get(bs, i);
                let d = crate::strutil::u64_to_string(b as u64);
                s.append(d.as_str());
                i += 1;
            }
            s.append("]");
            s
        },
    }
}

/// The Python text of an until-condition, rendered against the name of
/// the array in scope.
pub fn generate_expr(expr: &Expr, array_name: &str) -> (r: String)
    ensures
        r@ == py_expr_text(*expr, array_name@),
    decreases *expr,
{
    match expr {
        Expr::Variable(name) => {
            if str_eq(name.as_str(), array_name) {
                String::from_str(array_name)
            } else {
                name.clone()
            }
        },
        Expr::FieldAccess { base, field } => {
            let mut s = generate_expr(&**base, array_name);
            s.append(".");
            s.append(field.as_str());
            s
        },
        Expr::ArrayIndex { array, index } => {
            let mut s = generate_expr(&**array, array_name);
            match index {
                IndexExpr::Positive(i) => {
                    s.append("[");
                    let d = crate::strutil::usize_to_string(*i);
                    s.append(d.as_str());
                    s.append("]");
                    s
                },
                IndexExpr::Negative(i) => {
                    s.append("[-");
                    let d = crate::strutil::usize_to_string(*i);
                    s.append(d.as_str());
                    s.append("]");
                    s
                },
            }
        },
        Expr::Comparison { left, op, right } => {
            let mut s = String::from_str("(");
            let lc = generate_expr(&**left, array_name);
            s.append(lc.as_str());
            s.append(" ");
            let oc = match op {
                ComparisonOp::Equals => "==",
                ComparisonOp::NotEquals => "!=",
                ComparisonOp::LessThan => "<",
                ComparisonOp::GreaterThan => ">",
                ComparisonOp::LessThanOrEqual => "<=",
                ComparisonOp::GreaterThanOrEqual => ">=",
            };
            s.append(oc);
            s.append(" ");
            let rc = generate_expr(&**right, array_name);
            s.append(rc.as_str());
            s.append(")");
            s
        },
        Expr::Logical { left, op, right } => {
            let mut s = String::from_str("(");
            let lc = generate_expr(&**left, array_name);
            s.append(lc.as_str());
            s.append(" ");
            let oc = match op {
                LogicalOp::And => "and",
                LogicalOp::Or => "or",
            };
            s.append(oc);
            s.append(" ");
            let rc = generate_expr(&**right, array_name);
            s.append(rc.as_str());
            s.append(")");
            s
        },
        Expr::Literal(lit) => generate_literal(lit),
    }
}

} // verus!
