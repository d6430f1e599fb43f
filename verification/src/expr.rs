//! The expression AST of until-conditions.

use vstd::prelude::*;

verus! {

/// A boolean expression over the elements already read into an unbounded
/// array, used to decide when the read loop stops.
#[derive(Debug, PartialEq)]
pub enum Expr {
    /// Field access on a base expression.
    FieldAccess { base: Box<Expr>, field: String },
    /// Indexing into an array expression, from the front or from the end.
    ArrayIndex { array: Box<Expr>, index: IndexExpr },
    /// A bare name.
    Variable(String),
    /// A binary comparison.
    Comparison { left: Box<Expr>, op: ComparisonOp, right: Box<Expr> },
    /// A binary logical connective.
    Logical { left: Box<Expr>, op: LogicalOp, right: Box<Expr> },
    /// A literal value.
    Literal(Literal),
}

/// An array index, counted from the front or from the end.
#[derive(Debug, Clone, Copy, PartialEq, Eq, Structural)]
pub enum IndexExpr {
    /// Index from the front.
    Positive(usize),
    /// Index from the end: `a[-1]` is the last element.
    Negative(usize),
}

/// The six comparison operators of the expression language.
#[derive(Debug, Clone, Copy, PartialEq, Eq, Structural)]
pub enum ComparisonOp {
    Equals,
    NotEquals,
    LessThan,
    GreaterThan,
    LessThanOrEqual,
    GreaterThanOrEqual,
}

/// The two logical connectives of the expression language.
#[derive(Debug, Clone, Copy, PartialEq, Eq, Structural)]
pub enum LogicalOp {
    And,
    Or,
}

/// A literal value in an until-condition.
#[derive(Debug, PartialEq)]
pub enum Literal {
    /// An integer, written in decimal or as `0x…`.
    Integer(i64),
    /// A byte array, written `[73, 69, 78, 68]`.
    ByteArray(Vec<u8>),
    /// A single-quoted string, compared as its UTF-8 bytes.
    String(String),
}

/// View of [`Literal`].
#[verifier::ext_equal]
pub enum SpecLiteral {
    Integer(i64),
    ByteArray(Seq<u8>),
    String(Seq<char>),
}

/// View of [`Expr`].
#[verifier::ext_equal]
pub enum SpecExpr {
    FieldAccess { base: Box<SpecExpr>, field: Seq<char> },
    ArrayIndex { array: Box<SpecExpr>, index: IndexExpr },
    Variable(Seq<char>),
    Comparison { left: Box<SpecExpr>, op: ComparisonOp, right: Box<SpecExpr> },
    Logical { left: Box<SpecExpr>, op: LogicalOp, right: Box<SpecExpr> },
    Literal(SpecLiteral),
}

impl View for Literal {
    type V = SpecLiteral;

    open spec fn view(&self) -> SpecLiteral {
        match self {
            Literal::Integer(v) => SpecLiteral::Integer(*v),
            Literal::ByteArray(v) => SpecLiteral::ByteArray(v@),
            Literal::String(s) => SpecLiteral::String(s@),
        }
    }
}

/// View of an [`Expr`] tree.
pub open spec fn view_expr(e: Expr) -> SpecExpr
    decreases e,
{
    {
        match e {
            Expr::FieldAccess { base, field } => SpecExpr::FieldAccess {
                base: Box::new(view_expr(*base)),
                field: field@,
            },
            Expr::ArrayIndex { array, index } => SpecExpr::ArrayIndex {
                array: Box::new(view_expr(*array)),
                index: index,
            },
            Expr::Variable(name) => SpecExpr::Variable(name@),
            Expr::Comparison { left, op, right } => SpecExpr::Comparison {
                left: Box::new(view_expr(*left)),
                op: op,
                right: Box::new(view_expr(*right)),
            },
            Expr::Logical { left, op, right } => SpecExpr::Logical {
                left: Box::new(view_expr(*left)),
                op: op,
                right: Box::new(view_expr(*right)),
            },
            Expr::Literal(lit) => SpecExpr::Literal(lit@),
        }
    }
}

impl View for Expr {
    type V = SpecExpr;

    open spec fn view(&self) -> SpecExpr {
        view_expr(*self)
    }
}

/// The comparison operator named by a keyword, if any.
pub open spec fn comparison_op_of(s: Seq<char>) -> Option<ComparisonOp> {
    if s == "equals"@ {
        Some(ComparisonOp::Equals)
    } else if s == "not-equals"@ {
        Some(ComparisonOp::NotEquals)
    } else if s == "less-than"@ {
        Some(ComparisonOp::LessThan)
    } else if s == "greater-than"@ {
        Some(ComparisonOp::GreaterThan)
    } else if s == "less-than-or-equal"@ {
        Some(ComparisonOp::LessThanOrEqual)
    } else if s == "greater-than-or-equal"@ {
        Some(ComparisonOp::GreaterThanOrEqual)
    } else {
        None
    }
}

/// The keyword of a comparison operator.
pub open spec fn comparison_op_text(op: ComparisonOp) -> Seq<char> {
    match op {
        ComparisonOp::Equals => "equals"@,
        ComparisonOp::NotEquals => "not-equals"@,
        ComparisonOp::LessThan => "less-than"@,
        ComparisonOp::GreaterThan => "greater-than"@,
        ComparisonOp::LessThanOrEqual => "less-than-or-equal"@,
        ComparisonOp::GreaterThanOrEqual => "greater-than-or-equal"@,
    }
}

/// The logical operator named by a keyword, if any.
pub open spec fn logical_op_of(s: Seq<char>) -> Option<LogicalOp> {
    if s == "AND"@ {
        Some(LogicalOp::And)
    } else if s == "OR"@ {
        Some(LogicalOp::Or)
    } else {
        None
    }
}

/// The keyword of a logical operator.
pub open spec fn logical_op_text(op: LogicalOp) -> Seq<char> {
    match op {
        LogicalOp::And => "AND"@,
        LogicalOp::Or => "OR"@,
    }
}

impl ComparisonOp {
    /// The operator written `s`, if `s` is one of the six comparison
    /// keywords.
    pub fn from_str(s: &str) -> (r: Option<ComparisonOp>)
        ensures
            r == comparison_op_of(s@),
    {
        if crate::strutil::str_eq(s, "equals") {
            Some(ComparisonOp::Equals)
        } else if crate::strutil::str_eq(s, "not-equals") {
            Some(ComparisonOp::NotEquals)
        } else if crate::strutil::str_eq(s, "less-than") {
            Some(ComparisonOp::LessThan)
        } else if crate::strutil::str_eq(s, "greater-than") {
            Some(ComparisonOp::GreaterThan)
        } else if crate::strutil::str_eq(s, "less-than-or-equal") {
            Some(ComparisonOp::LessThanOrEqual)
        } else if crate::strutil::str_eq(s, "greater-than-or-equal") {
            Some(ComparisonOp::GreaterThanOrEqual)
        } else {
            None
        }
    }

    /// The keyword for this operator.
    pub fn to_str(&self) -> (r: &'static str)
        ensures
            r@ == comparison_op_text(*self),
    {
        match self {
            ComparisonOp::Equals => "equals",
            ComparisonOp::NotEquals => "not-equals",
            ComparisonOp::LessThan => "less-than",
            ComparisonOp::GreaterThan => "greater-than",
            ComparisonOp::LessThanOrEqual => "less-than-or-equal",
            ComparisonOp::GreaterThanOrEqual => "greater-than-or-equal",
        }
    }
}

impl LogicalOp {
    /// The operator written `s`, if `s` is one of the two logical keywords.
    pub fn from_str(s: &str) -> (r: Option<LogicalOp>)
        ensures
            r == logical_op_of(s@),
    {
        if crate::strutil::str_eq(s, "AND") {
            Some(LogicalOp::And)
        } else if crate::strutil::str_eq(s, "OR") {
            Some(LogicalOp::Or)
        } else {
            None
        }
    }

    /// The keyword for this operator.
    pub fn to_str(&self) -> (r: &'static str)
        ensures
            r@ == logical_op_text(*self),
    {
        match self {
            LogicalOp::And => "AND",
            LogicalOp::Or => "OR",
        }
    }
}

impl Clone for Literal {
    /// A copy with the same view.
    fn clone(&self) -> (r: Self)
        ensures
            r@ == self@,
    {
        match self {
            Literal::Integer(i) => Literal::Integer(*i),
            Literal::ByteArray(v) => Literal::ByteArray(crate::strutil::clone_u8_vec(v)),
            Literal::String(s) => Literal::String(s.clone()),
        }
    }
}

impl Clone for Expr {
    /// A copy with the same view.
    fn clone(&self) -> (r: Self)
        ensures
            r@ == self@,
        decreases *self,
    {
        match self {
            Expr::FieldAccess { base, field } => Expr::FieldAccess {
                base: Box::new((**base).clone()),
                field: field.clone(),
            },
            Expr::ArrayIndex { array, index } => Expr::ArrayIndex {
                array: Box::new((**array).clone()),
                index: *index,
            },
            Expr::Variable(name) => Expr::Variable(name.clone()),
            Expr::Comparison { left, op, right } => Expr::Comparison {
                left: Box::new((**left).clone()),
                op: *op,
                right: Box::new((**right).clone()),
            },
            Expr::Logical { left, op, right } => Expr::Logical {
                left: Box::new((**left).clone()),
                op: *op,
                right: Box::new((**right).clone()),
            },
            Expr::Literal(lit) => Expr::Literal(lit.clone()),
        }
    }
}

} // verus!
