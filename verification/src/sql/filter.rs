//! Predicate helpers for exact pushdown.
//!
//! Decodes filter expressions into [`Pred`] for providers that advertise
//! exact equality / range filtering. [`Expr`] and [`ScalarValue`] hold, as
//! plain values, the parts of a query-engine filter expression that the
//! decoder reads; the host converts its engine's expressions into them.

use vstd::prelude::*;
use crate::text::{lemma_lex_antisym, lemma_lex_eq, lex_order, str_eq, str_order};

verus! {

/// Bound for an inclusive/exclusive string or integer range endpoint.
#[derive(Debug, Clone, PartialEq)]
pub enum Bound<T> {
    Inclusive(T),
    Exclusive(T),
}

/// Equality / range predicates understood for pushdown.
#[derive(Debug, Clone, PartialEq)]
pub enum Pred {
    EqU32 { column: String, value: u32 },
    EqStr { column: String, value: String },
    RangeStr { column: String, low: Option<Bound<String>>, high: Option<Bound<String>> },
}

/// Literal values a filter may carry (`None` is SQL NULL).
#[derive(Debug, Clone, PartialEq)]
pub enum ScalarValue {
    Utf8(Option<String>),
    LargeUtf8(Option<String>),
    Utf8View(Option<String>),
    UInt32(Option<u32>),
    UInt64(Option<u64>),
    Int64(Option<i64>),
    Int32(Option<i32>),
    /// Any other literal type.
    Other,
}

/// Binary operators a filter may use.
#[derive(Debug, Clone, Copy, PartialEq, Eq)]
pub enum Operator {
    Eq,
    Lt,
    LtEq,
    Gt,
    GtEq,
    /// Any other operator.
    Other,
}

/// The shape of a filter expression, as far as pushdown reads it.
#[derive(Debug, PartialEq)]
pub enum Expr {
    Column(String),
    Alias(Box<Expr>),
    Literal(ScalarValue),
    BinaryExpr { left: Box<Expr>, op: Operator, right: Box<Expr> },
    Between { expr: Box<Expr>, negated: bool, low: Box<Expr>, high: Box<Expr> },
    /// Any other expression.
    Other,
}

/// Column named by `e`, looking through aliases.
pub open spec fn spec_column_name(e: Expr) -> Option<Seq<char>>
    decreases e,
{
    match e {
        Expr::Column(c) => Some(c@),
        Expr::Alias(inner) => spec_column_name(*inner),
        _ => None,
    }
}

/// Literal carried directly by `e`.
pub open spec fn spec_scalar(e: Expr) -> Option<ScalarValue> {
    match e {
        Expr::Literal(v) => Some(v),
        _ => None,
    }
}

/// Non-null string payload of a string literal.
pub open spec fn spec_utf8(v: ScalarValue) -> Option<Seq<char>> {
    match v {
        ScalarValue::Utf8(Some(s)) => Some(s@),
        ScalarValue::LargeUtf8(Some(s)) => Some(s@),
        ScalarValue::Utf8View(Some(s)) => Some(s@),
        _ => None,
    }
}

/// Non-null integer payload that fits in `u32`.
pub open spec fn spec_u32(v: ScalarValue) -> Option<u32> {
    match v {
        ScalarValue::UInt32(Some(n)) => Some(n),
        ScalarValue::UInt64(Some(n)) => if n <= u32::MAX { Some(n as u32) } else { None },
        ScalarValue::Int64(Some(n)) => if 0 <= n <= u32::MAX { Some(n as u32) } else { None },
        ScalarValue::Int32(Some(n)) => if n >= 0 { Some(n as u32) } else { None },
        _ => None,
    }
}

/// The (column, literal) pair of a binary expression, column on the left
/// first, else on the right; `reverse` says the column was on the right.
pub open spec fn spec_col_lit(e: Expr) -> Option<(Seq<char>, ScalarValue, bool)> {
    match e {
        Expr::BinaryExpr { left, op, right } => {
            if spec_column_name(*left) is Some && spec_scalar(*right) is Some {
                Some((spec_column_name(*left)->0, spec_scalar(*right)->0, false))
            } else if spec_column_name(*right) is Some && spec_scalar(*left) is Some {
                Some((spec_column_name(*right)->0, spec_scalar(*left)->0, true))
            } else {
                None
            }
        },
        _ => None,
    }
}

pub open spec fn spec_op(e: Expr) -> Operator {
    match e {
        Expr::BinaryExpr { op, .. } => op,
        _ => Operator::Other,
    }
}

pub open spec fn cols_view(columns: Seq<&str>) -> Seq<Seq<char>> {
    columns.map_values(|c: &str| c@)
}

/// `column = literal` (either side) on an allowed column with a `u32` literal.
pub open spec fn spec_eq_u32(e: Expr, columns: Seq<Seq<char>>) -> Option<(Seq<char>, u32)> {
    match spec_col_lit(e) {
        Some((c, s, _)) => if spec_op(e) == Operator::Eq && columns.contains(c) && spec_u32(s) is Some {
            Some((c, spec_u32(s)->0))
        } else {
            None
        },
        None => None,
    }
}

/// `column = literal` (either side) on an allowed column with a string literal.
pub open spec fn spec_eq_str(e: Expr, columns: Seq<Seq<char>>) -> Option<(Seq<char>, Seq<char>)> {
    match spec_col_lit(e) {
        Some((c, s, _)) => if spec_op(e) == Operator::Eq && columns.contains(c) && spec_utf8(s) is Some {
            Some((c, spec_utf8(s)->0))
        } else {
            None
        },
        None => None,
    }
}

/// Abstract view of an optional string bound: `(inclusive, value)`.
pub open spec fn bound_view(b: Option<Bound<String>>) -> Option<(bool, Seq<char>)> {
    match b {
        Some(Bound::Inclusive(v)) => Some((true, v@)),
        Some(Bound::Exclusive(v)) => Some((false, v@)),
        None => None,
    }
}

/// Abstract view of a string range predicate: column, low, high.
pub open spec fn range_view(p: Pred) -> Option<(Seq<char>, Option<(bool, Seq<char>)>, Option<(bool, Seq<char>)>)> {
    match p {
        Pred::RangeStr { column, low, high } => Some((column@, bound_view(low), bound_view(high))),
        _ => None,
    }
}

/// A one-sided string range from `column op literal` (or `literal op column`,
/// read with the comparison flipped).
pub open spec fn spec_range_str(e: Expr, columns: Seq<Seq<char>>) -> Option<(Seq<char>, Option<(bool, Seq<char>)>, Option<(bool, Seq<char>)>)> {
    match spec_col_lit(e) {
        Some((c, s, rev)) => if columns.contains(c) && spec_utf8(s) is Some {
            let v = spec_utf8(s)->0;
            let op = spec_op(e);
            if (op == Operator::Gt && !rev) || (op == Operator::Lt && rev) {
                Some((c, Some((false, v)), None))
            } else if (op == Operator::GtEq && !rev) || (op == Operator::LtEq && rev) {
                Some((c, Some((true, v)), None))
            } else if (op == Operator::Lt && !rev) || (op == Operator::Gt && rev) {
                Some((c, None, Some((false, v))))
            } else if (op == Operator::LtEq && !rev) || (op == Operator::GtEq && rev) {
                Some((c, None, Some((true, v))))
            } else {
                None
            }
        } else {
            None
        },
        None => None,
    }
}

/// `column BETWEEN low AND high` (not negated) with string literals.
pub open spec fn spec_between_str(e: Expr, columns: Seq<Seq<char>>) -> Option<(Seq<char>, Option<(bool, Seq<char>)>, Option<(bool, Seq<char>)>)> {
    match e {
        Expr::Between { expr, negated, low, high } => {
            let c = spec_column_name(*expr);
            let l = spec_scalar(*low);
            let h = spec_scalar(*high);
            if !negated && c is Some && columns.contains(c->0) && l is Some && spec_utf8(l->0) is Some
                && h is Some && spec_utf8(h->0) is Some {
                Some((c->0, Some((true, spec_utf8(l->0)->0)), Some((true, spec_utf8(h->0)->0))))
            } else {
                None
            }
        },
        _ => None,
    }
}

fn column_name(e: &Expr) -> (r: Option<String>)
    ensures
        (match r {
            Some(s) => spec_column_name(*e) == Some(s@),
            None => spec_column_name(*e) is None,
        }),
    decreases e,
{
    match e {
        Expr::Column(c) => Some(c.clone()),
        Expr::Alias(inner) => column_name(inner),
        _ => None,
    }
}

fn as_scalar(e: &Expr) -> (r: Option<&ScalarValue>)
    ensures
        (match r {
            Some(s) => spec_scalar(*e) == Some(*s),
            None => spec_scalar(*e) is None,
        }),
{
    match e {
        Expr::Literal(v) => Some(v),
        _ => None,
    }
}

fn scalar_utf8(v: &ScalarValue) -> (r: Option<String>)
    ensures
        (match r {
            Some(s) => spec_utf8(*v) == Some(s@),
            None => spec_utf8(*v) is None,
        }),
{
    match v {
        ScalarValue::Utf8(Some(s)) => Some(s.clone()),
        ScalarValue::LargeUtf8(Some(s)) => Some(s.clone()),
        ScalarValue::Utf8View(Some(s)) => Some(s.clone()),
        _ => None,
    }
}

fn scalar_u32(v: &ScalarValue) -> (r: Option<u32>)
    ensures
        r == spec_u32(*v),
{
    match v {
        ScalarValue::UInt32(Some(n)) => Some(*n),
        ScalarValue::UInt64(Some(n)) => if *n <= 4294967295u64 { Some(*n as u32) } else { None },
        ScalarValue::Int64(Some(n)) => if *n >= 0 && *n <= 4294967295i64 { Some(*n as u32) } else { None },
        ScalarValue::Int32(Some(n)) => if *n >= 0 { Some(*n as u32) } else { None },
        _ => None,
    }
}

fn col_allowed(columns: &[&str], c: &String) -> (b: bool)
    ensures
        b == cols_view(columns@).contains(c@),
{
    let mut i: usize = 0;
    while i < columns.len()
        invariant
            i <= columns@.len(),
            forall|k: int| 0 <= k < i ==> #[trigger] columns@[k]@ != c@,
        decreases columns@.len() - i,
    {
        if str_eq(columns[i], c.as_str()) {
            assert(cols_view(columns@)[i as int] == c@);
            return true;
        }
        i = i + 1;
    }
    proof {
        if cols_view(columns@).contains(c@) {
            let k = choose|k: int| 0 <= k < columns@.len() && #[trigger] cols_view(columns@)[k] == c@;
            assert(columns@[k]@ == c@);
        }
    }
    false
}

fn col_lit(e: &Expr) -> (r: Option<(String, &ScalarValue, bool)>)
    ensures
        (match r {
            Some((c, s, rev)) => spec_col_lit(*e) == Some((c@, *s, rev)),
            None => spec_col_lit(*e) is None,
        }),
{
    match e {
        Expr::BinaryExpr { left, op, right } => {
            let lc = column_name(left);
            let rs = as_scalar(right);
            match (lc, rs) {
                (Some(c), Some(s)) => Some((c, s, false)),
                _ => {
                    let rc = column_name(right);
                    let ls = as_scalar(left);
                    match (rc, ls) {
                        (Some(c), Some(s)) => Some((c, s, true)),
                        _ => None,
                    }
                },
            }
        },
        _ => None,
    }
}

fn op_of(e: &Expr) -> (o: Operator)
    ensures
        o == spec_op(*e),
{
    match e {
        Expr::BinaryExpr { op, .. } => *op,
        _ => Operator::Other,
    }
}

/// `column = literal` on one of `columns` with an unsigned 32-bit literal.
pub fn classify_eq_u32(expr: &Expr, columns: &[&str]) -> (r: Option<(String, u32)>)
    ensures
        (match r {
            Some((c, v)) => spec_eq_u32(*expr, cols_view(columns@)) == Some((c@, v)),
            None => spec_eq_u32(*expr, cols_view(columns@)) is None,
        }),
{
    if !matches!(op_of(expr), Operator::Eq) {
        return None;
    }
    match col_lit(expr) {
        Some((c, s, _)) => {
            if !col_allowed(columns, &c) {
                return None;
            }
            match scalar_u32(s) {
                Some(v) => Some((c, v)),
                None => None,
            }
        },
        None => None,
    }
}

/// `column = literal` on one of `columns` with a string literal.
pub fn classify_eq_str(expr: &Expr, columns: &[&str]) -> (r: Option<(String, String)>)
    ensures
        (match r {
            Some((c, v)) => spec_eq_str(*expr, cols_view(columns@)) == Some((c@, v@)),
            None => spec_eq_str(*expr, cols_view(columns@)) is None,
        }),
{
    if !matches!(op_of(expr), Operator::Eq) {
        return None;
    }
    match col_lit(expr) {
        Some((c, s, _)) => {
            if !col_allowed(columns, &c) {
                return None;
            }
            match scalar_utf8(s) {
                Some(v) => Some((c, v)),
                None => None,
            }
        },
        None => None,
    }
}

/// A one-sided string range on one of `columns` from `<`, `<=`, `>`, `>=`.
pub fn classify_range_str(expr: &Expr, columns: &[&str]) -> (r: Option<Pred>)
    ensures
        (match r {
            Some(p) => spec_range_str(*expr, cols_view(columns@)) == range_view(p) && range_view(p) is Some,
            None => spec_range_str(*expr, cols_view(columns@)) is None,
        }),
{
    let (col, lit, reverse) = match col_lit(expr) {
        Some(t) => t,
        None => return None,
    };
    if !col_allowed(columns, &col) {
        return None;
    }
    let value = match scalar_utf8(lit) {
        Some(v) => v,
        None => return None,
    };
    let op = op_of(expr);
    let (low, high) = match (op, reverse) {
        (Operator::Gt, false) | (Operator::Lt, true) => (Some(Bound::Exclusive(value)), None),
        (Operator::GtEq, false) | (Operator::LtEq, true) => (Some(Bound::Inclusive(value)), None),
        (Operator::Lt, false) | (Operator::Gt, true) => (None, Some(Bound::Exclusive(value))),
        (Operator::LtEq, false) | (Operator::GtEq, true) => (None, Some(Bound::Inclusive(value))),
        _ => return None,
    };
    Some(Pred::RangeStr { column: col, low, high })
}

/// `column BETWEEN low AND high` on one of `columns` with string literals,
/// as an inclusive range.
pub fn between_str(expr: &Expr, columns: &[&str]) -> (r: Option<Pred>)
    ensures
        (match r {
            Some(p) => spec_between_str(*expr, cols_view(columns@)) == range_view(p) && range_view(p) is Some,
            None => spec_between_str(*expr, cols_view(columns@)) is None,
        }),
{
    match expr {
        Expr::Between { expr: inner, negated, low, high } => {
            if *negated {
                return None;
            }
            let col = match column_name(inner) {
                Some(c) => c,
                None => return None,
            };
            if !col_allowed(columns, &col) {
                return None;
            }
            let lo = match as_scalar(low) {
                Some(s) => match scalar_utf8(s) {
                    Some(v) => v,
                    None => return None,
                },
                None => return None,
            };
            let hi = match as_scalar(high) {
                Some(s) => match scalar_utf8(s) {
                    Some(v) => v,
                    None => return None,
                },
                None => return None,
            };
            Some(Pred::RangeStr { column: col, low: Some(Bound::Inclusive(lo)), high: Some(Bound::Inclusive(hi)) })
        },
        _ => None,
    }
}

/// Whether `key` satisfies an optional lower bound.
pub open spec fn above_low(key: Seq<char>, low: Option<(bool, Seq<char>)>) -> bool {
    match low {
        Some((true, v)) => lex_order(key, v) >= 0,
        Some((false, v)) => lex_order(key, v) > 0,
        None => true,
    }
}

/// Whether `key` satisfies an optional upper bound.
pub open spec fn below_high(key: Seq<char>, high: Option<(bool, Seq<char>)>) -> bool {
    match high {
        Some((true, v)) => lex_order(key, v) <= 0,
        Some((false, v)) => lex_order(key, v) < 0,
        None => true,
    }
}

/// Does `key` fall inside an optional string range?
pub fn in_str_range(key: &str, low: &Option<Bound<String>>, high: &Option<Bound<String>>) -> (b: bool)
    ensures
        b == (above_low(key@, bound_view(*low)) && below_high(key@, bound_view(*high))),
{
    match low {
        Some(Bound::Inclusive(v)) => {
            if str_order(key, v.as_str()) < 0 {
                return false;
            }
        },
        Some(Bound::Exclusive(v)) => {
            if str_order(key, v.as_str()) <= 0 {
                return false;
            }
        },
        None => {},
    }
    match high {
        Some(Bound::Inclusive(v)) => {
            if str_order(key, v.as_str()) > 0 {
                return false;
            }
        },
        Some(Bound::Exclusive(v)) => {
            if str_order(key, v.as_str()) >= 0 {
                return false;
            }
        },
        None => {},
    }
    true
}


/// Whether `a op b` holds for strings, in SQL's string order.
pub open spec fn str_cmp_holds(op: Operator, a: Seq<char>, b: Seq<char>) -> bool {
    match op {
        Operator::Eq => a == b,
        Operator::Lt => lex_order(a, b) < 0,
        Operator::LtEq => lex_order(a, b) <= 0,
        Operator::Gt => lex_order(a, b) > 0,
        Operator::GtEq => lex_order(a, b) >= 0,
        Operator::Other => false,
    }
}

/// What filter `e` says of a row whose filtered column holds the string
/// `key`: a comparison between the column and a string literal (on either
/// side), or a non-negated `BETWEEN` of two string literals. Other shapes
/// are not decided here.
pub open spec fn str_filter_holds(e: Expr, key: Seq<char>) -> bool {
    match e {
        Expr::BinaryExpr { op, .. } => match spec_col_lit(e) {
            Some((_, s, rev)) => match spec_utf8(s) {
                Some(v) => if rev {
                    str_cmp_holds(op, v, key)
                } else {
                    str_cmp_holds(op, key, v)
                },
                None => false,
            },
            None => false,
        },
        Expr::Between { negated, low, high, .. } => match (spec_scalar(*low), spec_scalar(*high)) {
            (Some(l), Some(h)) => match (spec_utf8(l), spec_utf8(h)) {
                (Some(lv), Some(hv)) => !negated && lex_order(lv, key) <= 0 && lex_order(key, hv) <= 0,
                _ => false,
            },
            _ => false,
        },
        _ => false,
    }
}

/// Range pushdown is exact: when a comparison decodes to a string range on
/// a column, a row passes the filter exactly when its value lies in that
/// range, so no row that the provider returns needs filtering again.
pub proof fn law_range_pushdown_exact(e: Expr, columns: Seq<Seq<char>>, key: Seq<char>)
    requires
        spec_range_str(e, columns) is Some,
    ensures
        ({
            let (c, low, high) = spec_range_str(e, columns)->0;
            str_filter_holds(e, key) <==> (above_low(key, low) && below_high(key, high))
        }),
{
    let (c, s, rev) = spec_col_lit(e)->0;
    let v = spec_utf8(s)->0;
    lemma_lex_antisym(v, key);
}

/// `BETWEEN` pushdown is exact: a row passes exactly when its value lies
/// between the two bounds, both included.
pub proof fn law_between_pushdown_exact(e: Expr, columns: Seq<Seq<char>>, key: Seq<char>)
    requires
        spec_between_str(e, columns) is Some,
    ensures
        ({
            let (c, low, high) = spec_between_str(e, columns)->0;
            str_filter_holds(e, key) <==> (above_low(key, low) && below_high(key, high))
        }),
{
    match e {
        Expr::Between { low, high, .. } => {
            let lv = spec_utf8(spec_scalar(*low)->0)->0;
            lemma_lex_antisym(lv, key);
        },
        _ => {},
    }
}

/// Equality pushdown is exact: a row passes exactly when its value is the
/// literal.
pub proof fn law_eq_pushdown_exact(e: Expr, columns: Seq<Seq<char>>, key: Seq<char>)
    requires
        spec_eq_str(e, columns) is Some,
    ensures
        ({
            let (c, v) = spec_eq_str(e, columns)->0;
            str_filter_holds(e, key) <==> key == v
        }),
{
}

} // verus!
