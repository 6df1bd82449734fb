//! Decoding of the option strings that managed callers pass to engine
//! operations.
use vstd::prelude::*;

use crate::storage::same_text;

verus! {

/// Which rows of a group of duplicates `unique` keeps.
#[derive(Debug, PartialEq, Eq, Clone, Copy)]
pub enum KeepStrategy {
    First,
    Last,
    /// Keep no row of a duplicated group.
    DropAll,
    /// Keep any one row of each group.
    Any,
}

/// The keep strategy a flag names: `"none"`, `"first"` and `"last"` name
/// their own; anything else asks for `Any`.
pub fn parse_keep_strategy(flag: &str) -> (r: KeepStrategy)
    ensures
        r == if flag@ == "none"@ {
            KeepStrategy::DropAll
        } else if flag@ == "first"@ {
            KeepStrategy::First
        } else if flag@ == "last"@ {
            KeepStrategy::Last
        } else {
            KeepStrategy::Any
        },
{
    if same_text(flag, "none") {
        KeepStrategy::DropAll
    } else if same_text(flag, "first") {
        KeepStrategy::First
    } else if same_text(flag, "last") {
        KeepStrategy::Last
    } else {
        KeepStrategy::Any
    }
}

/// The column subset an operation works on: all columns when none are named.
pub fn subset_or_all(names: Vec<String>) -> (r: Option<Vec<String>>)
    ensures
        names@.len() == 0 ==> r is None,
        names@.len() > 0 ==> r == Some(names),
{
    if names.len() == 0 {
        None
    } else {
        Some(names)
    }
}

/// Binary expression operators, by the code the managed side sends.
#[derive(Debug, PartialEq, Eq, Clone, Copy)]
pub enum BinaryOperator {
    EqualTo,
    NotEqualTo,
    LessThan,
    LessThanEqualTo,
    GreaterThan,
    GreaterThanEqualTo,
    Or,
    And,
    Plus,
    Minus,
    Multiply,
    Divide,
    Modulus,
}

/// The operator with code `code`: 0 to 12 in declaration order.
pub open spec fn binary_operator_of(code: i32) -> Option<BinaryOperator> {
    if code == 0 {
        Some(BinaryOperator::EqualTo)
    } else if code == 1 {
        Some(BinaryOperator::NotEqualTo)
    } else if code == 2 {
        Some(BinaryOperator::LessThan)
    } else if code == 3 {
        Some(BinaryOperator::LessThanEqualTo)
    } else if code == 4 {
        Some(BinaryOperator::GreaterThan)
    } else if code == 5 {
        Some(BinaryOperator::GreaterThanEqualTo)
    } else if code == 6 {
        Some(BinaryOperator::Or)
    } else if code == 7 {
        Some(BinaryOperator::And)
    } else if code == 8 {
        Some(BinaryOperator::Plus)
    } else if code == 9 {
        Some(BinaryOperator::Minus)
    } else if code == 10 {
        Some(BinaryOperator::Multiply)
    } else if code == 11 {
        Some(BinaryOperator::Divide)
    } else if code == 12 {
        Some(BinaryOperator::Modulus)
    } else {
        None
    }
}

impl BinaryOperator {
    /// Decodes an operator code; `None` for a code that names no operator.
    pub fn from_i32(code: i32) -> (r: Option<BinaryOperator>)
        ensures
            r == binary_operator_of(code),
    {
        match code {
            0 => Some(BinaryOperator::EqualTo),
            1 => Some(BinaryOperator::NotEqualTo),
            2 => Some(BinaryOperator::LessThan),
            3 => Some(BinaryOperator::LessThanEqualTo),
            4 => Some(BinaryOperator::GreaterThan),
            5 => Some(BinaryOperator::GreaterThanEqualTo),
            6 => Some(BinaryOperator::Or),
            7 => Some(BinaryOperator::And),
            8 => Some(BinaryOperator::Plus),
            9 => Some(BinaryOperator::Minus),
            10 => Some(BinaryOperator::Multiply),
            11 => Some(BinaryOperator::Divide),
            12 => Some(BinaryOperator::Modulus),
            _ => None,
        }
    }
}

/// Unary expression operators, by the code the managed side sends.
#[derive(Debug, PartialEq, Eq, Clone, Copy)]
pub enum UnaryOperator {
    Not,
    IsNull,
    IsNotNull,
    IsNan,
    IsNotNan,
    Between,
    IsIn,
    Like,
    Cast,
}

/// The operator with code `code`: 0 to 8 in declaration order.
pub open spec fn unary_operator_of(code: i32) -> Option<UnaryOperator> {
    if code == 0 {
        Some(UnaryOperator::Not)
    } else if code == 1 {
        Some(UnaryOperator::IsNull)
    } else if code == 2 {
        Some(UnaryOperator::IsNotNull)
    } else if code == 3 {
        Some(UnaryOperator::IsNan)
    } else if code == 4 {
        Some(UnaryOperator::IsNotNan)
    } else if code == 5 {
        Some(UnaryOperator::Between)
    } else if code == 6 {
        Some(UnaryOperator::IsIn)
    } else if code == 7 {
        Some(UnaryOperator::Like)
    } else if code == 8 {
        Some(UnaryOperator::Cast)
    } else {
        None
    }
}

impl UnaryOperator {
    /// Decodes an operator code; `None` for a code that names no operator.
    pub fn from_i32(code: i32) -> (r: Option<UnaryOperator>)
        ensures
            r == unary_operator_of(code),
    {
        match code {
            0 => Some(UnaryOperator::Not),
            1 => Some(UnaryOperator::IsNull),
            2 => Some(UnaryOperator::IsNotNull),
            3 => Some(UnaryOperator::IsNan),
            4 => Some(UnaryOperator::IsNotNan),
            5 => Some(UnaryOperator::Between),
            6 => Some(UnaryOperator::IsIn),
            7 => Some(UnaryOperator::Like),
            8 => Some(UnaryOperator::Cast),
            _ => None,
        }
    }

    /// Whether a unary expression can be built with this operator; the
    /// others take more than one operand.
    pub fn is_applicable(&self) -> (r: bool)
        ensures
            r == (*self == UnaryOperator::Not || *self == UnaryOperator::IsNull || *self
                == UnaryOperator::IsNotNull || *self == UnaryOperator::IsNan || *self
                == UnaryOperator::IsNotNan),
    {
        match self {
            UnaryOperator::Not | UnaryOperator::IsNull | UnaryOperator::IsNotNull
            | UnaryOperator::IsNan | UnaryOperator::IsNotNan => true,
            _ => false,
        }
    }
}

/// The offset of a row-index column: the value given where it is positive,
/// else zero.
pub fn row_index_offset(offset: i32) -> (r: u32)
    ensures
        r == if offset > 0 {
            offset as u32
        } else {
            0u32
        },
{
    if offset > 0 {
        offset as u32
    } else {
        0
    }
}

} // verus!
