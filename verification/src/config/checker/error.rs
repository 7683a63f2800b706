use crate::config::symboltable::{SymbolTableError, SymbolTableErrorView};
use crate::util::text::{decimal, push_decimal};
use vstd::prelude::*;
use vstd::std_specs::convert::FromSpecImpl;
use vstd::string::*;

verus! {

/// The bounds that a number was expected to keep.
#[allow(dead_code)]
#[derive(Debug, Clone, Copy, PartialEq, Eq, Structural)]
pub enum NumBoundary {
    Greater(i32),
    GreaterOrEqual(i32),
    LessOrEqual(i32),
    Less(i32),
    BetweenStartExclusive(i32, i32),
    BetweenEndExclusive(i32, i32),
    BetweenBothExclusive(i32, i32),
}

impl NumBoundary {
    /// The bounds in words.
    pub open spec fn text(self) -> Seq<char> {
        match self {
            NumBoundary::Greater(lo) => "greater than "@ + decimal(lo as int),
            NumBoundary::GreaterOrEqual(lo) => "greater or equal than "@ + decimal(lo as int),
            NumBoundary::LessOrEqual(hi) => "less or equal than "@ + decimal(hi as int),
            NumBoundary::Less(hi) => "less than "@ + decimal(hi as int),
            NumBoundary::BetweenStartExclusive(lo, hi) => "greater than "@ + decimal(lo as int)
                + " and less or equal than "@ + decimal(hi as int),
            NumBoundary::BetweenEndExclusive(lo, hi) => "greater or equal than "@ + decimal(
                lo as int,
            ) + " and less than "@ + decimal(hi as int),
            NumBoundary::BetweenBothExclusive(lo, hi) => "between "@ + decimal(lo as int)
                + " and "@ + decimal(hi as int),
        }
    }

    pub fn as_str(&self) -> (text: String)
        ensures
            text@ == self.text(),
    {
        match self {
            NumBoundary::Greater(lo) => {
                let mut text = String::from_str("greater than ");
                push_decimal(&mut text, *lo as i64);
                text
            },
            NumBoundary::GreaterOrEqual(lo) => {
                let mut text = String::from_str("greater or equal than ");
                push_decimal(&mut text, *lo as i64);
                text
            },
            NumBoundary::LessOrEqual(hi) => {
                let mut text = String::from_str("less or equal than ");
                push_decimal(&mut text, *hi as i64);
                text
            },
            NumBoundary::Less(hi) => {
                let mut text = String::from_str("less than ");
                push_decimal(&mut text, *hi as i64);
                text
            },
            NumBoundary::BetweenStartExclusive(lo, hi) => {
                let mut text = String::from_str("greater than ");
                push_decimal(&mut text, *lo as i64);
                text.append(" and less or equal than ");
                push_decimal(&mut text, *hi as i64);
                text
            },
            NumBoundary::BetweenEndExclusive(lo, hi) => {
                let mut text = String::from_str("greater or equal than ");
                push_decimal(&mut text, *lo as i64);
                text.append(" and less than ");
                push_decimal(&mut text, *hi as i64);
                text
            },
            NumBoundary::BetweenBothExclusive(lo, hi) => {
                let mut text = String::from_str("between ");
                push_decimal(&mut text, *lo as i64);
                text.append(" and ");
                push_decimal(&mut text, *hi as i64);
                text
            },
        }
    }
}

/// A rule file that names its symbols rightly and still makes no sense.
#[derive(Debug, Clone, Copy, PartialEq, Eq, Structural)]
pub enum SemanticError {
    /// A rule with a one-sided trigger sets an output to a range.
    BetweenActionInUnboundedRule,
    /// A number does not keep the bounds; the number comes second.
    NumberOutOfBounds(NumBoundary, i32),
    /// A percentage that is not between 0 and 100.
    InvalidPercent(i32),
}

impl SemanticError {
    /// The error in words.
    pub open spec fn text(self) -> Seq<char> {
        match self {
            SemanticError::BetweenActionInUnboundedRule => {
                "Use of BETWEEN operator in action inside an rule without a BETWEEN trigger."@
            },
            SemanticError::NumberOutOfBounds(boundary, got) => "Expected a number "@
                + boundary.text() + ", but "@ + decimal(got as int) + " got."@,
            SemanticError::InvalidPercent(got) => {
                "Invalid percent value. Expected a value between 0% and 100%, but "@ + decimal(
                    got as int,
                ) + "% got."@
            },
        }
    }

    /// The diagnostic that reports the error.
    pub open spec fn message(self) -> Seq<char> {
        "Semantic Error: "@ + self.text()
    }

    pub fn as_str(&self) -> (text: String)
        ensures
            text@ == self.text(),
    {
        match self {
            SemanticError::BetweenActionInUnboundedRule => String::from_str(
                "Use of BETWEEN operator in action inside an rule without a BETWEEN trigger.",
            ),
            SemanticError::NumberOutOfBounds(boundary, got) => {
                let mut text = String::from_str("Expected a number ");
                let bounds = boundary.as_str();
                text.append(bounds.as_str());
                text.append(", but ");
                push_decimal(&mut text, *got as i64);
                text.append(" got.");
                text
            },
            SemanticError::InvalidPercent(got) => {
                let mut text = String::from_str(
                    "Invalid percent value. Expected a value between 0% and 100%, but ",
                );
                push_decimal(&mut text, *got as i64);
                text.append("% got.");
                text
            },
        }
    }

    /// The diagnostic that reports the error.
    pub fn to_string(&self) -> (text: String)
        ensures
            text@ == self.message(),
    {
        let mut text = String::from_str("Semantic Error: ");
        let detail = self.as_str();
        text.append(detail.as_str());
        text
    }
}

/// Why a rule file was not accepted.
pub enum ProgramCheckError {
    SymbolTableError(SymbolTableError),
    SemanticError(SemanticError),
    /// Any other failure, in words.
    Other(String),
}

/// A `ProgramCheckError` with its texts as character sequences.
pub enum ProgramCheckErrorView {
    SymbolTableError(SymbolTableErrorView),
    SemanticError(SemanticError),
    Other(Seq<char>),
}

impl ProgramCheckErrorView {
    /// The diagnostic that reports the error.
    pub open spec fn message(self) -> Seq<char> {
        match self {
            ProgramCheckErrorView::SymbolTableError(error) => error.message(),
            ProgramCheckErrorView::SemanticError(error) => error.message(),
            ProgramCheckErrorView::Other(text) => text,
        }
    }
}

impl View for ProgramCheckError {
    type V = ProgramCheckErrorView;

    open spec fn view(&self) -> ProgramCheckErrorView {
        match self {
            ProgramCheckError::SymbolTableError(error) => ProgramCheckErrorView::SymbolTableError(
                error@,
            ),
            ProgramCheckError::SemanticError(error) => ProgramCheckErrorView::SemanticError(*error),
            ProgramCheckError::Other(text) => ProgramCheckErrorView::Other(text@),
        }
    }
}

impl ProgramCheckError {
    /// The diagnostic that reports the error.
    pub fn to_string(&self) -> (text: String)
        ensures
            text@ == self@.message(),
    {
        match self {
            ProgramCheckError::SymbolTableError(error) => error.to_string(),
            ProgramCheckError::SemanticError(error) => error.to_string(),
            ProgramCheckError::Other(text) => text.clone(),
        }
    }
}

impl From<SymbolTableError> for ProgramCheckError {
    fn from(e: SymbolTableError) -> (error: Self) {
        ProgramCheckError::SymbolTableError(e)
    }
}

impl FromSpecImpl<SymbolTableError> for ProgramCheckError {
    open spec fn obeys_from_spec() -> bool {
        true
    }

    open spec fn from_spec(e: SymbolTableError) -> Self {
        ProgramCheckError::SymbolTableError(e)
    }
}

pub type ProgramCheckResult<T> = Result<T, ProgramCheckError>;

} // verus!
