//! Queries: a scanned literal fragment paired with an argument whose
//! shape must match the scanned type tag.

use vstd::prelude::*;

use crate::scanner::scan;
use crate::scanner::scan_spec;
use crate::scanner::ScanError;
use crate::scanner::TypeTag;

verus! {

/// A query argument: a number or a piece of text.
#[derive(Debug)]
pub enum Argument {
    Number(u64),
    String(String),
}

/// A query: a literal fragment together with its argument.
#[derive(Debug)]
pub struct Query<'a> {
    pub fragment: &'a str,
    pub argument: Argument,
}

impl Argument {
    /// The tag under which this argument is accepted.
    pub open spec fn spec_tag(&self) -> TypeTag {
        match self {
            Argument::Number(_) => TypeTag::Number,
            Argument::String(_) => TypeTag::Text,
        }
    }

    /// Returns the tag under which this argument is accepted.
    pub fn tag(&self) -> (t: TypeTag)
        ensures
            t == self.spec_tag(),
    {
        match self {
            Argument::Number(_) => TypeTag::Number,
            Argument::String(_) => TypeTag::Text,
        }
    }
}

/// Why a query could not be built from a format string and an argument.
#[derive(Clone, Copy, Debug, PartialEq, Eq)]
pub enum QueryError {
    /// The format string did not scan.
    Scan(ScanError),
    /// The format string scanned, but its tag declares an argument of the
    /// other shape.
    ArgumentMismatch { expected: TypeTag },
}

/// Builds a query from a format string and an argument: scans the string
/// and accepts the argument only when its shape is the one the scanned
/// tag declares.
pub fn build_query<'a>(format: &'a str, argument: Argument) -> (r: Result<Query<'a>, QueryError>)
    ensures
        ({
            match scan_spec(format@) {
                Err(e) => r == Err::<Query<'a>, QueryError>(QueryError::Scan(e)),
                Ok((_, (prefix, tag))) => if argument.spec_tag() == tag {
                    &&& r matches Ok(q)
                    &&& q.fragment@ == prefix
                    &&& q.argument == argument
                } else {
                    r == Err::<Query<'a>, QueryError>(QueryError::ArgumentMismatch { expected: tag })
                },
            }
        }),
{
    match scan(format) {
        Err(e) => Err(QueryError::Scan(e)),
        Ok((_, (fragment, tag))) => {
            if argument.tag() == tag {
                Ok(Query { fragment, argument })
            } else {
                Err(QueryError::ArgumentMismatch { expected: tag })
            }
        },
    }
}

} // verus!
