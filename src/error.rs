//! The single error of the structural pass.
use vstd::prelude::*;

verus! {

/// The rule of structural schemas that an input breaks.
#[derive(Clone, Copy, Debug, PartialEq, Eq, Structural)]
pub enum Violation {
    /// `items` holds a list of schemas where one schema is required.
    ItemsNotSchema,
    /// `type` holds a list of types where one type is required.
    TypeNotSingle,
    /// A branch declares a type other than the one of the node it is merged into.
    TypeMismatch,
    /// A property that a branch constrains is a boolean leaf in the node it is merged into.
    PropertyNotSchema,
}

impl Violation {
    /// The reason given for this violation.
    pub fn reason(&self) -> (r: &'static str)
        ensures
            *self == Violation::ItemsNotSchema ==> r@ == "`items` must be a schema object and not an array"@,
            *self == Violation::TypeNotSingle ==> r@ == "`type` must be a type and not an array"@,
            *self == Violation::TypeMismatch ==> r@ == "`type` must be same as parent"@,
            *self == Violation::PropertyNotSchema ==> r@ == "value in `properties` must be a schema object and not an bool"@,
    {
        match self {
            Violation::ItemsNotSchema => "`items` must be a schema object and not an array",
            Violation::TypeNotSingle => "`type` must be a type and not an array",
            Violation::TypeMismatch => "`type` must be same as parent",
            Violation::PropertyNotSchema => "value in `properties` must be a schema object and not an bool",
        }
    }
}

/// The error of the structural pass: the input is not a valid custom resource
/// schema, for the reason held.
#[derive(Clone, Copy, Debug, PartialEq, Eq, Structural)]
pub enum Error {
    InvalidCustomResourceDefinition { reason: Violation },
}

impl Error {
    pub open spec fn violation(self) -> Violation {
        match self {
            Error::InvalidCustomResourceDefinition { reason } => reason,
        }
    }

    /// The reason given for this error.
    pub fn reason(&self) -> (r: &'static str)
        ensures
            self.violation() == Violation::ItemsNotSchema ==> r@ == "`items` must be a schema object and not an array"@,
            self.violation() == Violation::TypeNotSingle ==> r@ == "`type` must be a type and not an array"@,
            self.violation() == Violation::TypeMismatch ==> r@ == "`type` must be same as parent"@,
            self.violation() == Violation::PropertyNotSchema ==> r@ == "value in `properties` must be a schema object and not an bool"@,
    {
        match self {
            Error::InvalidCustomResourceDefinition { reason } => reason.reason(),
        }
    }
}

} // verus!
