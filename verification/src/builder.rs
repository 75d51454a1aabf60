//! The error that builders report.
use vstd::prelude::*;

verus! {

/// Why a builder could not build its value.
#[derive(Debug, Clone, PartialEq, Eq)]
pub enum BuilderError {
    /// A required field was never set; the field's name.
    UninitializedField(&'static str),
    /// The value failed validation; the reason.
    ValidationError(String),
}

/// The message of a builder error.
pub open spec fn builder_error_text(e: BuilderError) -> Seq<char> {
    match e {
        BuilderError::UninitializedField(f) => "`"@ + f@ + "` must be initialized"@,
        BuilderError::ValidationError(s) => s@,
    }
}

impl BuilderError {
    /// The message of the error.
    pub fn message(&self) -> (s: String)
        ensures
            s@ == builder_error_text(*self),
    {
        match self {
            BuilderError::UninitializedField(f) => {
                let s = String::from_str("`");
                let s = s.concat(f);
                s.concat("` must be initialized")
            },
            BuilderError::ValidationError(s) => s.clone(),
        }
    }
}

} // verus!
