use vstd::prelude::*;

verus! {

/// Structured error values surfaced by every transformation step.
///
/// A failing step aborts the whole pipeline; the caller renders the
/// message for the user. Kinds that point at a specific input carry it:
/// the missing or colliding column name, the unparseable text together
/// with the formats that were attempted.
#[derive(Debug, Clone, PartialEq, Eq)]
pub enum TransformError {
    /// A configured source or second column is absent from the batch
    /// schema; carries the requested name.
    ColumnNotFound(String),
    /// A rule or computation was applied to a physical type it does not support.
    UnsupportedType,
    /// A cell could not be converted to a timestamp; carries the offending
    /// text and the formats that were attempted.
    ParseFailure { value: String, formats: Vec<String> },
    /// A requested output column name collides with an existing one;
    /// carries the colliding name.
    DuplicateOutputName(String),
    /// A zero-row source batch, where a bin or statistic cannot be computed.
    EmptyInput,
    /// Writing the output artifact failed; produced only by the surrounding
    /// application, never by the engine itself.
    IoFailure,
    /// An intermediate value left the range of the machine integers the
    /// engine computes with.
    NumericOverflow,
}

impl TransformError {
    /// A short human-readable description of the error kind.
    pub fn message(&self) -> (r: &'static str)
        ensures
            r@.len() > 0,
    {
        proof {
            reveal_strlit("column not found");
            reveal_strlit("unsupported column type");
            reveal_strlit("unable to parse timestamp");
            reveal_strlit("output column name already exists");
            reveal_strlit("empty input");
            reveal_strlit("failed to write output");
            reveal_strlit("numeric overflow");
        }
        match self {
            TransformError::ColumnNotFound(_) => "column not found",
            TransformError::UnsupportedType => "unsupported column type",
            TransformError::ParseFailure { .. } => "unable to parse timestamp",
            TransformError::DuplicateOutputName(_) => "output column name already exists",
            TransformError::EmptyInput => "empty input",
            TransformError::IoFailure => "failed to write output",
            TransformError::NumericOverflow => "numeric overflow",
        }
    }
}

} // verus!
