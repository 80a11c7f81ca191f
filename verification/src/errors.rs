use vstd::prelude::*;

verus! {

/// Why a plan failed.  Every kind ends only the plan that raised it.
#[derive(Debug)]
pub enum EngineError {
    /// The plan names an executor the engine does not implement.
    UnsupportedExecutor(String),
    /// The external process could not be run or exited with failure; the
    /// message carries its error output.
    DispatchFailed(String),
    /// The external process wrote nothing to its standard output.
    EmptyResponse,
    /// The raw output is not a JSON document, or holds a number the
    /// engine cannot compare as an integer.
    MalformedResponse(String),
    /// The response envelope lacks a required field, such as `code`.
    MissingEnvelopeField(String),
    /// The service answered with a nonzero `code`; carries the code and
    /// the textual form of the `data` field.
    ApplicationError(i64, String),
    /// A declared expectation names a field the response does not have.
    MissingExpectedField(String),
    /// A field failed its comparison: field name, expected, actual.
    FieldMismatch(String, String, String),
    /// A substitution token that neither the environment snapshot nor the
    /// overlay binds.
    UnresolvedVariable(String),
    /// The expected value should read as a number but does not.
    MalformedComparisonLiteral(String),
}

/// The model of an `EngineError`.
pub enum ErrorData {
    UnsupportedExecutor(Seq<char>),
    DispatchFailed(Seq<char>),
    EmptyResponse,
    MalformedResponse(Seq<char>),
    MissingEnvelopeField(Seq<char>),
    ApplicationError(int, Seq<char>),
    MissingExpectedField(Seq<char>),
    FieldMismatch(Seq<char>, Seq<char>, Seq<char>),
    UnresolvedVariable(Seq<char>),
    MalformedComparisonLiteral(Seq<char>),
}

impl View for EngineError {
    type V = ErrorData;

    open spec fn view(&self) -> ErrorData {
        match self {
            EngineError::UnsupportedExecutor(s) => ErrorData::UnsupportedExecutor(s@),
            EngineError::DispatchFailed(s) => ErrorData::DispatchFailed(s@),
            EngineError::EmptyResponse => ErrorData::EmptyResponse,
            EngineError::MalformedResponse(s) => ErrorData::MalformedResponse(s@),
            EngineError::MissingEnvelopeField(s) => ErrorData::MissingEnvelopeField(s@),
            EngineError::ApplicationError(c, s) => ErrorData::ApplicationError(*c as int, s@),
            EngineError::MissingExpectedField(s) => ErrorData::MissingExpectedField(s@),
            EngineError::FieldMismatch(f, e, a) => ErrorData::FieldMismatch(f@, e@, a@),
            EngineError::UnresolvedVariable(s) => ErrorData::UnresolvedVariable(s@),
            EngineError::MalformedComparisonLiteral(s) => ErrorData::MalformedComparisonLiteral(
                s@,
            ),
        }
    }
}

} // verus!
