//! The ways in which a search can fail.

use vstd::prelude::*;
use vstd::string::*;
use crate::text::{prefixed, signed_decimal_of};

verus! {

/// The kinds of failure. Each is final for the call that meets it; nothing is
/// tried again.
#[derive(Clone, Debug, PartialEq, Eq)]
pub enum ErrType {
    /// A value that the caller passed did not pass the checks made before a
    /// request is built: the number of results or the minimum similarity.
    InvalidParameters(String),
    /// The address of the request was malformed, or a number in the answer of
    /// the service could not be read.
    InvalidParse(String),
    /// The local image could not be read.
    InvalidFile(String),
    /// The body of the answer did not have the expected structure.
    InvalidSerde(String),
    /// The service reported a negative status.
    InvalidCode {
        /// The status as reported.
        code: i32,
        /// The message as reported.
        message: String,
    },
    /// The request could not be carried out.
    InvalidRequest(String),
}

/// What an `ErrType` holds, as mathematical values.
pub enum ErrTypeView {
    InvalidParameters(Seq<char>),
    InvalidParse(Seq<char>),
    InvalidFile(Seq<char>),
    InvalidSerde(Seq<char>),
    InvalidCode { code: int, message: Seq<char> },
    InvalidRequest(Seq<char>),
}

impl View for ErrType {
    type V = ErrTypeView;

    open spec fn view(&self) -> ErrTypeView {
        match self {
            ErrType::InvalidParameters(reason) => ErrTypeView::InvalidParameters(reason@),
            ErrType::InvalidParse(reason) => ErrTypeView::InvalidParse(reason@),
            ErrType::InvalidFile(reason) => ErrTypeView::InvalidFile(reason@),
            ErrType::InvalidSerde(reason) => ErrTypeView::InvalidSerde(reason@),
            ErrType::InvalidCode { code, message } => ErrTypeView::InvalidCode {
                code: *code as int,
                message: message@,
            },
            ErrType::InvalidRequest(reason) => ErrTypeView::InvalidRequest(reason@),
        }
    }
}

/// The text that describes a failure to a reader.
pub open spec fn description_of(kind: ErrTypeView) -> Seq<char> {
    match kind {
        ErrTypeView::InvalidParameters(reason) => "Invalid parameters were given: "@ + reason,
        ErrTypeView::InvalidParse(reason) => "Could not properly parse a value: "@ + reason,
        ErrTypeView::InvalidFile(reason) => "Could not properly read the image file: "@ + reason,
        ErrTypeView::InvalidSerde(reason) => "Could not properly serde results: "@ + reason,
        ErrTypeView::InvalidCode { code, message } => "Recieved an invalid status code "@
            + signed_decimal_of(code) + " after API call with message: \""@ + message + "\""@,
        ErrTypeView::InvalidRequest(reason) =>
            "Failed to make a request from the given settings: "@ + reason,
    }
}

impl ErrType {
    /// Describes the failure in a sentence.
    pub fn to_string(&self) -> (r: String)
        ensures
            r@ == description_of(self@),
    {
        match self {
            ErrType::InvalidParameters(reason) => prefixed(
                "Invalid parameters were given: ",
                reason,
            ),
            ErrType::InvalidParse(reason) => prefixed(
                "Could not properly parse a value: ",
                reason,
            ),
            ErrType::InvalidFile(reason) => prefixed(
                "Could not properly read the image file: ",
                reason,
            ),
            ErrType::InvalidSerde(reason) => prefixed("Could not properly serde results: ", reason),
            ErrType::InvalidCode { code, message } => {
                let mut out = String::from_str("Recieved an invalid status code ");
                let number = crate::text::signed_decimal(*code as i64);
                out.append(number.as_str());
                out.append(" after API call with message: \"");
                out.append(message.as_str());
                out.append("\"");
                out
            },
            ErrType::InvalidRequest(reason) => prefixed(
                "Failed to make a request from the given settings: ",
                reason,
            ),
        }
    }
}

/// A failure of a search.
#[derive(Debug)]
pub struct Error {
    kind: ErrType,
}

impl View for Error {
    type V = ErrTypeView;

    closed spec fn view(&self) -> ErrTypeView {
        self.kind@
    }
}

impl Error {
    /// The kind of this failure.
    pub fn kind(&self) -> (r: &ErrType)
        ensures
            r@ == self@,
    {
        &self.kind
    }

    /// Describes the failure in a sentence.
    pub fn to_string(&self) -> (r: String)
        ensures
            r@ == description_of(self@),
    {
        self.kind.to_string()
    }

    /// A failure of the given kind.
    pub fn new(kind: ErrType) -> (r: Error)
        ensures
            r@ == kind@,
    {
        Error { kind }
    }

    /// A value of the caller did not pass the checks before a request.
    pub fn invalid_parameters(reason: String) -> (r: Error)
        ensures
            r@ == ErrTypeView::InvalidParameters(reason@),
    {
        Error { kind: ErrType::InvalidParameters(reason) }
    }

    /// An address or a number could not be read.
    pub fn invalid_parse(reason: String) -> (r: Error)
        ensures
            r@ == ErrTypeView::InvalidParse(reason@),
    {
        Error { kind: ErrType::InvalidParse(reason) }
    }

    /// The local image could not be read.
    pub fn invalid_file(reason: String) -> (r: Error)
        ensures
            r@ == ErrTypeView::InvalidFile(reason@),
    {
        Error { kind: ErrType::InvalidFile(reason) }
    }

    /// The answer did not have the expected structure.
    pub fn invalid_serde(reason: String) -> (r: Error)
        ensures
            r@ == ErrTypeView::InvalidSerde(reason@),
    {
        Error { kind: ErrType::InvalidSerde(reason) }
    }

    /// The service reported the negative status `code` with `message`.
    pub fn invalid_code(code: i32, message: String) -> (r: Error)
        ensures
            r@ == (ErrTypeView::InvalidCode { code: code as int, message: message@ }),
    {
        Error { kind: ErrType::InvalidCode { code, message } }
    }

    /// The request could not be carried out.
    pub fn invalid_request(reason: String) -> (r: Error)
        ensures
            r@ == ErrTypeView::InvalidRequest(reason@),
    {
        Error { kind: ErrType::InvalidRequest(reason) }
    }
}

} // verus!
