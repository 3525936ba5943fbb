//! The closed set of failures and their translation into a status code and a
//! human-readable message.
use vstd::prelude::*;
use vstd::string::*;

verus! {

/// The kind of record that an error names.
#[derive(Clone, Copy, Debug, PartialEq, Eq, Structural)]
pub enum EntityKind {
    Question,
    Answer,
}

/// Every failure of the pagination extractor, the store and the routes.
#[derive(Debug, PartialEq, Eq)]
pub enum Error {
    /// A pagination value that is not a non-negative integer: field, raw value.
    ParseError(String, String),
    /// A pagination key present without its counterpart.
    MissingParameters,
    /// A record that breaks a rule of the data model, with the reason.
    InvalidInput(String),
    /// No record of this kind has this id.
    NotFound(EntityKind, String),
    /// A record of this kind already has this id.
    Duplicate(EntityKind, String),
    /// The operation would break a link between records, with the reason.
    Conflict(String),
    /// A cross-origin request that the policy forbids.
    CorsRejected,
    /// Anything not classified: reported as a missing route.
    Unhandled,
}

/// Model of an error: every string as its sequence of characters.
pub enum ErrorModel {
    ParseError(Seq<char>, Seq<char>),
    MissingParameters,
    InvalidInput(Seq<char>),
    NotFound(EntityKind, Seq<char>),
    Duplicate(EntityKind, Seq<char>),
    Conflict(Seq<char>),
    CorsRejected,
    Unhandled,
}

impl View for Error {
    type V = ErrorModel;

    open spec fn view(&self) -> ErrorModel {
        match self {
            Error::ParseError(f, v) => ErrorModel::ParseError(f@, v@),
            Error::MissingParameters => ErrorModel::MissingParameters,
            Error::InvalidInput(r) => ErrorModel::InvalidInput(r@),
            Error::NotFound(k, id) => ErrorModel::NotFound(*k, id@),
            Error::Duplicate(k, id) => ErrorModel::Duplicate(*k, id@),
            Error::Conflict(r) => ErrorModel::Conflict(r@),
            Error::CorsRejected => ErrorModel::CorsRejected,
            Error::Unhandled => ErrorModel::Unhandled,
        }
    }
}

/// The model of a result whose error is an `Error`.
pub open spec fn res_view<T: View>(r: Result<T, Error>) -> Result<T::V, ErrorModel> {
    match r {
        Ok(v) => Ok(v@),
        Err(e) => Err(e@),
    }
}

pub open spec fn kind_name(k: EntityKind) -> Seq<char> {
    match k {
        EntityKind::Question => "Question"@,
        EntityKind::Answer => "Answer"@,
    }
}

/// The HTTP status code of each kind of failure.
pub open spec fn status_of(e: ErrorModel) -> u16 {
    match e {
        ErrorModel::ParseError(_, _) => 416,
        ErrorModel::MissingParameters => 416,
        ErrorModel::InvalidInput(_) => 400,
        ErrorModel::NotFound(_, _) => 404,
        ErrorModel::Duplicate(_, _) => 409,
        ErrorModel::Conflict(_) => 409,
        ErrorModel::CorsRejected => 403,
        ErrorModel::Unhandled => 404,
    }
}

/// The message of each failure, built from its payload.
pub open spec fn message_of(e: ErrorModel) -> Seq<char> {
    match e {
        ErrorModel::ParseError(f, v) => "Cannot parse parameter: "@ + f + " = "@ + v,
        ErrorModel::MissingParameters => "Missing Parameter"@,
        ErrorModel::InvalidInput(r) => "Invalid input: "@ + r,
        ErrorModel::NotFound(k, id) => kind_name(k) + " "@ + id + " not found"@,
        ErrorModel::Duplicate(k, id) => kind_name(k) + " "@ + id + " already exists"@,
        ErrorModel::Conflict(r) => "Conflict: "@ + r,
        ErrorModel::CorsRejected => "Cross-origin request forbidden"@,
        ErrorModel::Unhandled => "Route not found"@,
    }
}

fn kind_label(k: EntityKind) -> (r: String)
    ensures
        r@ == kind_name(k),
{
    match k {
        EntityKind::Question => String::from_str("Question"),
        EntityKind::Answer => String::from_str("Answer"),
    }
}

/// The status code and message that a failure is reported with.
pub fn translate(err: &Error) -> (r: (u16, String))
    ensures
        r.0 == status_of(err@),
        r.1@ == message_of(err@),
{
    match err {
        Error::ParseError(f, v) => {
            let mut m = String::from_str("Cannot parse parameter: ");
            m.append(f.as_str());
            m.append(" = ");
            m.append(v.as_str());
            (416, m)
        },
        Error::MissingParameters => (416, String::from_str("Missing Parameter")),
        Error::InvalidInput(reason) => {
            let mut m = String::from_str("Invalid input: ");
            m.append(reason.as_str());
            (400, m)
        },
        Error::NotFound(k, id) => {
            let mut m = kind_label(*k);
            m.append(" ");
            m.append(id.as_str());
            m.append(" not found");
            (404, m)
        },
        Error::Duplicate(k, id) => {
            let mut m = kind_label(*k);
            m.append(" ");
            m.append(id.as_str());
            m.append(" already exists");
            (409, m)
        },
        Error::Conflict(reason) => {
            let mut m = String::from_str("Conflict: ");
            m.append(reason.as_str());
            (409, m)
        },
        Error::CorsRejected => (403, String::from_str("Cross-origin request forbidden")),
        Error::Unhandled => (404, String::from_str("Route not found")),
    }
}

} // verus!
