//! Plain values shared with the service's request-handling side: its
//! error variants with their response payloads, and the authenticated
//! user handed around by the extractors.

use vstd::prelude::*;

verus! {

/// The request-handling side's error variants.
#[derive(Debug, Clone)]
pub enum YTPError {
    ReadError,
    NotFound,
    Unauthorized,
    Sqlx(String),
}

/// The payload serialized into an error response.
pub struct ErrorResponse {
    code: u16,
    message: String,
}

pub struct ErrorResponseView {
    pub code: u16,
    pub message: Seq<char>,
}

impl View for ErrorResponse {
    type V = ErrorResponseView;

    closed spec fn view(&self) -> ErrorResponseView {
        ErrorResponseView { code: self.code, message: self.message@ }
    }
}

/// The status code of each error variant.
pub open spec fn spec_status_code(e: YTPError) -> u16 {
    match e {
        YTPError::ReadError => 500u16,
        YTPError::NotFound => 404u16,
        YTPError::Unauthorized => 401u16,
        YTPError::Sqlx(_) => 500u16,
    }
}

/// The message of each error variant.
pub open spec fn spec_message(e: YTPError) -> Seq<char> {
    match e {
        YTPError::ReadError => "Internal error"@,
        YTPError::NotFound => "Not found"@,
        YTPError::Unauthorized => "Unauthorized"@,
        YTPError::Sqlx(message) => message@,
    }
}

impl YTPError {
    fn status_code(&self) -> (c: u16)
        ensures
            c == spec_status_code(*self),
    {
        match self {
            YTPError::ReadError => 500,
            YTPError::NotFound => 404,
            YTPError::Unauthorized => 401,
            YTPError::Sqlx(_) => 500,
        }
    }

    /// The response payload for this error: its status code and message.
    pub fn get(&self) -> (r: ErrorResponse)
        ensures
            r@.code == spec_status_code(*self),
            r@.message == spec_message(*self),
    {
        match self {
            YTPError::ReadError => ErrorResponse {
                code: self.status_code(),
                message: "Internal error".to_owned(),
            },
            YTPError::NotFound => ErrorResponse {
                code: self.status_code(),
                message: "Not found".to_owned(),
            },
            YTPError::Unauthorized => ErrorResponse {
                code: self.status_code(),
                message: "Unauthorized".to_owned(),
            },
            YTPError::Sqlx(message) => ErrorResponse {
                code: self.status_code(),
                message: message.clone(),
            },
        }
    }
}

impl ErrorResponse {
    pub fn code(&self) -> (c: u16)
        ensures
            c == self@.code,
    {
        self.code
    }

    pub fn message(&self) -> (m: &str)
        ensures
            m@ == self@.message,
    {
        self.message.as_str()
    }
}

/// A logged-in user, as a request extractor produces it.
#[derive(Debug, Clone)]
pub struct AuthUser {
    pub id: i64,
}

/// A possibly logged-in user: `None` when no credential was presented.
pub struct MaybeAuthUser(pub Option<AuthUser>);

impl MaybeAuthUser {
    /// The user's id, when one is logged in.
    pub fn user_id(&self) -> (r: Option<i64>)
        ensures
            r == match self.0 {
                Option::Some(user) => Option::Some(user.id),
                Option::None => Option::None::<i64>,
            },
    {
        match &self.0 {
            Option::Some(user) => Option::Some(user.id),
            Option::None => Option::None,
        }
    }
}

} // verus!
