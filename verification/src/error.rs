//! How a handler fails.
use vstd::prelude::*;

verus! {

/// What a handler answers when it does not succeed.
#[derive(Debug)]
pub enum AppError {
    /// The platform refused: a secret that is not there, a parameter that does not bind.
    Worker(String),
    /// A statement failed in the database.
    Database,
    /// The request lacks something or is malformed.
    BadRequest(String),
    /// The caller has not shown who they are.
    Unauthorized(String),
    /// A token could not be signed.
    JsonWebToken,
    /// Anything else.
    Internal,
}

/// An error as a value.
#[verifier::ext_equal]
pub enum Failure {
    Worker(Seq<char>),
    Database,
    BadRequest(Seq<char>),
    Unauthorized(Seq<char>),
    JsonWebToken,
    Internal,
}

impl View for AppError {
    type V = Failure;

    open spec fn view(&self) -> Failure {
        match self {
            AppError::Worker(m) => Failure::Worker(m@),
            AppError::Database => Failure::Database,
            AppError::BadRequest(m) => Failure::BadRequest(m@),
            AppError::Unauthorized(m) => Failure::Unauthorized(m@),
            AppError::JsonWebToken => Failure::JsonWebToken,
            AppError::Internal => Failure::Internal,
        }
    }
}

/// The request is answered with `message`.
pub fn bad_request(message: &str) -> (e: AppError)
    ensures
        e@ == Failure::BadRequest(message@),
{
    AppError::BadRequest(message.to_owned())
}

/// The caller is turned away with `message`.
pub fn unauthorized(message: &str) -> (e: AppError)
    ensures
        e@ == Failure::Unauthorized(message@),
{
    AppError::Unauthorized(message.to_owned())
}

/// An error is taken as it is, with its message.
pub proof fn law_error_is_taken_whole(e: AppError)
    ensures
        match e {
            AppError::Worker(m) => e@ == Failure::Worker(m@),
            AppError::Database => e@ == Failure::Database,
            AppError::BadRequest(m) => e@ == Failure::BadRequest(m@),
            AppError::Unauthorized(m) => e@ == Failure::Unauthorized(m@),
            AppError::JsonWebToken => e@ == Failure::JsonWebToken,
            AppError::Internal => e@ == Failure::Internal,
        },
{
}

} // verus!
