//! Response shapes of the server and of Firebase auth, and the message
//! that a user-facing server error shows.
use vstd::prelude::*;
use crate::text::{append_str, push_signed_decimal, signed_decimal};

verus! {

/// Format for error response payloads for Google APIs (both
/// `POST /v1/accounts/lookup` and `POST /v1/token`).
#[derive(Debug, Clone)]
pub struct FirebaseError {
    pub code: i32,
    pub message: String,
}

pub open spec fn firebase_error_text(e: FirebaseError) -> Seq<char> {
    "Firebase request failed with status "@ + signed_decimal(e.code as int) + " and message: "@
        + e.message@
}

impl FirebaseError {
    /// The error as it is displayed.
    pub fn to_string(&self) -> (r: String)
        ensures
            r@ == firebase_error_text(*self),
    {
        let mut s = String::new();
        append_str(&mut s, "Firebase request failed with status ");
        push_signed_decimal(&mut s, self.code as i64);
        append_str(&mut s, " and message: ");
        append_str(&mut s, self.message.as_str());
        s
    }
}

/// The possible responses to fetching an access token from a refresh
/// token.
#[derive(Debug, Clone)]
pub enum FetchAccessTokenResponse {
    Success { expires_in: String, id_token: String, refresh_token: String },
    Error { error: FirebaseError },
}

/// The message part of a user-facing server error.
#[derive(Debug, Clone)]
pub struct UserFacingErrorDetail {
    pub message: String,
}

/// The kinds of user-facing errors the server reports.
#[derive(Debug, Clone)]
pub enum UserFacingErrorInterface {
    SharedObjectsLimitExceeded(UserFacingErrorDetail),
    PersonalObjectsLimitExceeded(UserFacingErrorDetail),
    AccountDelinquencyError(UserFacingErrorDetail),
    GenericStringObjectUniqueKeyConflict(UserFacingErrorDetail),
    BudgetExceededError(UserFacingErrorDetail),
    PaymentMethodDeclinedError(UserFacingErrorDetail),
    InvalidAttachmentError(UserFacingErrorDetail),
    Unknown(UserFacingErrorDetail),
}

#[derive(Debug, Clone)]
pub struct UserFacingError {
    pub error: UserFacingErrorInterface,
}

/// The message that every kind of user-facing error carries.
pub open spec fn error_detail(e: UserFacingErrorInterface) -> UserFacingErrorDetail {
    match e {
        UserFacingErrorInterface::SharedObjectsLimitExceeded(d) => d,
        UserFacingErrorInterface::PersonalObjectsLimitExceeded(d) => d,
        UserFacingErrorInterface::AccountDelinquencyError(d) => d,
        UserFacingErrorInterface::GenericStringObjectUniqueKeyConflict(d) => d,
        UserFacingErrorInterface::BudgetExceededError(d) => d,
        UserFacingErrorInterface::PaymentMethodDeclinedError(d) => d,
        UserFacingErrorInterface::InvalidAttachmentError(d) => d,
        UserFacingErrorInterface::Unknown(d) => d,
    }
}

/// Returns a user-facing error message for the given error: its own
/// message, whatever its kind.
pub fn get_user_facing_error_message(e: UserFacingError) -> (r: String)
    ensures
        r == error_detail(e.error).message,
{
    match e.error {
        UserFacingErrorInterface::SharedObjectsLimitExceeded(e) => e.message,
        UserFacingErrorInterface::PersonalObjectsLimitExceeded(e) => e.message,
        UserFacingErrorInterface::AccountDelinquencyError(e) => e.message,
        UserFacingErrorInterface::GenericStringObjectUniqueKeyConflict(e) => e.message,
        UserFacingErrorInterface::BudgetExceededError(e) => e.message,
        UserFacingErrorInterface::PaymentMethodDeclinedError(e) => e.message,
        UserFacingErrorInterface::InvalidAttachmentError(e) => e.message,
        UserFacingErrorInterface::Unknown(fallback) => fallback.message,
    }
}

} // verus!
