use vstd::prelude::*;

verus! {

/// The error taxonomy every operation reports failure through.
///
/// `Unauthenticated` covers a missing, invalid or expired credential;
/// `Forbidden` a valid credential with insufficient role or tenant scope;
/// `NotFound` an entity id that does not resolve; `Validation` a missing
/// required field or duplicate unique key; `InvalidOrExpiredToken` a
/// password-reset token that matches no account or whose expiry has passed;
/// `InternalError` a store failure (for this in-memory store, id exhaustion).
#[derive(Clone, Copy, Debug, PartialEq, Eq, Structural)]
pub enum AppError {
    Unauthenticated,
    Forbidden,
    NotFound,
    Validation,
    InvalidOrExpiredToken,
    InternalError,
}

impl AppError {
    /// A human-readable classification, for error payloads.
    pub fn describe(&self) -> (r: &'static str)
        ensures
            r@ == self.spec_describe(),
    {
        proof {
            reveal_strlit("unauthenticated");
            reveal_strlit("forbidden");
            reveal_strlit("not found");
            reveal_strlit("validation error");
            reveal_strlit("invalid or expired token");
            reveal_strlit("internal error");
        }
        match self {
            AppError::Unauthenticated => "unauthenticated",
            AppError::Forbidden => "forbidden",
            AppError::NotFound => "not found",
            AppError::Validation => "validation error",
            AppError::InvalidOrExpiredToken => "invalid or expired token",
            AppError::InternalError => "internal error",
        }
    }

    pub open spec fn spec_describe(&self) -> Seq<char> {
        match self {
            AppError::Unauthenticated => "unauthenticated"@,
            AppError::Forbidden => "forbidden"@,
            AppError::NotFound => "not found"@,
            AppError::Validation => "validation error"@,
            AppError::InvalidOrExpiredToken => "invalid or expired token"@,
            AppError::InternalError => "internal error"@,
        }
    }
}

} // verus!
