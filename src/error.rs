use vstd::prelude::*;

verus! {

/// The external error kinds of a registration.
#[derive(Debug, Clone, Copy, PartialEq, Eq, Structural)]
pub enum ApiError {
    /// The wallet input is empty, malformed or of the wrong length.
    InvalidWallet,
    /// A user with the same canonical wallet already exists.
    WalletAlreadyRegistered,
    /// A transaction could not be opened or committed, or storage failed otherwise.
    InternalFailure,
}

impl ApiError {
    /// The HTTP status that the transport layer answers with.
    pub fn status(&self) -> (r: u16)
        ensures
            *self == ApiError::InvalidWallet ==> r == 400,
            *self == ApiError::WalletAlreadyRegistered ==> r == 409,
            *self == ApiError::InternalFailure ==> r == 500,
    {
        match self {
            ApiError::InvalidWallet => 400,
            ApiError::WalletAlreadyRegistered => 409,
            ApiError::InternalFailure => 500,
        }
    }

    /// The machine-stable error code.
    pub fn code(&self) -> (r: &'static str)
        ensures
            r@ == error_code(*self),
    {
        proof {
            reveal_strlit("invalid_wallet");
            reveal_strlit("wallet_already_registered");
            reveal_strlit("internal_error");
        }
        match self {
            ApiError::InvalidWallet => "invalid_wallet",
            ApiError::WalletAlreadyRegistered => "wallet_already_registered",
            ApiError::InternalFailure => "internal_error",
        }
    }

    /// The human-readable message; it never carries storage details.
    pub fn message(&self) -> (r: &'static str)
        ensures
            r@ == error_message(*self),
    {
        proof {
            reveal_strlit("invalid wallet address");
            reveal_strlit("wallet already registered");
            reveal_strlit("internal server error");
        }
        match self {
            ApiError::InvalidWallet => "invalid wallet address",
            ApiError::WalletAlreadyRegistered => "wallet already registered",
            ApiError::InternalFailure => "internal server error",
        }
    }
}

pub open spec fn error_code(e: ApiError) -> Seq<char> {
    match e {
        ApiError::InvalidWallet => "invalid_wallet"@,
        ApiError::WalletAlreadyRegistered => "wallet_already_registered"@,
        ApiError::InternalFailure => "internal_error"@,
    }
}

pub open spec fn error_message(e: ApiError) -> Seq<char> {
    match e {
        ApiError::InvalidWallet => "invalid wallet address"@,
        ApiError::WalletAlreadyRegistered => "wallet already registered"@,
        ApiError::InternalFailure => "internal server error"@,
    }
}

/// How a failed wallet insert is reported: a violation of the wallet's
/// uniqueness constraint is a conflict, anything else is folded into an
/// internal failure. A failure of any other storage step is an internal failure.
pub open spec fn storage_error(unique_violation: bool) -> ApiError {
    if unique_violation {
        ApiError::WalletAlreadyRegistered
    } else {
        ApiError::InternalFailure
    }
}

pub fn from_storage_failure(unique_violation: bool) -> (r: ApiError)
    ensures
        r == storage_error(unique_violation),
{
    if unique_violation {
        ApiError::WalletAlreadyRegistered
    } else {
        ApiError::InternalFailure
    }
}

/// Whether a storage error is a violated unique constraint: a function of the
/// error value alone.
pub uninterp spec fn unique_violation_of(e: sqlx::Error) -> bool;

/// Relies on `sqlx::Error::as_database_error` and `DatabaseError::is_unique_violation`:
/// whether the database reported a violated unique constraint.
#[verifier::external_body]
pub(crate) fn is_unique_violation(e: &sqlx::Error) -> (r: bool)
    ensures
        r == unique_violation_of(*e),
{
    match e.as_database_error() {
        Some(db) => db.is_unique_violation(),
        None => false,
    }
}

/// Maps an error of the wallet insert to an external kind, never leaking its text.
pub fn map_sqlx_error(e: &sqlx::Error) -> (r: ApiError)
    ensures
        r == storage_error(unique_violation_of(*e)),
{
    from_storage_failure(is_unique_violation(e))
}

#[verifier::external_type_specification]
#[verifier::external_body]
pub struct ExSqlxError(sqlx::Error);

} // verus!
