//! Wallet registration: normalising a wallet address, the decisions of the
//! transactional create of a user and its profile, and the stable error kinds
//! handed to the transport layer.

pub mod error;
pub mod health;
pub mod register;
pub mod store;
pub mod wallet;

pub use error::{map_sqlx_error, ApiError};
pub use health::Health;
pub use register::{Action, Event, RegisterReq, RegisterRes, Registration, Stage, UserRow};
pub use wallet::normalize_and_validate;
