//! The entity model: opaque string identifiers and the three record types
//! (`User`, `Group`, `Payment`), together with the verified claims of an
//! authenticated caller (`Claims`, `AuthState`).

pub mod auth;
mod fresh;
pub mod group;
pub mod payment;
pub mod user;

pub use self::auth::{AuthState, AuthStateView, Claims, ClaimsView};
pub use self::group::{Group, GroupID, GroupView};
pub use self::payment::{Payment, PaymentID, PaymentView};
pub use self::user::{User, UserID, UserView};
