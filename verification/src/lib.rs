//! A fungible-token ledger: a fixed total supply of divisible units held by
//! accounts, moved by direct transfers or through delegated spending
//! allowances. The ledger is a single state machine; every operation either
//! fully commits or fails with a typed error and leaves the state untouched.

mod events;
mod table;
mod token;
mod types;

pub use events::Approval;
pub use events::Event;
pub use events::Transfer;
pub use token::Erc20;
pub use types::AccountId;
pub use types::Balance;
pub use types::Error;
