//! A small ledger that runs a metadata-account program and a note program
//! over an account store, applying each transaction atomically.
pub mod address;
pub mod codec;
pub mod engine;
pub mod error;
pub mod instructions;
pub mod laws;
pub mod lifecycle;
pub mod memo_program;
pub mod store;

pub use address::Address;
pub use error::ErrorKind;
pub use memo_program::{memo, Memo};
