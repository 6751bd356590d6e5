//! A single-admin registry of non-fungible tokens: the admin mints and burns
//! uniquely numbered tokens, and identifiers are never handed out twice.
pub mod identity;

pub mod registry;

pub mod laws;

pub use identity::Address;
pub use registry::{NftError, NftView, TokenRecord, TokenView, NFT};
