//! Identity codec and signed-message envelope for the Sutera network.
//!
//! An identity is a kind, an optional display name and a 32-byte ed25519
//! verifying key; its canonical text form is
//! `<kind>[@<display_name>].sutera-identity-v1.<64 hex chars>`.
//! A signed message binds an identity to a message through an ed25519
//! signature over the message bytes.

pub mod crypto;
pub mod hexcode;
pub mod identity;
pub mod message;
