//! Verified core of the murm messaging client: signed events (MIP-01/02),
//! event kinds and tags (MIP-04), relay filters and requests (MIP-03),
//! author profiles and Ed25519 identities.
pub mod encoding;
pub mod crypto;
pub mod text;
pub mod identity;
pub mod event;
pub mod config;
pub mod relay;
pub mod display;
pub mod clock;
