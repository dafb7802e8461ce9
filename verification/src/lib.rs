//! Client-side primitives for a Secure Remote Password (SRP) exchange:
//! the proof calculation used to log in with a two-factor password, the
//! salted-hash chain it depends on, validation of server-supplied safe-prime
//! groups, generation of new password verifier hashes, and the compact
//! fixed-layout peer-reference encoding used by the session layer.

pub mod byteseq;
pub mod bigint;
pub mod hashes;
pub mod two_factor_auth;
pub mod password_token;
pub mod packed_chat;
pub mod login_token;
