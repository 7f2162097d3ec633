//! Chaum-Pedersen zero-knowledge proof of knowledge of a discrete logarithm,
//! together with the verifier-side session bookkeeping that turns the
//! algebraic protocol into an authentication flow.
//!
//! The proof engine (`zkp`) works on arbitrary-precision unsigned integers;
//! every operation carries a contract over the mathematical value of its
//! operands, and the protocol laws (completeness of the verification
//! equations, the congruence satisfied by the response) are proved in `laws`.
//! The `server` module holds the registration / challenge / verification
//! state machine over those operations.

pub mod bignum;
pub mod laws;
pub mod server;
pub mod zkp;
