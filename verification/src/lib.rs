//! Coordination core for short-lived "raffles": named groups that users join
//! by presenting an opaque identity token. Each raffle assigns join order
//! deterministically, deduplicates repeat joins from the same identity, and
//! is isolated from every other raffle.
//!
//! The [`raffle`] module owns one raffle's membership and sequence
//! assignment; the [`registry`] module owns the mapping from raffle
//! identifier to raffle state and routes join requests. The [`laws`] module
//! states and proves the global properties of those transitions. The
//! remaining modules cover the computations at the edge of the system:
//! response rendering ([`text`]), the join URL and its QR code ([`qr`]),
//! and identity selection from request headers ([`identity`]).

pub mod identity;
pub mod laws;
pub mod qr;
pub mod raffle;
pub mod registry;
pub mod text;
