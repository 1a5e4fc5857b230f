//! Reachability checks for a small fleet of IPv4 hosts over ICMP echo.
//!
//! The crate is organised around three layers: the packet codec
//! ([`icmp`]), which builds echo-request bytes and reads echo-reply
//! bytes, with the Internet checksum; the single-host ping session
//! ([`session`]), a state machine that correlates one reply among
//! arbitrary traffic under a deadline; and the fleet layer
//! ([`fleet`]), which turns per-host results into ordered outcomes.
//! Presentation helpers live in [`colour`].

pub mod colour;
pub mod fleet;
pub mod icmp;
pub mod session;
