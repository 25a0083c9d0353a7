//! Verified core of a keyboard-layout mismatch corrector.
//!
//! The library detects text that was typed with the wrong keyboard layout
//! active (Latin keys pressed while Cyrillic output was intended), computes a
//! confidence ratio from a fixed vocabulary, remaps such text to the intended
//! alphabet, and drives a monotonic cursor over a paginated event feed.  All
//! transport, file reading and logging stay outside the library; it works on
//! plain values handed in by its caller.

pub mod detect;
pub mod feed;
pub mod layout;
pub mod text;
pub mod vocab;
