//! Core engine of a desktop remote-access tool: cancelable session management,
//! host-key trust, multi-method authentication, stream relay and TCP tunnel
//! forwarding, modelled as verified state machines.

pub mod auth;
pub mod commands;
pub mod credential;
pub mod error;
pub mod events;
pub mod models;
pub mod registry;
pub mod session;
pub mod store;
pub mod tunnel;

use vstd::prelude::*;

verus! {

/// The number of characters in a freshly generated record id.
pub const ID_LEN: usize = 21;

/// Relies on nanoid::format with the default generator and the URL-safe
/// 64-symbol alphabet: the alphabet size is a power of two, so one character is
/// produced per random byte and the result has exactly `size` characters.
#[verifier::external_body]
pub(crate) fn fresh_id_of_len(size: usize) -> (r: String)
    ensures
        r@.len() == size,
{
    nanoid::format(nanoid::rngs::default, &nanoid::alphabet::SAFE, size)
}

/// A fresh random record id of the standard length.
pub(crate) fn fresh_id() -> (r: String)
    ensures
        r@.len() == ID_LEN,
{
    fresh_id_of_len(ID_LEN)
}

} // verus!
