//! Session ids: the token that tells this run's events from those of a
//! stale plugin left by an earlier run.
use vstd::prelude::*;

use crate::text::{digits_of, hex_string};

verus! {

/// Relies on rand::random for the number behind a session id; nothing is
/// promised of its value.
pub assume_specification<T>[ rand::random::<T> ]() -> (r: T)
    where
        rand::distributions::Standard: rand::distributions::Distribution<T>,
;

/// The session id made from the number `n`.
pub open spec fn session_id_of(n: u128) -> Seq<char> {
    "run-in-roblox-"@ + digits_of(n as nat, 16)
}

/// The session id made from `n`: a fixed prefix and `n` in hexadecimal.
pub fn session_id_from(n: u128) -> (r: String)
    ensures
        r@ == session_id_of(n),
{
    let mut id = String::from_str("run-in-roblox-");
    let hex = hex_string(n);
    id.append(hex.as_str());
    id
}

/// A fresh session id, made from a random number.
pub fn new_session_id() -> (r: String)
    ensures
        exists|n: u128| r@ == session_id_of(n),
{
    let n: u128 = rand::random::<u128>();
    session_id_from(n)
}

} // verus!
