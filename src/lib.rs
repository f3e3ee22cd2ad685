//! A SpaceAPI status server core: a status document assembled from a static
//! baseline and sensor readings kept in a key-value store, a chain of status
//! modifiers, and single-use signed sessions that authorize sensor writes.
use vstd::prelude::*;

pub mod modifiers;
pub mod redis_store;
pub mod response;
pub mod sensors;
pub mod server;
pub mod session;
pub mod status;
pub mod store;
pub mod text;

use crate::text::{parse_decimal, parse_u64};

verus! {

/// The version of this library, reported in every status document.
pub const VERSION: &'static str = "0.5.0";

/// Return own crate version. Used in API responses.
pub fn get_version() -> (r: &'static str)
    ensures
        r@ == VERSION@,
{
    VERSION
}

/// The port served where none is configured.
pub const DEFAULT_PORT: u16 = 3000;

/// The port that a configured text names: a decimal number below 65536, or
/// else the default port.
pub open spec fn configured_port(text: Option<Seq<char>>) -> u16 {
    match text {
        Some(t) => match parse_decimal(t) {
            Some(v) => if v <= 65535 {
                v as u16
            } else {
                DEFAULT_PORT
            },
            None => DEFAULT_PORT,
        },
        None => DEFAULT_PORT,
    }
}

/// The port to listen on, from the configured text (the `PORT` variable of
/// the environment, where it is set).
pub fn port_or_default(text: Option<&str>) -> (r: u16)
    ensures
        r == configured_port(
            match text {
                Some(t) => Some(t@),
                None => None,
            },
        ),
{
    match text {
        Some(t) => match parse_u64(t) {
            Some(v) => if v <= 65535 {
                v as u16
            } else {
                DEFAULT_PORT
            },
            None => DEFAULT_PORT,
        },
        None => DEFAULT_PORT,
    }
}

} // verus!
