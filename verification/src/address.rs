//! Where the listener binds by default: the loopback interface, port 19532.

use vstd::prelude::*;
use crate::decimal::{decimal_digits, push_decimal};

verus! {

/// The port that the producer connects to unless told otherwise.
pub const DEFAULT_PORT: u16 = 19532;

/// The loopback address with the given port, as text.
pub open spec fn local_address_text(port: u16) -> Seq<char> {
    "127.0.0.1:"@ + decimal_digits(port as nat)
}

/// The loopback address with the given port, in the form `127.0.0.1:port`.
pub fn local_address(port: u16) -> (address: String)
    ensures
        address@ == local_address_text(port),
{
    let mut address = "127.0.0.1:".to_owned();
    push_decimal(&mut address, port as u64);
    address
}

/// The address that the listener binds to by default.
pub fn default_address() -> (address: String)
    ensures
        address@ == local_address_text(DEFAULT_PORT),
{
    local_address(DEFAULT_PORT)
}

} // verus!
