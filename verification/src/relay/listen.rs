//! Addresses on which a relay listens.

use vstd::prelude::*;
use vstd::string::StringExecFns;
use crate::text::push_decimal;

verus! {

/// The addresses on which a relay listens: the port over TCP, then over QUIC.
pub fn listen_addresses(port: u16) -> (r: (String, String))
    ensures
        r.0@ == "/ip4/0.0.0.0/tcp/"@ + crate::text::decimal(port as nat),
        r.1@ == "/ip4/0.0.0.0/udp/"@ + crate::text::decimal(port as nat) + "/quic-v1"@,
{
    let mut tcp = "/ip4/0.0.0.0/tcp/".to_owned();
    push_decimal(&mut tcp, port as u64);
    let mut quic = "/ip4/0.0.0.0/udp/".to_owned();
    push_decimal(&mut quic, port as u64);
    quic.append("/quic-v1");
    (tcp, quic)
}

} // verus!
