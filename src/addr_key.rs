//! The 18-byte key that names a client flow on the wire: the client's IP in
//! the first 16 bytes (IPv4 in the first four, then zeros) and its port,
//! big-endian, in the last two.
use crate::frame::{be16, ADDR_KEY_SIZE, PORT_START};
use vstd::prelude::*;

verus! {

/// The IP address of a client, as its octets.
#[derive(Clone, Copy, Debug)]
pub enum ClientIp {
    V4([u8; 4]),
    V6([u8; 16]),
}

/// The address of a client: its IP and port.
#[derive(Clone, Copy, Debug)]
pub struct ClientAddr {
    pub ip: ClientIp,
    pub port: u16,
}

/// The 16 bytes that an IP takes in a key.
pub open spec fn ip_bytes(ip: ClientIp) -> Seq<u8> {
    match ip {
        ClientIp::V4(o) => o@ + Seq::new(12, |i: int| 0u8),
        ClientIp::V6(o) => o@,
    }
}

/// The key of a client address.
pub open spec fn addr_key(addr: ClientAddr) -> Seq<u8> {
    ip_bytes(addr.ip) + be16(addr.port as nat)
}

/// Computes the address key of a client.
pub fn create_raw_addr(addr: &ClientAddr) -> (r: [u8; ADDR_KEY_SIZE])
    ensures
        r@ == addr_key(*addr),
{
    let mut key = [0u8; ADDR_KEY_SIZE];
    match addr.ip {
        ClientIp::V4(o) => {
            let mut i: usize = 0;
            while i < 4
                invariant
                    i <= 4,
                    forall|k: int| 0 <= k < i ==> key@[k] == o@[k],
                    forall|k: int| 4 <= k < ADDR_KEY_SIZE ==> key@[k] == 0,
                decreases 4 - i,
            {
                key[i] = o[i];
                i = i + 1;
            }
        },
        ClientIp::V6(o) => {
            let mut i: usize = 0;
            while i < 16
                invariant
                    i <= 16,
                    forall|k: int| 0 <= k < i ==> key@[k] == o@[k],
                decreases 16 - i,
            {
                key[i] = o[i];
                i = i + 1;
            }
        },
    }
    key[PORT_START] = (addr.port / 256) as u8;
    key[PORT_START + 1] = (addr.port % 256) as u8;
    assert(key@ =~= addr_key(*addr));
    key
}

/// The port that a key holds.
pub fn key_port(key: &[u8; ADDR_KEY_SIZE]) -> (r: u16)
    ensures
        r as nat == (key@[16] as nat) * 256 + (key@[17] as nat),
{
    (key[PORT_START] as u16) * 256 + (key[PORT_START + 1] as u16)
}

} // verus!
