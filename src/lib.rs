use vstd::prelude::*;

pub mod seq_space;
pub mod tcp;
pub mod wire;

verus! {

/// Maximum transmission unit (MTU) of the link, in bytes.
pub const ETH_MTU: usize = 1500;

/// Size in bytes of the packet-information prefix a TUN device may add.
pub const ETH_HEADER_SIZE: usize = 4;

/// Buffer size to store a packet and its prefix, in bytes.
pub const PACKET_BUF_SIZE: usize = ETH_MTU + ETH_HEADER_SIZE;

/// Link-layer protocol identifiers.
pub enum EtherType {
    Ipv4,
    Ipv6,
}

impl EtherType {
    /// The EtherType code carried on the wire.
    pub fn value(&self) -> (r: u16)
        ensures
            r == (match self {
                EtherType::Ipv4 => 0x0800u16,
                EtherType::Ipv6 => 0x86DDu16,
            }),
    {
        match self {
            EtherType::Ipv4 => 0x0800,
            EtherType::Ipv6 => 0x86DD,
        }
    }
}

/// IP protocol numbers handled by this stack.
pub enum IpNumber {
    Tcp,
}

impl IpNumber {
    /// The protocol number carried in the IPv4 header.
    pub fn value(&self) -> (r: u8)
        ensures
            r == 6,
    {
        match self {
            IpNumber::Tcp => 6,
        }
    }
}

} // verus!
