//! What the operator of the proxy sets.
use vstd::prelude::*;

verus! {

#[derive(Debug, Clone, Copy, PartialEq, Eq)]
pub struct Config {
    /// The lowest port that ICE may use.
    pub min_port: u16,
    /// The highest port that ICE may use.
    pub max_port: u16,
    /// The IPv4 address under which clients reach the proxy.
    pub public_v4: Option<[u8; 4]>,
    /// The IPv6 address under which clients reach the proxy.
    pub public_v6: Option<[u8; 16]>,
}

impl Config {
    /// The ports that ICE is limited to; none when every port is allowed.
    pub open spec fn ports(self) -> Option<(u16, u16)> {
        if self.min_port == 1 && self.max_port == u16::MAX {
            None
        } else {
            Some((self.min_port, self.max_port))
        }
    }

    /// The ports that ICE is limited to; none when every port is allowed.
    pub fn port_range(&self) -> (range: Option<(u16, u16)>)
        ensures
            range == self.ports(),
    {
        if self.min_port != 1 || self.max_port != u16::MAX {
            Some((self.min_port, self.max_port))
        } else {
            None
        }
    }
}

/// ICE is limited to the operator's ports, unless these are all ports from the first to the last.
pub proof fn law_ports_are_limited(config: Config)
    ensures
        config.ports() is None <==> config.min_port == 1 && config.max_port == 65535,
        config.ports() matches Some(range) ==> range.0 == config.min_port && range.1
            == config.max_port,
{
}

} // verus!
