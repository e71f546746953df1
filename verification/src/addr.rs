//! IP addresses and networks.
use vstd::arithmetic::power2::pow2;
use vstd::prelude::*;

verus! {

/// An IP address, as a number.
#[derive(Debug, Clone, Copy, PartialEq, Eq, Structural)]
pub enum IpAddr {
    V4(u32),
    V6(u128),
}

/// A network: an address, and how many of its leading bits belong to the
/// network.
#[derive(Debug, Clone, Copy, PartialEq, Eq, Structural)]
pub struct IpNet {
    pub addr: IpAddr,
    pub prefix: u8,
}

impl IpAddr {
    /// The address is of version 6.
    pub open spec fn is_v6(self) -> bool {
        self is V6
    }

    /// The bits of the address.
    pub open spec fn bits(self) -> u128 {
        match self {
            IpAddr::V4(b) => b as u128,
            IpAddr::V6(b) => b,
        }
    }

    /// How many bits an address of this version has.
    pub open spec fn width(self) -> nat {
        match self {
            IpAddr::V4(_) => 32,
            IpAddr::V6(_) => 128,
        }
    }
}

impl IpNet {
    /// The network has no more leading bits than its address has bits.
    pub open spec fn wf(self) -> bool {
        self.prefix <= self.addr.width()
    }

    /// An address is in the network: it is of the same version, and its leading
    /// bits are those of the network.
    pub open spec fn has(self, ip: IpAddr) -> bool {
        let block = pow2((self.addr.width() - self.prefix) as nat) as int;
        &&& ip.is_v6() == self.addr.is_v6()
        &&& ip.bits() as int / block == self.addr.bits() as int / block
    }

    /// Whether an address is in the network. The test is
    /// [`ipnet::IpNet::contains`], which compares the leading bits of addresses
    /// of one version and refuses those of the other.
    #[verifier::external_body]
    pub(crate) fn contains(&self, ip: IpAddr) -> (r: bool)
        requires
            self.wf(),
        ensures
            r == self.has(ip),
    {
        let outside = |a: IpAddr, prefix: u8| match a {
            IpAddr::V4(b) => ipnet::IpNet::new(b.to_be_bytes().into(), prefix),
            IpAddr::V6(b) => ipnet::IpNet::new(b.to_be_bytes().into(), prefix),
        };
        match (outside(self.addr, self.prefix), outside(ip, 0)) {
            (Ok(net), Ok(host)) => net.contains(&host.addr()),
            _ => false,
        }
    }
}

/// The version and the bits of an optional address.
pub open spec fn opt_ip(ip: Option<IpAddr>) -> Option<(bool, u128)> {
    match ip {
        Some(ip) => Some((ip.is_v6(), ip.bits())),
        None => None,
    }
}

/// The version, the bits and the leading bits of an optional network.
pub open spec fn opt_net(net: Option<IpNet>) -> Option<(bool, u128, u8)> {
    match net {
        Some(net) => Some((net.addr.is_v6(), net.addr.bits(), net.prefix)),
        None => None,
    }
}

/// The version and the bits of the address that [`parse_ip`] reads in a text.
pub uninterp spec fn ip_in(text: Seq<char>) -> Option<(bool, u128)>;

/// Reads a text as an IP address, with [`str::parse`] into the address type of
/// [`ipnet::IpNet::new`], which is std's. What it reads is a function of the
/// text alone; the grammar is left open here.
#[verifier::external_body]
pub(crate) fn parse_ip(raw: &str) -> (r: Option<IpAddr>)
    ensures
        opt_ip(r) == ip_in(raw@),
{
    raw.parse().ok().and_then(|ip| ipnet::IpNet::new(ip, 0).ok()).map(
        |net| match net {
            ipnet::IpNet::V4(n) => IpAddr::V4(u32::from_be_bytes(n.addr().octets())),
            ipnet::IpNet::V6(n) => IpAddr::V6(u128::from_be_bytes(n.addr().octets())),
        },
    )
}

/// The version, bits and leading bits of the network that [`parse_net`] reads
/// in a text.
pub uninterp spec fn net_in(text: Seq<char>) -> Option<(bool, u128, u8)>;

/// Reads a text as a network, with the `FromStr` impl of [`ipnet::IpNet`]. What
/// it reads is a function of the text alone, and it has no more leading bits
/// than its version has bits; the grammar is left open here.
#[verifier::external_body]
pub(crate) fn parse_net(raw: &str) -> (r: Option<IpNet>)
    ensures
        opt_net(r) == net_in(raw@),
        r matches Some(net) ==> net.wf(),
{
    raw.parse::<ipnet::IpNet>().ok().map(
        |net| match net {
            ipnet::IpNet::V4(n) => IpNet {
                addr: IpAddr::V4(u32::from_be_bytes(n.addr().octets())),
                prefix: n.prefix_len(),
            },
            ipnet::IpNet::V6(n) => IpNet {
                addr: IpAddr::V6(u128::from_be_bytes(n.addr().octets())),
                prefix: n.prefix_len(),
            },
        },
    )
}

/// What [`ip_host_text`] gives for an address.
pub uninterp spec fn ip_text(v6: bool, bits: u128) -> Seq<char>;

/// The text of an address as the host of a SIP URI, written by the `Display`
/// impl of [`rsipstack::sip::Host`]. The text is a function of the address
/// alone; its form is left open here.
#[verifier::external_body]
pub(crate) fn ip_host_text(ip: IpAddr) -> (r: String)
    ensures
        r@ == ip_text(ip.is_v6(), ip.bits()),
{
    let host = match ip {
        IpAddr::V4(b) => rsipstack::sip::Host::IpAddr(b.to_be_bytes().into()),
        IpAddr::V6(b) => rsipstack::sip::Host::IpAddr(b.to_be_bytes().into()),
    };
    host.to_string()
}

/// A network of all addresses of a version holds each of them.
pub proof fn law_widest_net_holds_all(net: IpNet, ip: IpAddr)
    requires
        net.prefix == 0,
        net.addr.is_v6() == ip.is_v6(),
    ensures
        net.has(ip),
{
    vstd::arithmetic::power2::lemma2_to64();
    vstd::arithmetic::power2::lemma_pow2_adds(64, 64);
    let block = pow2(net.addr.width()) as int;
    assert(pow2(128) == 0x1_0000_0000_0000_0000_0000_0000_0000_0000int) by {
        assert(pow2(64) * pow2(64) == 0x1_0000_0000_0000_0000int * 0x1_0000_0000_0000_0000int)
            by (nonlinear_arith)
            requires
                pow2(64) == 0x1_0000_0000_0000_0000int,
        ;
    }
    assert(0 <= ip.bits() < block);
    assert(0 <= net.addr.bits() < block);
    vstd::arithmetic::div_mod::lemma_basic_div(ip.bits() as int, block);
    vstd::arithmetic::div_mod::lemma_basic_div(net.addr.bits() as int, block);
}

/// A network whose leading bits are all bits holds its own address alone.
pub proof fn law_narrowest_net_holds_one(net: IpNet, ip: IpAddr)
    requires
        net.prefix == net.addr.width(),
    ensures
        net.has(ip) == (ip == net.addr),
{
    vstd::arithmetic::power2::lemma2_to64();
    assert((net.addr.width() - net.prefix) as nat == 0);
    assert(pow2(0) == 1);
}

/// A network holds its own address, and none of the other version.
pub proof fn law_net_holds_its_address(net: IpNet, ip: IpAddr)
    ensures
        net.has(net.addr),
        ip.is_v6() != net.addr.is_v6() ==> !net.has(ip),
{
}

/// Whether an address is in a network goes by the leading bits of both alone: two
/// addresses of one version that share them are in it together.
pub proof fn law_leading_bits_decide(net: IpNet, a: IpAddr, b: IpAddr)
    requires
        a.is_v6() == b.is_v6(),
        a.bits() as int / (pow2((net.addr.width() - net.prefix) as nat) as int) == b.bits() as int
            / (pow2((net.addr.width() - net.prefix) as nat) as int),
    ensures
        net.has(a) <==> net.has(b),
{
}

/// The bits of an address tell it apart from all others of its version.
pub proof fn law_bits_tell_addresses_apart(a: IpAddr, b: IpAddr)
    ensures
        a.is_v6() == b.is_v6() && a.bits() == b.bits() ==> a == b,
        a is V4 ==> a.width() == 32 && !a.is_v6(),
        a is V6 ==> a.width() == 128 && a.is_v6(),
{
}

}
