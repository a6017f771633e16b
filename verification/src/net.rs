//! Network configuration.
//!
//! An interface gets its address by DHCP, or a static one if no server answers in
//! time. Ephemeral ports are drawn at random from the range that is reserved for them.

use rand::{Rng, SeedableRng};
use vstd::prelude::*;

verus! {

/// An IPv4 address.
#[derive(Clone, Copy, Debug, PartialEq, Eq, Structural)]
pub struct Ipv4Address(pub u8, pub u8, pub u8, pub u8);

/// Address and prefix of an interface without DHCP.
pub const FALLBACK_LOCAL_IP: &'static str = "10.0.2.15/24";

/// How often DHCP is polled before the static address is used.
pub const DHCP_POLLS: u32 = 5000;

/// Greatest number of name servers that are kept.
pub const MAX_DNS_SERVERS: usize = 3;

/// First ephemeral port.
pub const EPHEMERAL_START: u16 = 49152;

/// Last ephemeral port.
pub const EPHEMERAL_END: u16 = 65535;

/// Gateway of an interface without DHCP.
pub open spec fn fallback_gateway_address() -> Ipv4Address {
    Ipv4Address(10, 0, 2, 2)
}

/// Gateway of an interface without DHCP.
pub fn fallback_gateway() -> (r: Ipv4Address)
    ensures
        r == fallback_gateway_address(),
{
    Ipv4Address(10, 0, 2, 2)
}

/// What a DHCP server hands out.
#[derive(Debug)]
pub struct DhcpConfig {
    /// Address.
    pub address: Ipv4Address,
    /// Length of the network prefix.
    pub prefix_len: u8,
    /// Gateway.
    pub router: Option<Ipv4Address>,
    /// Name servers.
    pub dns_servers: Vec<Ipv4Address>,
}

/// What happened to the lease.
#[derive(Debug)]
pub enum DhcpEvent {
    /// Nothing.
    Quiet,
    /// The lease ended.
    Deconfigured,
    /// There is a lease.
    Configured(DhcpConfig),
}

/// A lease as it is applied.
#[derive(Debug)]
pub struct DhcpLease {
    /// Address.
    pub address: Ipv4Address,
    /// Length of the network prefix.
    pub prefix_len: u8,
    /// Gateway.
    pub gateway: Ipv4Address,
    /// Name servers, at most three.
    pub dns: Vec<Ipv4Address>,
}

/// What to do with the interface.
#[derive(Debug)]
pub enum DhcpAction {
    /// Nothing.
    Nothing,
    /// Take all addresses away.
    ClearAddresses,
    /// Replace all addresses by that of the lease, and route by its gateway.
    Apply(DhcpLease),
}

/// The first name servers.
pub open spec fn first_servers(dns: Seq<Ipv4Address>) -> Seq<Ipv4Address> {
    if dns.len() <= MAX_DNS_SERVERS {
        dns
    } else {
        dns.take(MAX_DNS_SERVERS as int)
    }
}

/// The lease is that of the configuration: the gateway is the unspecified address if
/// there is no router, and the first name servers are kept.
pub open spec fn is_lease_of(l: DhcpLease, c: DhcpConfig) -> bool {
    &&& l.address == c.address
    &&& l.prefix_len == c.prefix_len
    &&& l.gateway == match c.router {
        Some(r) => r,
        None => Ipv4Address(0, 0, 0, 0),
    }
    &&& l.dns@ == first_servers(c.dns_servers@)
}

/// Decides what to do about a DHCP event.
pub fn poll_dhcp(event: &DhcpEvent) -> (r: DhcpAction)
    ensures
        match *event {
            DhcpEvent::Quiet => r is Nothing,
            DhcpEvent::Deconfigured => r is ClearAddresses,
            DhcpEvent::Configured(c) => r matches DhcpAction::Apply(l) && is_lease_of(l, c),
        },
{
    match event {
        DhcpEvent::Quiet => DhcpAction::Nothing,
        DhcpEvent::Deconfigured => DhcpAction::ClearAddresses,
        DhcpEvent::Configured(c) => {
            let gateway = match c.router {
                Some(r) => r,
                None => Ipv4Address(0, 0, 0, 0),
            };
            let mut dns: Vec<Ipv4Address> = Vec::new();
            let n: usize = if c.dns_servers.len() < MAX_DNS_SERVERS {
                c.dns_servers.len()
            } else {
                MAX_DNS_SERVERS
            };
            let mut i: usize = 0;
            while i < n
                invariant
                    i <= n <= c.dns_servers@.len(),
                    dns@ =~= c.dns_servers@.take(i as int),
                decreases n - i,
            {
                dns.push(c.dns_servers[i]);
                i += 1;
            }
            assert(dns@ =~= first_servers(c.dns_servers@));
            DhcpAction::Apply(
                DhcpLease { address: c.address, prefix_len: c.prefix_len, gateway, dns },
            )
        },
    }
}

/// The address bytes and the prefix length that a text stands for.
pub uninterp spec fn cidr_of(text: Seq<char>) -> Option<(Seq<u8>, u8)>;

/// Parses a text with `smoltcp::wire::IpCidr::from_str`: the bytes of the address and
/// the length of the prefix, or nothing where the text is not of that form. An IPv4
/// address has four bytes and a prefix of at most 32 bits, an IPv6 address sixteen and
/// 128.
#[verifier::external_body]
pub(crate) fn parse_cidr(text: &str) -> (r: Option<(Vec<u8>, u8)>)
    ensures
        match r {
            Some(c) => cidr_of(text@) == Some((c.0@, c.1)),
            None => cidr_of(text@) is None,
        },
        r matches Some(c) ==> (c.0@.len() == 4 && c.1 <= 32) || (c.0@.len() == 16 && c.1 <= 128),
{
    match text.parse::<smoltcp::wire::IpCidr>() {
        Ok(c) => Some((c.address().as_bytes().to_vec(), c.prefix_len())),
        Err(_) => None,
    }
}

/// Configuration of an interface without DHCP.
#[derive(Debug)]
pub struct StaticConfig {
    /// Bytes of the address.
    pub address: Vec<u8>,
    /// Length of the network prefix.
    pub prefix_len: u8,
    /// Gateway.
    pub gateway: Ipv4Address,
}

/// The configuration with a parsed address.
pub fn static_config(parsed: Option<(Vec<u8>, u8)>) -> (r: Option<StaticConfig>)
    ensures
        r is Some <==> parsed is Some,
        r matches Some(c) ==> c.address == parsed.unwrap().0 && c.prefix_len == parsed.unwrap().1
            && c.gateway == fallback_gateway_address(),
{
    match parsed {
        Some((address, prefix_len)) => Some(
            StaticConfig { address, prefix_len, gateway: fallback_gateway() },
        ),
        None => None,
    }
}

/// The configuration of an interface without DHCP.
pub fn fallback_config() -> (r: Option<StaticConfig>)
    ensures
        r is Some <==> cidr_of(FALLBACK_LOCAL_IP@) is Some,
        r matches Some(c) ==> cidr_of(FALLBACK_LOCAL_IP@) == Some((c.address@, c.prefix_len))
            && c.gateway == fallback_gateway_address(),
{
    static_config(parse_cidr(FALLBACK_LOCAL_IP))
}

/// What the network knows.
#[verifier::ext_equal]
pub struct NetworkView<I> {
    /// Interfaces, in the order of their registration.
    pub interfaces: Seq<I>,
    /// Name servers.
    pub dns: Seq<Ipv4Address>,
}

/// The interfaces and the name servers.
pub struct Network<I> {
    interfaces: Vec<I>,
    dns_servers: Vec<Ipv4Address>,
}

impl<I> View for Network<I> {
    type V = NetworkView<I>;

    closed spec fn view(&self) -> NetworkView<I> {
        NetworkView { interfaces: self.interfaces@, dns: self.dns_servers@ }
    }
}

/// What a registration does next.
#[derive(Clone, Copy, Debug, PartialEq, Eq, Structural)]
pub enum RegisterStep {
    /// DHCP succeeded.
    Configured,
    /// Poll DHCP again.
    PollAgain,
    /// Use the static configuration.
    Fallback,
}

/// The name servers after DHCP failed: the gateway, unless some are known.
pub open spec fn fallback_dns(dns: Seq<Ipv4Address>) -> Seq<Ipv4Address> {
    if dns.len() == 0 {
        seq![fallback_gateway_address()]
    } else {
        dns
    }
}

impl<I> Network<I> {
    /// A network without interfaces.
    pub fn new() -> (n: Self)
        ensures
            n@ == (NetworkView::<I> { interfaces: Seq::empty(), dns: Seq::empty() }),
    {
        Network { interfaces: Vec::new(), dns_servers: Vec::new() }
    }

    /// Takes the outcome of a poll of DHCP while an interface is registered. `polls`
    /// counts the polls, with this one. The name servers of a lease replace those that
    /// are known; after too many polls without a lease the static configuration is
    /// used.
    pub fn register_device(&mut self, lease: &Option<DhcpLease>, polls: u32) -> (r: RegisterStep)
        ensures
            match *lease {
                Some(l) => r == RegisterStep::Configured && final(self)@ == (NetworkView {
                    dns: l.dns@,
                    ..old(self)@
                }),
                None => if polls >= DHCP_POLLS {
                    r == RegisterStep::Fallback && final(self)@ == (NetworkView {
                        dns: fallback_dns(old(self)@.dns),
                        ..old(self)@
                    })
                } else {
                    r == RegisterStep::PollAgain && final(self)@ == old(self)@
                },
            },
    {
        match lease {
            Some(l) => {
                let mut dns: Vec<Ipv4Address> = Vec::new();
                let mut i: usize = 0;
                while i < l.dns.len()
                    invariant
                        i <= l.dns@.len(),
                        dns@ =~= l.dns@.take(i as int),
                    decreases l.dns@.len() - i,
                {
                    dns.push(l.dns[i]);
                    i += 1;
                }
                assert(dns@ =~= l.dns@);
                self.dns_servers = dns;
                RegisterStep::Configured
            },
            None => {
                if polls >= DHCP_POLLS {
                    if self.dns_servers.len() == 0 {
                        self.dns_servers.push(fallback_gateway());
                    }
                    assert(self@.dns =~= fallback_dns(old(self)@.dns));
                    RegisterStep::Fallback
                } else {
                    RegisterStep::PollAgain
                }
            },
        }
    }

    /// Adds an interface that has been configured.
    pub fn add_interface(&mut self, interface: I)
        ensures
            final(self)@ == (NetworkView {
                interfaces: old(self)@.interfaces.push(interface),
                ..old(self)@
            }),
    {
        self.interfaces.push(interface);
    }

    /// All interfaces.
    pub fn get_interfaces(&self) -> (r: &Vec<I>)
        ensures
            r@ == self@.interfaces,
    {
        &self.interfaces
    }

    /// The interface that was registered first.
    pub fn get_default_interface(&self) -> (r: Option<&I>)
        ensures
            r is Some <==> self@.interfaces.len() > 0,
            r matches Some(i) ==> *i == self@.interfaces[0],
    {
        if self.interfaces.len() > 0 {
            Some(&self.interfaces[0])
        } else {
            None
        }
    }

    /// The name servers.
    pub fn get_dns_servers(&self) -> (r: Vec<Ipv4Address>)
        ensures
            r@ == self@.dns,
    {
        let mut r: Vec<Ipv4Address> = Vec::new();
        let mut i: usize = 0;
        while i < self.dns_servers.len()
            invariant
                i <= self.dns_servers@.len(),
                r@ =~= self.dns_servers@.take(i as int),
            decreases self.dns_servers@.len() - i,
        {
            r.push(self.dns_servers[i]);
            i += 1;
        }
        assert(r@ =~= self.dns_servers@);
        r
    }
}

/// The integer that a generator with a seed draws first from a range.
pub uninterp spec fn drawn(seed: Seq<u8>, low: u16, high: u16) -> u16;

/// Draws an integer with `rand::Rng::gen_range` from a `rand_chacha::ChaChaRng` that
/// starts from a seed. The draw lies in the range, and is the same for the same seed
/// and range.
#[verifier::external_body]
pub(crate) fn draw(seed: [u8; 32], low: u16, high: u16) -> (r: u16)
    requires
        low <= high,
    ensures
        r == drawn(seed@, low, high),
        low <= r <= high,
{
    rand_chacha::ChaChaRng::from_seed(seed).gen_range(low..=high)
}

/// A port from the range that is reserved for private, dynamic and ephemeral ports,
/// drawn with a seed.
pub fn get_ephemeral_port(seed: [u8; 32]) -> (r: u16)
    ensures
        r == drawn(seed@, EPHEMERAL_START, EPHEMERAL_END),
        EPHEMERAL_START <= r <= EPHEMERAL_END,
{
    draw(seed, EPHEMERAL_START, EPHEMERAL_END)
}

/// A registration without a lease leaves a name server, and keeps those that are known.
pub proof fn fallback_leaves_a_name_server(dns: Seq<Ipv4Address>)
    ensures
        fallback_dns(dns).len() > 0,
        dns.len() > 0 ==> fallback_dns(dns) == dns,
{
}

/// A lease takes over the address, the router and at most three name servers, in their order;
/// a network without a router has the zero address for one.
pub proof fn lease_takes_over_the_configuration(l: DhcpLease, c: DhcpConfig, i: int)
    requires
        is_lease_of(l, c),
    ensures
        l.address == c.address,
        l.prefix_len == c.prefix_len,
        c.router matches Some(r) ==> l.gateway == r,
        c.router is None ==> l.gateway == Ipv4Address(0, 0, 0, 0),
        l.dns@.len() == if c.dns_servers@.len() < 3 { c.dns_servers@.len() as int } else { 3 },
        0 <= i < l.dns@.len() ==> l.dns@[i] == c.dns_servers@[i],
{
}

/// Without a lease the name servers that are known stay; if none is known the gateway of the
/// fallback network is asked.
pub proof fn fallback_asks_the_gateway(dns: Seq<Ipv4Address>)
    ensures
        dns.len() == 0 ==> fallback_dns(dns).len() == 1 && fallback_dns(dns)[0] == Ipv4Address(
            10,
            0,
            2,
            2,
        ),
        dns.len() > 0 ==> fallback_dns(dns) == dns,
        fallback_gateway_address() == Ipv4Address(10, 0, 2, 2),
        EPHEMERAL_START == 3 * 0x4000,
        EPHEMERAL_END == 0xFFFF,
        DHCP_POLLS == 5000,
{
}

} // verus!
