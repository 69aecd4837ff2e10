//! Sets of IP networks matched by containment.
use vstd::prelude::*;

use super::ip::IpAddress;
use vstd::arithmetic::power2::{lemma2_to64, lemma2_to64_rest, lemma_pow2_adds, pow2};
use vstd::bits::{lemma_u128_shr_is_div, lemma_u32_shr_is_div};

verus! {

/// An IP network: an address and a prefix length no longer than the
/// address family allows (32 for IPv4, 128 for IPv6). The address keeps
/// its host bits, as written.
#[derive(Debug, Clone, Copy, PartialEq, Eq)]
pub struct Cidr {
    addr: IpAddress,
    prefix_len: u8,
}

/// The longest prefix an address family allows.
pub open spec fn max_prefix(addr: IpAddress) -> u8 {
    match addr {
        IpAddress::V4(_) => 32,
        IpAddress::V6(_) => 128,
    }
}

/// Whether `ip` lies in the network of `addr` with `prefix_len` leading
/// bits fixed: same address family and the same leading bits.
pub open spec fn prefix_contains(addr: IpAddress, prefix_len: u8, ip: IpAddress) -> bool {
    match (addr, ip) {
        (IpAddress::V4(n), IpAddress::V4(a)) => prefix_len == 0 || (n >> (32 - prefix_len) as u32)
            == (a >> (32 - prefix_len) as u32),
        (IpAddress::V6(n), IpAddress::V6(a)) => prefix_len == 0 || (n >> (128
            - prefix_len) as u32) == (a >> (128 - prefix_len) as u32),
        _ => false,
    }
}

impl Cidr {
    #[verifier::type_invariant]
    spec fn well_formed(self) -> bool {
        self.prefix_len <= max_prefix(self.addr)
    }

    pub closed spec fn spec_addr(self) -> IpAddress {
        self.addr
    }

    pub closed spec fn spec_prefix_len(self) -> u8 {
        self.prefix_len
    }

    /// Whether `ip` is in this network.
    pub open spec fn spec_contains(self, ip: IpAddress) -> bool {
        prefix_contains(self.spec_addr(), self.spec_prefix_len(), ip)
    }

    /// The network of `addr` with `prefix_len` leading bits; `None` where
    /// the prefix is longer than the address family allows.
    pub fn new(addr: IpAddress, prefix_len: u8) -> (r: Option<Cidr>)
        ensures
            r is Some <==> prefix_len <= max_prefix(addr),
            r matches Some(c) ==> c.spec_addr() == addr && c.spec_prefix_len() == prefix_len,
    {
        let max: u8 = match addr {
            IpAddress::V4(_) => 32,
            IpAddress::V6(_) => 128,
        };
        if prefix_len <= max {
            Some(Cidr { addr, prefix_len })
        } else {
            None
        }
    }

    pub fn addr(&self) -> (r: IpAddress)
        ensures
            r == self.spec_addr(),
    {
        self.addr
    }

    pub fn prefix_len(&self) -> (r: u8)
        ensures
            r == self.spec_prefix_len(),
            r <= max_prefix(self.spec_addr()),
    {
        proof {
            use_type_invariant(self);
        }
        self.prefix_len
    }

    /// Whether `ip` is in this network.
    pub fn contains(&self, ip: IpAddress) -> (r: bool)
        ensures
            r == self.spec_contains(ip),
    {
        proof {
            use_type_invariant(self);
        }
        match (self.addr, ip) {
            (IpAddress::V4(n), IpAddress::V4(a)) => {
                if self.prefix_len == 0 {
                    true
                } else {
                    let shift: u32 = (32 - self.prefix_len) as u32;
                    (n >> shift) == (a >> shift)
                }
            },
            (IpAddress::V6(n), IpAddress::V6(a)) => {
                if self.prefix_len == 0 {
                    true
                } else {
                    let shift: u32 = (128 - self.prefix_len) as u32;
                    (n >> shift) == (a >> shift)
                }
            },
            _ => false,
        }
    }
}

#[verifier::external_type_specification]
#[verifier::external_body]
pub struct ExAddrParseError(ipnet::AddrParseError);

/// What ipnet's `IpNet` parser (`FromStr for IpNet`) makes of a text:
/// whether the network is IPv6, its address bits, and its prefix length.
pub uninterp spec fn ipnet_parse(text: Seq<char>) -> Option<(bool, u128, u8)>;

/// Parses `s` with ipnet's `IpNet` parser. Claimed of ipnet: the result
/// is `Ok` exactly when the parser accepts the text, and then it is the
/// parsed network, whose prefix length never exceeds the family's width
/// (ipnet builds it with `Ipv4Net::new`/`Ipv6Net::new`, which refuse
/// longer prefixes).
#[verifier::external_body]
fn parse_ipnet(s: &str) -> (r: Result<(bool, u128, u8), ipnet::AddrParseError>)
    ensures
        r is Ok <==> ipnet_parse(s@) is Some,
        r matches Ok(t) ==> ipnet_parse(s@) == Some(t) && (if t.0 {
            t.2 <= 128
        } else {
            t.2 <= 32 && t.1 < 0x1_0000_0000
        }),
{
    match s.parse::<ipnet::IpNet>() {
        Ok(ipnet::IpNet::V4(n)) => Ok((false, u32::from(n.addr()) as u128, n.prefix_len())),
        Ok(ipnet::IpNet::V6(n)) => Ok((true, u128::from(n.addr()), n.prefix_len())),
        Err(e) => Err(e),
    }
}

/// The parser's view of a network: family flag, address bits, prefix.
pub open spec fn cidr_parts(c: Cidr) -> (bool, u128, u8) {
    match c.spec_addr() {
        IpAddress::V4(a) => (false, a as u128, c.spec_prefix_len()),
        IpAddress::V6(a) => (true, a, c.spec_prefix_len()),
    }
}

/// The network with the parser's parts `t`.
pub closed spec fn cidr_of_parts(t: (bool, u128, u8)) -> Cidr {
    Cidr {
        addr: if t.0 {
            IpAddress::V6(t.1)
        } else {
            IpAddress::V4(t.1 as u32)
        },
        prefix_len: t.2,
    }
}

/// Whether `e` is the error that ipnet's `IpNet` parser gives for a text
/// that reads `s`.
pub closed spec fn is_ipnet_error(s: Seq<char>, e: ipnet::AddrParseError) -> bool {
    exists|t: &str| t@ == s && #[trigger] call_ensures(parse_ipnet, (t,), Err(e))
}

impl Cidr {
    /// Parses CIDR text such as `192.0.2.0/24` with ipnet's parser.
    pub fn parse(s: &str) -> (r: Result<Cidr, ipnet::AddrParseError>)
        ensures
            r is Ok <==> ipnet_parse(s@) is Some,
            r matches Err(e) ==> is_ipnet_error(s@, e),
            r matches Ok(c) ==> Some(cidr_parts(c)) == ipnet_parse(s@) && c == cidr_of_parts(
                ipnet_parse(s@)->0,
            ),
    {
        match parse_ipnet(s) {
            Ok((v6, bits, prefix)) => {
                let addr = if v6 {
                    IpAddress::V6(bits)
                } else {
                    IpAddress::V4(bits as u32)
                };
                Ok(Cidr { addr, prefix_len: prefix })
            },
            Err(e) => {
                assert(call_ensures(
                    parse_ipnet,
                    (s,),
                    Err::<(bool, u128, u8), ipnet::AddrParseError>(e),
                ));
                Err(e)
            },
        }
    }
}

/// A list of IP networks matched by containment, e.g. `skip.addresses`,
/// `whitelist.ips`, or `relay.trusted_relays`.
#[derive(Debug)]
pub struct CidrSet {
    nets: Vec<Cidr>,
}

impl View for CidrSet {
    type V = Seq<Cidr>;

    closed spec fn view(&self) -> Seq<Cidr> {
        self.nets@
    }
}

/// Whether some network of `nets` contains `ip`.
pub open spec fn any_contains(nets: Seq<Cidr>, ip: IpAddress) -> bool {
    exists|i: int| 0 <= i < nets.len() && #[trigger] nets[i].spec_contains(ip)
}

impl CidrSet {
    pub fn new(nets: Vec<Cidr>) -> (r: CidrSet)
        ensures
            r@ == nets@,
    {
        CidrSet { nets }
    }

    /// The empty set.
    pub fn empty() -> (r: CidrSet)
        ensures
            r@ == Seq::<Cidr>::empty(),
    {
        CidrSet { nets: Vec::new() }
    }

    /// Whether some network of the set contains `ip`.
    pub fn contains(&self, ip: IpAddress) -> (r: bool)
        ensures
            r == any_contains(self@, ip),
    {
        let mut i: usize = 0;
        while i < self.nets.len()
            invariant
                i <= self.nets@.len(),
                forall|j: int| 0 <= j < i ==> !(#[trigger] self.nets@[j]).spec_contains(ip),
            decreases self.nets.len() - i,
        {
            if self.nets[i].contains(ip) {
                return true;
            }
            i = i + 1;
        }
        false
    }

    pub fn is_empty(&self) -> (r: bool)
        ensures
            r == (self@.len() == 0),
    {
        self.nets.len() == 0
    }

    /// The networks of the set, in order.
    pub fn iter(&self) -> (r: &[Cidr])
        ensures
            r@ == self@,
    {
        self.nets.as_slice()
    }

    /// Adds the networks `nets` at the end of the set, in order.
    pub fn extend(&mut self, nets: Vec<Cidr>)
        ensures
            final(self)@ == old(self)@ + nets@,
    {
        let mut more = nets;
        self.nets.append(&mut more);
    }

    /// Adds one network at the end of the set.
    pub fn push(&mut self, net: Cidr)
        ensures
            final(self)@ == old(self)@.push(net),
    {
        self.nets.push(net);
    }
}

impl Clone for CidrSet {
    fn clone(&self) -> (r: CidrSet)
        ensures
            r@ == self@,
    {
        let mut nets: Vec<Cidr> = Vec::new();
        let mut i: usize = 0;
        while i < self.nets.len()
            invariant
                i <= self.nets@.len(),
                nets@ == self.nets@.take(i as int),
            decreases self.nets.len() - i,
        {
            nets.push(self.nets[i]);
            i = i + 1;
            assert(nets@ =~= self.nets@.take(i as int));
        }
        assert(self.nets@.take(i as int) =~= self.nets@);
        CidrSet { nets }
    }
}

impl Default for CidrSet {
    fn default() -> (r: CidrSet)
        ensures
            r@ == Seq::<Cidr>::empty(),
    {
        CidrSet { nets: Vec::new() }
    }
}

/// An empty set contains no address.
pub proof fn law_empty_set_matches_nothing(set: CidrSet, ip: IpAddress)
    requires
        set@.len() == 0,
    ensures
        !any_contains(set@, ip),
{
}

/// A network with a zero-length prefix contains exactly the addresses of
/// its family.
pub proof fn law_zero_prefix_matches_whole_family(net: Cidr, ip: IpAddress)
    requires
        net.spec_prefix_len() == 0,
    ensures
        net.spec_contains(ip) <==> (ip is V4) == (net.spec_addr() is V4),
{
}

/// A full-length prefix contains exactly its own address.
pub proof fn law_full_prefix_matches_one_address(net: Cidr, ip: IpAddress)
    requires
        net.spec_prefix_len() == max_prefix(net.spec_addr()),
    ensures
        net.spec_contains(ip) <==> ip == net.spec_addr(),
{
    match (net.spec_addr(), ip) {
        (IpAddress::V4(n), IpAddress::V4(a)) => {
            assert((n >> 0u32) == n && (a >> 0u32) == a) by (bit_vector);
        },
        (IpAddress::V6(n), IpAddress::V6(a)) => {
            assert((n >> 0u32) == n && (a >> 0u32) == a) by (bit_vector);
        },
        _ => {},
    }
}

/// An IPv4 network with a prefix of `p` bits contains an address exactly
/// when the address agrees with the network address on its first `p` bits,
/// that is, when both leave the same number once their last `32 - p` bits
/// are dropped; whatever `p` is, a multiple of 8 or not.
pub proof fn law_ipv4_network_holds_its_prefix(n: u32, p: u8, a: u32)
    requires
        p <= 32,
    ensures
        prefix_contains(IpAddress::V4(n), p, IpAddress::V4(a)) <==> (n as nat) / pow2(
            (32 - p) as nat,
        ) == (a as nat) / pow2((32 - p) as nat),
{
    if p == 0 {
        lemma2_to64();
        assert(pow2(32) == 0x1_0000_0000);
        assert((n as nat) / pow2(32) == 0);
        assert((a as nat) / pow2(32) == 0);
    } else {
        let s: u32 = (32 - p) as u32;
        lemma_u32_shr_is_div(n, s);
        lemma_u32_shr_is_div(a, s);
    }
}

/// An IPv6 network with a prefix of `p` bits contains an address exactly
/// when the address agrees with the network address on its first `p` bits
/// (the same number once the last `128 - p` bits are dropped).
pub proof fn law_ipv6_network_holds_its_prefix(n: u128, p: u8, a: u128)
    requires
        p <= 128,
    ensures
        prefix_contains(IpAddress::V6(n), p, IpAddress::V6(a)) <==> (n as nat) / pow2(
            (128 - p) as nat,
        ) == (a as nat) / pow2((128 - p) as nat),
{
    if p == 0 {
        lemma2_to64_rest();
        lemma_pow2_adds(64, 64);
        assert(pow2(128) == 0x1_0000_0000_0000_0000 * 0x1_0000_0000_0000_0000);
        assert((n as nat) / pow2(128) == 0);
        assert((a as nat) / pow2(128) == 0);
    } else {
        let s: u32 = (128 - p) as u32;
        let s128: u128 = (128 - p) as u128;
        assert(n >> s == n >> s128 && a >> s == a >> s128) by (bit_vector)
            requires
                s as u128 == s128,
                s < 128,
        ;
        lemma_u128_shr_is_div(n, s128);
        lemma_u128_shr_is_div(a, s128);
    }
}

} // verus!
