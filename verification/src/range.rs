//! The range expander: from a network in CIDR notation to the ordered list of
//! its usable host addresses.
//!
//! Addresses are 32-bit numbers whose most significant byte is the first octet.

use crate::errors::RadarError;
use crate::errors::RadarErrorView;
use crate::text::decimal;
use crate::text::is_digit;
use crate::text::lemma_decimal_injective;
use crate::text::lemma_decimal_is_digits;
use crate::text::push_decimal;
use ipnet::Ipv4Net;
use vstd::prelude::*;
use vstd::string::StringExecFns;

verus! {

/// The error of ipnet's parser. It carries no information.
#[verifier::external_type_specification]
#[verifier::external_body]
pub struct ExAddrParseError(ipnet::AddrParseError);

/// What ipnet's parser makes of a text: the address and the prefix length of
/// the IPv4 network it denotes, or nothing where the text denotes none.
pub uninterp spec fn parsed_ipv4_net(s: Seq<char>) -> Option<(u32, u8)>;

/// ipnet's `FromStr` for `Ipv4Net`, with the network handed out as its address
/// and its prefix length (`Ipv4Net::addr`, `Ipv4Net::prefix_len`). The parser
/// reads a prefix length of at most two digits and below 33.
#[verifier::external_body]
fn parse_ipv4_net(s: &str) -> (r: Result<(u32, u8), ipnet::AddrParseError>)
    ensures
        match r {
            Ok(net) => parsed_ipv4_net(s@) == Some(net) && net.1 <= 32,
            Err(_) => parsed_ipv4_net(s@) is None,
        },
{
    s.parse::<Ipv4Net>().map(|net| (u32::from(net.addr()), net.prefix_len()))
}

/// The mask that keeps the network bits of an address.
pub open spec fn netmask(prefix_len: u8) -> u32 {
    if prefix_len == 0 {
        0u32
    } else {
        0xffff_ffffu32 << ((32 - prefix_len) as u32)
    }
}

/// The mask that keeps the host bits of an address.
pub open spec fn hostmask(prefix_len: u8) -> u32 {
    if prefix_len >= 32 {
        0u32
    } else {
        0xffff_ffffu32 >> (prefix_len as u32)
    }
}

/// The network address: the address with its host bits cleared.
pub open spec fn network_of(addr: u32, prefix_len: u8) -> u32 {
    addr & netmask(prefix_len)
}

/// The broadcast address: the address with its host bits set.
pub open spec fn broadcast_of(addr: u32, prefix_len: u8) -> u32 {
    addr | hostmask(prefix_len)
}

/// The usable host addresses of a network, in ascending order: every address
/// strictly between the network address and the broadcast address.
pub open spec fn host_seq(addr: u32, prefix_len: u8) -> Seq<u32> {
    let first = network_of(addr, prefix_len) + 1;
    let last = broadcast_of(addr, prefix_len) - 1;
    if first <= last {
        Seq::new((last - first + 1) as nat, |i: int| (first + i) as u32)
    } else {
        Seq::empty()
    }
}

/// The hosts that a text in CIDR notation stands for, or nothing where the
/// text is no IPv4 network.
pub open spec fn hosts_of(cidr: Seq<char>) -> Option<Seq<u32>> {
    match parsed_ipv4_net(cidr) {
        Some((addr, prefix_len)) => Some(host_seq(addr, prefix_len)),
        None => None,
    }
}

/// An IPv4 network: an address and the number of its leading network bits.
#[derive(Debug, Clone, Copy)]
pub struct Ipv4Subnet {
    addr: u32,
    prefix_len: u8,
}

impl Ipv4Subnet {
    #[verifier::type_invariant]
    spec fn well_formed(self) -> bool {
        self.prefix_len <= 32
    }

    /// The address the network was written with.
    pub closed spec fn spec_addr(&self) -> u32 {
        self.addr
    }

    /// The number of leading bits that name the network.
    pub closed spec fn spec_prefix_len(&self) -> u8 {
        self.prefix_len
    }

    /// The network of an address and a prefix length, if that is at most 32.
    pub fn new(addr: u32, prefix_len: u8) -> (r: Option<Ipv4Subnet>)
        ensures
            r is Some <==> prefix_len <= 32,
            r matches Some(net) ==> net.spec_addr() == addr && net.spec_prefix_len() == prefix_len,
    {
        if prefix_len <= 32 {
            Some(Ipv4Subnet { addr, prefix_len })
        } else {
            None
        }
    }

    /// Reads a network in CIDR notation, such as `192.168.1.0/24`.
    pub fn parse(cidr: &str) -> (r: Result<Ipv4Subnet, RadarError>)
        ensures
            match r {
                Ok(net) => parsed_ipv4_net(cidr@) == Some(
                    (net.spec_addr(), net.spec_prefix_len()),
                ),
                Err(e) => parsed_ipv4_net(cidr@) is None && e@ == RadarErrorView::InvalidIpRange(
                    cidr@,
                ),
            },
    {
        match parse_ipv4_net(cidr) {
            Ok((addr, prefix_len)) => Ok(Ipv4Subnet { addr, prefix_len }),
            Err(_) => Err(RadarError::InvalidIpRange(String::from_str(cidr))),
        }
    }

    /// The address the network was written with.
    #[verifier::when_used_as_spec(spec_addr)]
    pub fn addr(&self) -> (r: u32)
        ensures
            r == self.spec_addr(),
    {
        self.addr
    }

    /// The number of leading bits that name the network.
    #[verifier::when_used_as_spec(spec_prefix_len)]
    pub fn prefix_len(&self) -> (r: u8)
        ensures
            r == self.spec_prefix_len(),
            r <= 32,
    {
        proof {
            use_type_invariant(self);
        }
        self.prefix_len
    }

    /// The network address.
    pub fn network(&self) -> (r: u32)
        ensures
            r == network_of(self.addr(), self.prefix_len()),
    {
        proof {
            use_type_invariant(self);
        }
        let mask: u32 = if self.prefix_len == 0 {
            0
        } else {
            0xffff_ffffu32 << ((32 - self.prefix_len) as u32)
        };
        self.addr & mask
    }

    /// The broadcast address.
    pub fn broadcast(&self) -> (r: u32)
        ensures
            r == broadcast_of(self.addr(), self.prefix_len()),
    {
        proof {
            use_type_invariant(self);
        }
        let mask: u32 = if self.prefix_len >= 32 {
            0
        } else {
            0xffff_ffffu32 >> (self.prefix_len as u32)
        };
        self.addr | mask
    }

    /// The usable host addresses in ascending order, without the network
    /// address and the broadcast address.
    pub fn hosts(&self) -> (r: Vec<u32>)
        ensures
            r@ == host_seq(self.addr(), self.prefix_len()),
            forall|i: int|
                0 <= i < r.len() ==> network_of(self.addr(), self.prefix_len()) < (#[trigger] r[i])
                    < broadcast_of(self.addr(), self.prefix_len()),
            forall|i: int, j: int| 0 <= i < j < r.len() ==> (#[trigger] r[i]) < (#[trigger] r[j]),
    {
        proof {
            lemma_hosts_inside_and_ascending(self.addr(), self.prefix_len());
        }
        let network = self.network();
        let broadcast = self.broadcast();
        let mut out: Vec<u32> = Vec::new();
        if broadcast < 2 || network > broadcast - 2 {
            return out;
        }
        let ghost first = network + 1;
        let mut next: u32 = network + 1;
        while next < broadcast
            invariant
                first == network + 1,
                first <= next <= broadcast,
                out@ == Seq::new((next - first) as nat, |i: int| (first + i) as u32),
            decreases broadcast - next,
        {
            out.push(next);
            next = next + 1;
        }
        out
    }
}

/// The four octets of an address in decimal, separated by dots.
pub open spec fn dotted_quad(addr: u32) -> Seq<char> {
    decimal((addr / 0x100_0000) as nat).push('.')
        + decimal(((addr / 0x1_0000) % 0x100) as nat).push('.')
        + decimal(((addr / 0x100) % 0x100) as nat).push('.')
        + decimal((addr % 0x100) as nat)
}

/// Writes an address in dotted decimal notation, such as `192.168.1.7`.
pub fn format_ipv4(addr: u32) -> (r: String)
    ensures
        r@ == dotted_quad(addr),
{
    let mut out = String::new();
    push_decimal(&mut out, addr / 0x100_0000);
    out.push('.');
    push_decimal(&mut out, (addr / 0x1_0000) % 0x100);
    out.push('.');
    push_decimal(&mut out, (addr / 0x100) % 0x100);
    out.push('.');
    push_decimal(&mut out, addr % 0x100);
    out
}

/// Expands a network in CIDR notation into its usable host addresses, in
/// ascending order. A text that is no IPv4 network is refused; a network too
/// small to have usable hosts gives the empty list.
pub fn expand_range(cidr: &str) -> (r: Result<Vec<u32>, RadarError>)
    ensures
        match r {
            Ok(hosts) => {
                &&& hosts_of(cidr@) == Some(hosts@)
                &&& parsed_ipv4_net(cidr@) matches Some((addr, prefix_len)) && forall|i: int|
                    0 <= i < hosts.len() ==> network_of(addr, prefix_len) < (#[trigger] hosts[i])
                        < broadcast_of(addr, prefix_len)
                &&& forall|i: int, j: int|
                    0 <= i < j < hosts.len() ==> (#[trigger] hosts[i]) < (#[trigger] hosts[j])
            },
            Err(e) => hosts_of(cidr@) is None && e@ == RadarErrorView::InvalidIpRange(cidr@),
        },
{
    match Ipv4Subnet::parse(cidr) {
        Ok(net) => Ok(net.hosts()),
        Err(e) => Err(e),
    }
}

} // verus!

verus! {

/// The network address never lies above the broadcast address.
pub proof fn lemma_network_below_broadcast(addr: u32, prefix_len: u8)
    ensures
        network_of(addr, prefix_len) <= addr <= broadcast_of(addr, prefix_len),
{
    let n = netmask(prefix_len);
    let h = hostmask(prefix_len);
    assert(addr & n <= addr) by (bit_vector);
    assert(addr <= addr | h) by (bit_vector);
}

/// The usable hosts exclude the network address and the broadcast address,
/// and they are listed in strictly ascending order, so none occurs twice.
/// Every address strictly between the two is listed.
pub proof fn lemma_hosts_inside_and_ascending(addr: u32, prefix_len: u8)
    ensures
        forall|i: int|
            0 <= i < host_seq(addr, prefix_len).len() ==> network_of(addr, prefix_len) < (
            #[trigger] host_seq(addr, prefix_len)[i]) < broadcast_of(addr, prefix_len),
        forall|i: int, j: int|
            0 <= i < j < host_seq(addr, prefix_len).len() ==> (#[trigger] host_seq(
                addr,
                prefix_len,
            )[i]) < (#[trigger] host_seq(addr, prefix_len)[j]),
        host_seq(addr, prefix_len).no_duplicates(),
        forall|a: u32|
            network_of(addr, prefix_len) < a < broadcast_of(addr, prefix_len) ==> host_seq(
                addr,
                prefix_len,
            ).contains(a),
{
    let hosts = host_seq(addr, prefix_len);
    let first = network_of(addr, prefix_len) + 1;
    assert forall|a: u32|
        network_of(addr, prefix_len) < a < broadcast_of(addr, prefix_len) implies hosts.contains(
        a,
    ) by {
        assert(hosts[a - first] == a);
    }
}

/// The same for the expansion of a text: whenever a text is a network in CIDR
/// notation, its hosts lie strictly between the network address and the
/// broadcast address and ascend strictly.
pub proof fn lemma_expansion_excludes_endpoints(cidr: Seq<char>)
    requires
        parsed_ipv4_net(cidr) is Some,
    ensures
        hosts_of(cidr) is Some,
        ({
            let (addr, prefix_len) = parsed_ipv4_net(cidr)->0;
            let hosts = hosts_of(cidr)->0;
            &&& forall|i: int|
                0 <= i < hosts.len() ==> network_of(addr, prefix_len) < (#[trigger] hosts[i])
                    < broadcast_of(addr, prefix_len)
            &&& forall|i: int, j: int|
                0 <= i < j < hosts.len() ==> (#[trigger] hosts[i]) < (#[trigger] hosts[j])
            &&& hosts.no_duplicates()
        }),
{
    let (addr, prefix_len) = parsed_ipv4_net(cidr)->0;
    lemma_hosts_inside_and_ascending(addr, prefix_len);
}

/// How many usable hosts a network has: a network of 31 or 32 prefix bits
/// has none, any other has all the addresses its host bits can write but the
/// two at the ends, that is two less than two to the power of the number of
/// host bits.
pub proof fn lemma_host_count(addr: u32, prefix_len: u8)
    requires
        prefix_len <= 32,
    ensures
        prefix_len >= 31 ==> host_seq(addr, prefix_len).len() == 0,
        prefix_len <= 30 ==> host_seq(addr, prefix_len).len() == hostmask(prefix_len) - 1,
        prefix_len <= 30 ==> host_seq(addr, prefix_len).len() + 2 == 1u64 << ((32
            - prefix_len) as u64),
        prefix_len <= 30 ==> host_seq(addr, prefix_len).len() >= 2,
{
    let p: u32 = prefix_len as u32;
    let w: u64 = (32 - prefix_len) as u64;
    assert(p <= 30 && w == 32 - p ==> (0xffff_ffffu32 >> p) + 1 == (1u64 << w)) by (bit_vector);
    if prefix_len == 0 {
        assert(addr & 0u32 == 0u32) by (bit_vector);
        assert(addr | (0xffff_ffffu32 >> 0u32) == 0xffff_ffffu32) by (bit_vector);
        assert(0xffff_ffffu32 >> 0u32 == 0xffff_ffffu32) by (bit_vector);
    } else if prefix_len == 32 {
        assert(addr & (0xffff_ffffu32 << 0u32) == addr) by (bit_vector);
        assert(addr | 0u32 == addr) by (bit_vector);
    } else {
        let q: u32 = (32 - prefix_len) as u32;
        assert((addr | (0xffff_ffffu32 >> p)) - (addr & (0xffff_ffffu32 << q)) == (0xffff_ffffu32
            >> p)) by (bit_vector)
            requires
                1 <= p <= 31,
                q == 32 - p,
        ;
        assert(p == 31 ==> (0xffff_ffffu32 >> p) == 1) by (bit_vector);
        assert(p <= 30 ==> (0xffff_ffffu32 >> p) >= 3) by (bit_vector);
    }
}

/// Two texts that each begin with digits up to a dot are equal only if
/// the digits are the same and what follows the dot is the same.
proof fn lemma_split_at_dot(
    head: Seq<char>,
    tail: Seq<char>,
    other_head: Seq<char>,
    other_tail: Seq<char>,
)
    requires
        forall|i: int| 0 <= i < head.len() ==> is_digit(#[trigger] head[i]),
        forall|i: int| 0 <= i < other_head.len() ==> is_digit(#[trigger] other_head[i]),
        head.push('.') + tail == other_head.push('.') + other_tail,
    ensures
        head == other_head,
        tail == other_tail,
{
    let left = head.push('.') + tail;
    let right = other_head.push('.') + other_tail;
    if head.len() < other_head.len() {
        assert(left[head.len() as int] == '.');
        assert(right[head.len() as int] == other_head[head.len() as int]);
        assert(is_digit(other_head[head.len() as int]));
    } else if other_head.len() < head.len() {
        assert(right[other_head.len() as int] == '.');
        assert(left[other_head.len() as int] == head[other_head.len() as int]);
        assert(is_digit(head[other_head.len() as int]));
    } else {
        assert(head =~= left.take(head.len() as int));
        assert(other_head =~= right.take(head.len() as int));
        assert(tail =~= left.skip(head.len() as int + 1));
        assert(other_tail =~= right.skip(head.len() as int + 1));
    }
}

/// The text of four numbers with dots between them.
spec fn quad_text(o1: nat, o2: nat, o3: nat, o4: nat) -> Seq<char> {
    decimal(o1).push('.') + (decimal(o2).push('.') + (decimal(o3).push('.') + decimal(o4)))
}

/// Different quadruples of numbers are written differently.
proof fn lemma_quad_text_injective(
    a1: nat,
    a2: nat,
    a3: nat,
    a4: nat,
    b1: nat,
    b2: nat,
    b3: nat,
    b4: nat,
)
    requires
        quad_text(a1, a2, a3, a4) == quad_text(b1, b2, b3, b4),
    ensures
        a1 == b1,
        a2 == b2,
        a3 == b3,
        a4 == b4,
{
    lemma_decimal_is_digits(a1);
    lemma_decimal_is_digits(a2);
    lemma_decimal_is_digits(a3);
    lemma_decimal_is_digits(b1);
    lemma_decimal_is_digits(b2);
    lemma_decimal_is_digits(b3);
    let a_rest2 = decimal(a3).push('.') + decimal(a4);
    let a_rest1 = decimal(a2).push('.') + a_rest2;
    let b_rest2 = decimal(b3).push('.') + decimal(b4);
    let b_rest1 = decimal(b2).push('.') + b_rest2;
    lemma_split_at_dot(decimal(a1), a_rest1, decimal(b1), b_rest1);
    lemma_split_at_dot(decimal(a2), a_rest2, decimal(b2), b_rest2);
    lemma_split_at_dot(decimal(a3), decimal(a4), decimal(b3), decimal(b4));
    lemma_decimal_injective(a1, b1);
    lemma_decimal_injective(a2, b2);
    lemma_decimal_injective(a3, b3);
    lemma_decimal_injective(a4, b4);
}

/// An address is made of its four octets.
proof fn lemma_octets_make_the_address(a: u32)
    ensures
        a == (a / 0x100_0000) * 0x100_0000 + ((a / 0x1_0000) % 0x100) * 0x1_0000 + ((a / 0x100)
            % 0x100) * 0x100 + a % 0x100,
{
}

/// Different addresses are written differently: the text of an address
/// names one host only.
pub proof fn lemma_dotted_quad_injective(a: u32, b: u32)
    requires
        dotted_quad(a) == dotted_quad(b),
    ensures
        a == b,
{
    let a1 = (a / 0x100_0000) as nat;
    let a2 = ((a / 0x1_0000) % 0x100) as nat;
    let a3 = ((a / 0x100) % 0x100) as nat;
    let a4 = (a % 0x100) as nat;
    let b1 = (b / 0x100_0000) as nat;
    let b2 = ((b / 0x1_0000) % 0x100) as nat;
    let b3 = ((b / 0x100) % 0x100) as nat;
    let b4 = (b % 0x100) as nat;
    assert(dotted_quad(a) =~= quad_text(a1, a2, a3, a4));
    assert(dotted_quad(b) =~= quad_text(b1, b2, b3, b4));
    lemma_quad_text_injective(a1, a2, a3, a4, b1, b2, b3, b4);
    lemma_octets_make_the_address(a);
    lemma_octets_make_the_address(b);
}

} // verus!
