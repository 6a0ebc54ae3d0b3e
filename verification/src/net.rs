//! Internet addresses and address ranges as plain integers.

use vstd::prelude::*;

use crate::header::plain_ascii;
use crate::text::{concat3, dec, decimal, hex, join};

verus! {

/// An IP address: the 32 or 128 bits of it, most significant octet first.
#[derive(Clone, Copy, Debug, PartialEq, Eq, Structural)]
pub enum IpAddr {
    /// An IPv4 address.
    V4(u32),
    /// An IPv6 address.
    V6(u128),
}

/// A range of addresses that share their first `prefix_len` bits with `addr`.
#[derive(Clone, Copy, Debug, PartialEq, Eq, Structural)]
#[allow(inconsistent_fields)]
pub enum IpNet {
    /// A range of IPv4 addresses.
    V4 {
        /// An address of the range.
        addr: u32,
        /// How many leading bits are fixed, at most 32.
        prefix_len: u8,
    },
    /// A range of IPv6 addresses.
    V6 {
        /// An address of the range.
        addr: u128,
        /// How many leading bits are fixed, at most 128.
        prefix_len: u8,
    },
}

/// An IP address with a port.
#[derive(Clone, Copy, Debug, PartialEq, Eq, Structural)]
pub struct SocketAddr {
    /// The address.
    pub ip: IpAddr,
    /// The port.
    pub port: u16,
}

/// The value of four octets, most significant first.
pub open spec fn octets_value(a: u8, b: u8, c: u8, d: u8) -> nat {
    (a as nat) * 0x100_0000 + (b as nat) * 0x1_0000 + (c as nat) * 0x100 + (d as nat)
}

/// The value of a sequence of 16-bit groups, most significant first.
pub open spec fn groups_value(g: Seq<u16>) -> nat
    decreases g.len(),
{
    if g.len() == 0 {
        0
    } else {
        groups_value(g.drop_last()) * 0x1_0000 + g.last() as nat
    }
}

/// Eight groups: `head`, then zeros, then `tail`.
pub open spec fn filled(head: Seq<u16>, tail: Seq<u16>) -> Seq<u16> {
    head + Seq::new((8 - head.len() - tail.len()) as nat, |i: int| 0u16) + tail
}

/// The dotted notation of four octets.
pub open spec fn v4_text(a: u8, b: u8, c: u8, d: u8) -> Seq<char> {
    dec(a as nat) + seq!['.'] + dec(b as nat) + seq!['.'] + dec(c as nat) + seq!['.'] + dec(
        d as nat,
    )
}

/// The notation of a group sequence with colons between the groups.
pub open spec fn groups_text(g: Seq<u16>) -> Seq<char> {
    join(g.map_values(|x: u16| hex(x as nat)), seq![':'])
}

/// The notation of eight groups in which `::` stands for the zeros between
/// `head` and `tail`.
pub open spec fn v6_text(head: Seq<u16>, tail: Seq<u16>) -> Seq<char> {
    groups_text(head) + seq![':', ':'] + groups_text(tail)
}

impl IpNet {
    /// The prefix length fits the family.
    pub open spec fn wf(self) -> bool {
        match self {
            IpNet::V4 { prefix_len, .. } => prefix_len <= 32,
            IpNet::V6 { prefix_len, .. } => prefix_len <= 128,
        }
    }

    /// Whether `ip` lies in the range: it is of the same family and agrees
    /// with `addr` in the fixed bits.
    pub open spec fn spec_contains(self, ip: IpAddr) -> bool {
        match (self, ip) {
            (IpNet::V4 { addr, prefix_len }, IpAddr::V4(bits)) => {
                prefix_len == 0 || (bits >> ((32 - prefix_len) as u32)) == (addr >> ((32
                    - prefix_len) as u32))
            },
            (IpNet::V6 { addr, prefix_len }, IpAddr::V6(bits)) => {
                prefix_len == 0 || (bits >> ((128 - prefix_len) as u128)) == (addr >> ((128
                    - prefix_len) as u128))
            },
            _ => false,
        }
    }

    /// Whether `ip` lies in the range, as `ipnet::IpNet::contains` decides it:
    /// the family is the same and the fixed bits agree.
    #[verifier::external_body]
    pub(crate) fn contains(&self, ip: &IpAddr) -> (r: bool)
        requires
            self.wf(),
        ensures
            r == self.spec_contains(*ip),
    {
        let range: ipnet::IpNet = match self {
            IpNet::V4 { addr, prefix_len } => ipnet::Ipv4Net::new_assert((*addr).into(), *prefix_len).into(),
            IpNet::V6 { addr, prefix_len } => ipnet::Ipv6Net::new_assert((*addr).into(), *prefix_len).into(),
        };
        let host: ipnet::IpNet = match ip {
            IpAddr::V4(bits) => ipnet::Ipv4Net::new_assert((*bits).into(), 32).into(),
            IpAddr::V6(bits) => ipnet::Ipv6Net::new_assert((*bits).into(), 128).into(),
        };
        range.contains(&host.addr())
    }
}

/// What the `FromStr` of `ipnet::IpNet` reads in a text.
pub uninterp spec fn ipnet_parse(text: Seq<char>) -> Option<IpNet>;

/// What is known of `net`, the range read in `text`: it is well formed; the
/// usual dotted notation, and the usual group notation with one `::`, each
/// followed by `/` and a decimal prefix length in range, are read as written.
pub open spec fn reads_range(text: Seq<char>, net: Option<IpNet>) -> bool {
    &&& net matches Some(n) ==> n.wf()
    &&& forall|a: u8, b: u8, c: u8, d: u8, p: u8|
        p <= 32 && text == #[trigger] v4_text(a, b, c, d) + seq!['/'] + #[trigger] dec(p as nat)
            ==> (net matches Some(IpNet::V4 { addr, prefix_len }) && addr == octets_value(
            a,
            b,
            c,
            d,
        ) && prefix_len == p)
    &&& forall|head: Seq<u16>, tail: Seq<u16>, p: u8|
        p <= 128 && head.len() + tail.len() <= 7 && text == #[trigger] v6_text(head, tail) + seq![
            '/',
        ] + #[trigger] dec(p as nat) ==> (net matches Some(IpNet::V6 { addr, prefix_len }) && addr
            == groups_value(filled(head, tail)) && prefix_len == p)
}

/// The range written in `text`, as the `FromStr` of `ipnet::IpNet` reads it,
/// or `None` where it reports an error. Beyond the name of the result it is
/// claimed only how the plain notations are read (see [`reads_range`]).
#[verifier::external_body]
pub(crate) fn parse_range(text: &str) -> (r: Option<IpNet>)
    ensures
        r == ipnet_parse(text@),
        reads_range(text@, r),
{
    text.parse::<ipnet::IpNet>().ok().map(|net| match net {
        ipnet::IpNet::V4(n) => IpNet::V4 { addr: n.addr().into(), prefix_len: n.prefix_len() },
        ipnet::IpNet::V6(n) => IpNet::V6 { addr: n.addr().into(), prefix_len: n.prefix_len() },
    })
}

/// The IP address that a text denotes, if it denotes one.
pub uninterp spec fn ip_literal(text: Seq<char>) -> Option<IpAddr>;

/// What is known of `ip`, the address read in `text`: the usual dotted
/// notation, the notation of all eight groups, and that with one `::` are read
/// as written.
pub open spec fn reads_ip(text: Seq<char>, ip: Option<IpAddr>) -> bool {
    &&& forall|a: u8, b: u8, c: u8, d: u8|
        text == #[trigger] v4_text(a, b, c, d) ==> (ip matches Some(IpAddr::V4(bits)) && bits
            == octets_value(a, b, c, d))
    &&& forall|g: Seq<u16>|
        g.len() == 8 && text == #[trigger] groups_text(g) ==> (ip matches Some(IpAddr::V6(bits))
            && bits == groups_value(g))
    &&& forall|head: Seq<u16>, tail: Seq<u16>|
        head.len() + tail.len() <= 7 && text == #[trigger] v6_text(head, tail) ==> (
        ip matches Some(IpAddr::V6(bits)) && bits == groups_value(filled(head, tail)))
}

/// Whether `text` is a plain notation of `ip`: the dotted one, that of all
/// eight groups, or one with a `::`.
pub open spec fn plain_notation(text: Seq<char>, ip: IpAddr) -> bool {
    match ip {
        IpAddr::V4(bits) => exists|a: u8, b: u8, c: u8, d: u8|
            text == #[trigger] v4_text(a, b, c, d) && bits == octets_value(a, b, c, d),
        IpAddr::V6(bits) => {
            ||| exists|g: Seq<u16>|
                g.len() == 8 && text == #[trigger] groups_text(g) && bits == groups_value(g)
            ||| exists|head: Seq<u16>, tail: Seq<u16>|
                head.len() + tail.len() <= 7 && text == #[trigger] v6_text(head, tail) && bits
                    == groups_value(filled(head, tail))
        },
    }
}

/// The address that `text` denotes, as the standard library's `FromStr` for
/// IP addresses reads it, or `None` where it reports an error. The usual
/// dotted notation, that of all eight groups, and that with one `::` are read
/// as written.
#[verifier::external_body]
pub(crate) fn parse_ip(text: &str) -> (r: Option<IpAddr>)
    ensures
        r == ip_literal(text@),
        reads_ip(text@, r),
{
    text.parse().ok().and_then(|ip| ipnet::IpNet::new(ip, 0).ok()).map(|net| match net {
        ipnet::IpNet::V4(n) => IpAddr::V4(n.addr().into()),
        ipnet::IpNet::V6(n) => IpAddr::V6(n.addr().into()),
    })
}

/// The text that the standard library displays for an IP address.
pub uninterp spec fn ip_text(ip: IpAddr) -> Seq<char>;

/// Whether `text` is made as the notations of addresses are: it is not empty,
/// and holds only lower-case hexadecimal digits, colons and dots.
pub open spec fn address_form(text: Seq<char>) -> bool {
    &&& text.len() > 0
    &&& forall|i: int|
        0 <= i < text.len() ==> '0' <= #[trigger] text[i] <= '9' || 'a' <= text[i] <= 'f'
            || text[i] == ':' || text[i] == '.'
}

/// What is known of `text`, the text displayed for `ip`: it is made as the
/// notations of addresses are, and for an IPv4 address it is the dotted
/// notation.
pub open spec fn shows_ip(ip: IpAddr, text: Seq<char>) -> bool {
    &&& address_form(text)
    &&& forall|a: u8, b: u8, c: u8, d: u8|
        (ip matches IpAddr::V4(bits) && bits == octets_value(a, b, c, d)) ==> text
            == #[trigger] v4_text(a, b, c, d)
}

/// The text of `ip`, as the standard library's `Display` for IP addresses
/// writes it: hexadecimal digits in lower case, colons and dots; for an IPv4
/// address the dotted notation.
#[verifier::external_body]
pub(crate) fn show_ip(ip: &IpAddr) -> (r: String)
    ensures
        r@ == ip_text(*ip),
        shows_ip(*ip, r@),
{
    let net: ipnet::IpNet = match ip {
        IpAddr::V4(bits) => ipnet::Ipv4Net::new_assert((*bits).into(), 32).into(),
        IpAddr::V6(bits) => ipnet::Ipv6Net::new_assert((*bits).into(), 128).into(),
    };
    net.addr().to_string()
}

impl IpAddr {
    /// The IPv4 address with these octets.
    pub fn v4(a: u8, b: u8, c: u8, d: u8) -> (r: IpAddr)
        ensures
            r matches IpAddr::V4(bits) && bits == octets_value(a, b, c, d),
    {
        IpAddr::V4(
            (a as u32) * 0x100_0000 + (b as u32) * 0x1_0000 + (c as u32) * 0x100 + (d as u32),
        )
    }

    /// Whether the address is an IPv6 address.
    pub fn is_ipv6(&self) -> (r: bool)
        ensures
            r == (*self is V6),
    {
        match self {
            IpAddr::V4(_) => false,
            IpAddr::V6(_) => true,
        }
    }

    /// The address that `text` denotes.
    pub fn parse(text: &str) -> (r: Option<IpAddr>)
        ensures
            r == ip_literal(text@),
            reads_ip(text@, r),
            forall|ip: IpAddr| #[trigger] plain_notation(text@, ip) ==> r == Some(ip),
    {
        parse_ip(text)
    }

    /// The usual notation of the address.
    pub fn text(&self) -> (r: String)
        ensures
            r@ == ip_text(*self),
            shows_ip(*self, r@),
    {
        show_ip(self)
    }
}

impl IpNet {
    /// The range written in `text`.
    pub fn parse(text: &str) -> (r: Option<IpNet>)
        ensures
            r == ipnet_parse(text@),
            reads_range(text@, r),
    {
        parse_range(text)
    }

    /// The notation of the range: an address of it, `/` and the prefix length.
    pub fn text(&self) -> (r: String)
        ensures
            match *self {
                IpNet::V4 { addr, prefix_len } => r@ == ip_text(IpAddr::V4(addr)) + "/"@ + dec(
                    prefix_len as nat,
                ),
                IpNet::V6 { addr, prefix_len } => r@ == ip_text(IpAddr::V6(addr)) + "/"@ + dec(
                    prefix_len as nat,
                ),
            },
    {
        let (ip, prefix_len): (IpAddr, u8) = match self {
            IpNet::V4 { addr, prefix_len } => (IpAddr::V4(*addr), *prefix_len),
            IpNet::V6 { addr, prefix_len } => (IpAddr::V6(*addr), *prefix_len),
        };
        let shown = show_ip(&ip);
        let bits = decimal(prefix_len as u64);
        concat3(&shown, "/", &bits)
    }
}

} // verus!
