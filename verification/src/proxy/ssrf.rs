//! SSRF protection.
//!
//! Every resolved address is first standardised: an IPv4-mapped IPv6 address
//! is folded back to the IPv4 address it stands for. It is then held against
//! the operator's allow list, against the built-in ranges as far as the mode
//! blocks them, and against the operator's block list, which holds in every
//! mode.

use vstd::prelude::*;

use crate::config::ssrf::{SsrfConfig, SsrfMode};
use crate::error::{ErrorView, ProxyError};
use crate::net::{
    filled, groups_text, groups_value, ip_literal, ipnet_parse, octets_value, parse_ip, parse_range,
    plain_notation, reads_range, v4_text, v6_text, IpAddr, IpNet, SocketAddr,
};
use crate::text::{dec, from_chars, hex, join, to_chars};

verus! {

/// The IPv4 range `a.b.c.d/p`.
pub open spec fn net4(a: u8, b: u8, c: u8, d: u8, p: u8) -> IpNet {
    IpNet::V4 { addr: octets_value(a, b, c, d) as u32, prefix_len: p }
}

/// The IPv6 range whose groups are `head`, zeros, `tail`.
pub open spec fn net6(head: Seq<u16>, tail: Seq<u16>, p: u8) -> IpNet {
    IpNet::V6 { addr: groups_value(filled(head, tail)) as u128, prefix_len: p }
}

/// The built-in ranges. None is reachable in strict mode.
pub open spec fn default_blocked() -> Seq<IpNet> {
    seq![
        net4(0, 0, 0, 0, 8),
        net4(10, 0, 0, 0, 8),
        net4(100, 64, 0, 0, 10),
        net4(127, 0, 0, 0, 8),
        net4(169, 254, 0, 0, 16),
        net4(172, 16, 0, 0, 12),
        net4(192, 0, 0, 0, 24),
        net4(192, 0, 2, 0, 24),
        net4(192, 168, 0, 0, 16),
        net4(198, 18, 0, 0, 15),
        net4(198, 51, 100, 0, 24),
        net4(203, 0, 113, 0, 24),
        net4(224, 0, 0, 0, 4),
        net4(240, 0, 0, 0, 4),
        net4(255, 255, 255, 255, 32),
        net6(seq![], seq![], 128),
        net6(seq![], seq![1], 128),
        net6(seq![], seq![0xffff, 0, 0], 96),
        net6(seq![0x64, 0xff9b], seq![], 96),
        net6(seq![0x64, 0xff9b, 1], seq![], 48),
        net6(seq![0x100], seq![], 64),
        net6(seq![0x2001, 0xdb8], seq![], 32),
        net6(seq![0x2002], seq![], 16),
        net6(seq![0xfc00], seq![], 7),
        net6(seq![0xfe80], seq![], 10),
        net6(seq![0xff00], seq![], 8),
    ]
}

/// The built-in ranges that are private: those of RFC 1918, and unique-local
/// IPv6. Permissive mode opens them.
pub open spec fn private_ranges() -> Seq<IpNet> {
    seq![
        net4(10, 0, 0, 0, 8),
        net4(172, 16, 0, 0, 12),
        net4(192, 168, 0, 0, 16),
        net6(seq![0xfc00], seq![], 7),
    ]
}

/// The notations of the ranges of [`default_blocked`].
pub open spec fn default_blocked_texts() -> Seq<&'static str> {
    seq![
        "0.0.0.0/8",
        "10.0.0.0/8",
        "100.64.0.0/10",
        "127.0.0.0/8",
        "169.254.0.0/16",
        "172.16.0.0/12",
        "192.0.0.0/24",
        "192.0.2.0/24",
        "192.168.0.0/16",
        "198.18.0.0/15",
        "198.51.100.0/24",
        "203.0.113.0/24",
        "224.0.0.0/4",
        "240.0.0.0/4",
        "255.255.255.255/32",
        "::/128",
        "::1/128",
        "::ffff:0:0/96",
        "64:ff9b::/96",
        "64:ff9b:1::/48",
        "100::/64",
        "2001:db8::/32",
        "2002::/16",
        "fc00::/7",
        "fe80::/10",
        "ff00::/8",
    ]
}

/// The notations of the ranges of [`private_ranges`].
pub open spec fn private_texts() -> Seq<&'static str> {
    seq!["10.0.0.0/8", "172.16.0.0/12", "192.168.0.0/16", "fc00::/7"]
}

/// Every text of `raw` is read as its notation says.
pub open spec fn reads_all(raw: Seq<&'static str>) -> bool {
    forall|i: int|
        0 <= i < raw.len() ==> reads_range((#[trigger] raw[i])@, ipnet_parse(raw[i]@))
}

/// The ranges read in `raw`, in order; what is no range is passed over.
pub open spec fn parsed(raw: Seq<&'static str>) -> Seq<IpNet>
    decreases raw.len(),
{
    if raw.len() == 0 {
        Seq::empty()
    } else {
        match ipnet_parse(raw.last()@) {
            Some(net) => parsed(raw.drop_last()).push(net),
            None => parsed(raw.drop_last()),
        }
    }
}

/// Every range is well formed.
pub open spec fn all_wf(nets: Seq<IpNet>) -> bool {
    forall|i: int| 0 <= i < nets.len() ==> (#[trigger] nets[i]).wf()
}

/// The texts of the ranges blocked in strict mode.
pub fn default_blocked_cidrs() -> (r: Vec<&'static str>)
    ensures
        r@ == default_blocked_texts(),
{
    vec![
        // "This network".
        "0.0.0.0/8",
        // Private use.
        "10.0.0.0/8",
        // Carrier-grade NAT.
        "100.64.0.0/10",
        // Loopback.
        "127.0.0.0/8",
        // Link-local, with the metadata services of cloud providers.
        "169.254.0.0/16",
        // Private use.
        "172.16.0.0/12",
        // Protocol assignments.
        "192.0.0.0/24",
        // Documentation.
        "192.0.2.0/24",
        // Private use.
        "192.168.0.0/16",
        // Benchmarking.
        "198.18.0.0/15",
        // Documentation.
        "198.51.100.0/24",
        // Documentation.
        "203.0.113.0/24",
        // Multicast.
        "224.0.0.0/4",
        // Reserved.
        "240.0.0.0/4",
        // Limited broadcast.
        "255.255.255.255/32",
        // Unspecified.
        "::/128",
        // Loopback.
        "::1/128",
        // IPv4-mapped; never met after standardisation, kept in depth.
        "::ffff:0:0/96",
        // IPv4/IPv6 translation.
        "64:ff9b::/96",
        // Local IPv4/IPv6 translation.
        "64:ff9b:1::/48",
        // Discard prefix.
        "100::/64",
        // Documentation.
        "2001:db8::/32",
        // 6to4.
        "2002::/16",
        // Unique local.
        "fc00::/7",
        // Link-local.
        "fe80::/10",
        // Multicast.
        "ff00::/8",
    ]
}

/// The texts of the private ranges.
pub fn private_cidrs() -> (r: Vec<&'static str>)
    ensures
        r@ == private_texts(),
{
    vec!["10.0.0.0/8", "172.16.0.0/12", "192.168.0.0/16", "fc00::/7"]
}

/// Reads a list of ranges: the ranges of `builtin`, then `extras`.
pub fn compile_cidr_list(builtin: &[&'static str], extras: &[IpNet]) -> (r: Vec<IpNet>)
    ensures
        r@ == parsed(builtin@) + extras@,
        all_wf(parsed(builtin@)),
        reads_all(builtin@),
{
    let mut list: Vec<IpNet> = Vec::new();
    let mut i: usize = 0;
    while i < builtin.len()
        invariant
            i <= builtin@.len(),
            list@ == parsed(builtin@.take(i as int)),
            all_wf(list@),
            forall|j: int|
                0 <= j < i ==> reads_range((#[trigger] builtin@[j])@, ipnet_parse(builtin@[j]@)),
        decreases builtin@.len() - i,
    {
        proof {
            assert(builtin@.take(i + 1).drop_last() == builtin@.take(i as int));
        }
        if let Some(net) = parse_range(builtin[i]) {
            list.push(net);
        }
        i += 1;
    }
    proof {
        assert(builtin@.take(i as int) == builtin@);
    }
    let ghost base = list@;
    let mut j: usize = 0;
    while j < extras.len()
        invariant
            j <= extras@.len(),
            list@ == base + extras@.take(j as int),
        decreases extras@.len() - j,
    {
        list.push(extras[j]);
        j += 1;
    }
    proof {
        assert(extras@.take(j as int) == extras@);
    }
    list
}

/// Where `text` is read as its notation says, it is read as `net`.
pub open spec fn reads_as(text: Seq<char>, net: IpNet) -> bool {
    reads_range(text, ipnet_parse(text)) ==> ipnet_parse(text) == Some(net)
}

/// A text in dotted notation is read as the range it denotes.
proof fn lemma_reads_v4(text: Seq<char>, a: u8, b: u8, c: u8, d: u8, p: u8)
    requires
        p <= 32,
        text == v4_text(a, b, c, d) + seq!['/'] + dec(p as nat),
    ensures
        reads_as(text, net4(a, b, c, d, p)),
{
}

/// A text in group notation is read as the range it denotes.
proof fn lemma_reads_v6(text: Seq<char>, head: Seq<u16>, tail: Seq<u16>, p: u8)
    requires
        p <= 128,
        head.len() + tail.len() <= 7,
        text == v6_text(head, tail) + seq!['/'] + dec(p as nat),
    ensures
        reads_as(text, net6(head, tail, p)),
{
}

/// The notation of at most three groups, spelled out.
proof fn lemma_groups_text(g: Seq<u16>)
    requires
        g.len() <= 3,
    ensures
        g.len() == 0 ==> groups_text(g) == Seq::<char>::empty(),
        g.len() == 1 ==> groups_text(g) == hex(g[0] as nat),
        g.len() == 2 ==> groups_text(g) == hex(g[0] as nat) + seq![':'] + hex(g[1] as nat),
        g.len() == 3 ==> groups_text(g) == hex(g[0] as nat) + seq![':'] + hex(g[1] as nat) + seq![
            ':',
        ] + hex(g[2] as nat),
{
    reveal_with_fuel(join, 4);
}

/// The IPv4 texts of the block list are read as the ranges they denote.
pub(crate) proof fn lemma_default_v4()
    ensures
        reads_as("0.0.0.0/8"@, net4(0, 0, 0, 0, 8)),
        reads_as("10.0.0.0/8"@, net4(10, 0, 0, 0, 8)),
        reads_as("100.64.0.0/10"@, net4(100, 64, 0, 0, 10)),
        reads_as("127.0.0.0/8"@, net4(127, 0, 0, 0, 8)),
        reads_as("169.254.0.0/16"@, net4(169, 254, 0, 0, 16)),
        reads_as("172.16.0.0/12"@, net4(172, 16, 0, 0, 12)),
        reads_as("192.0.0.0/24"@, net4(192, 0, 0, 0, 24)),
        reads_as("192.0.2.0/24"@, net4(192, 0, 2, 0, 24)),
        reads_as("192.168.0.0/16"@, net4(192, 168, 0, 0, 16)),
        reads_as("198.18.0.0/15"@, net4(198, 18, 0, 0, 15)),
        reads_as("198.51.100.0/24"@, net4(198, 51, 100, 0, 24)),
        reads_as("203.0.113.0/24"@, net4(203, 0, 113, 0, 24)),
        reads_as("224.0.0.0/4"@, net4(224, 0, 0, 0, 4)),
        reads_as("240.0.0.0/4"@, net4(240, 0, 0, 0, 4)),
        reads_as("255.255.255.255/32"@, net4(255, 255, 255, 255, 32)),
{
    reveal_with_fuel(dec, 4);
    assert("0.0.0.0/8"@ == v4_text(0, 0, 0, 0) + seq!['/'] + dec(8)) by {
        reveal_strlit("0.0.0.0/8");
    }
    lemma_reads_v4("0.0.0.0/8"@, 0, 0, 0, 0, 8);
    assert("10.0.0.0/8"@ == v4_text(10, 0, 0, 0) + seq!['/'] + dec(8)) by {
        reveal_strlit("10.0.0.0/8");
    }
    lemma_reads_v4("10.0.0.0/8"@, 10, 0, 0, 0, 8);
    assert("100.64.0.0/10"@ == v4_text(100, 64, 0, 0) + seq!['/'] + dec(10)) by {
        reveal_strlit("100.64.0.0/10");
    }
    lemma_reads_v4("100.64.0.0/10"@, 100, 64, 0, 0, 10);
    assert("127.0.0.0/8"@ == v4_text(127, 0, 0, 0) + seq!['/'] + dec(8)) by {
        reveal_strlit("127.0.0.0/8");
    }
    lemma_reads_v4("127.0.0.0/8"@, 127, 0, 0, 0, 8);
    assert("169.254.0.0/16"@ == v4_text(169, 254, 0, 0) + seq!['/'] + dec(16)) by {
        reveal_strlit("169.254.0.0/16");
    }
    lemma_reads_v4("169.254.0.0/16"@, 169, 254, 0, 0, 16);
    assert("172.16.0.0/12"@ == v4_text(172, 16, 0, 0) + seq!['/'] + dec(12)) by {
        reveal_strlit("172.16.0.0/12");
    }
    lemma_reads_v4("172.16.0.0/12"@, 172, 16, 0, 0, 12);
    assert("192.0.0.0/24"@ == v4_text(192, 0, 0, 0) + seq!['/'] + dec(24)) by {
        reveal_strlit("192.0.0.0/24");
    }
    lemma_reads_v4("192.0.0.0/24"@, 192, 0, 0, 0, 24);
    assert("192.0.2.0/24"@ == v4_text(192, 0, 2, 0) + seq!['/'] + dec(24)) by {
        reveal_strlit("192.0.2.0/24");
    }
    lemma_reads_v4("192.0.2.0/24"@, 192, 0, 2, 0, 24);
    assert("192.168.0.0/16"@ == v4_text(192, 168, 0, 0) + seq!['/'] + dec(16)) by {
        reveal_strlit("192.168.0.0/16");
    }
    lemma_reads_v4("192.168.0.0/16"@, 192, 168, 0, 0, 16);
    assert("198.18.0.0/15"@ == v4_text(198, 18, 0, 0) + seq!['/'] + dec(15)) by {
        reveal_strlit("198.18.0.0/15");
    }
    lemma_reads_v4("198.18.0.0/15"@, 198, 18, 0, 0, 15);
    assert("198.51.100.0/24"@ == v4_text(198, 51, 100, 0) + seq!['/'] + dec(24)) by {
        reveal_strlit("198.51.100.0/24");
    }
    lemma_reads_v4("198.51.100.0/24"@, 198, 51, 100, 0, 24);
    assert("203.0.113.0/24"@ == v4_text(203, 0, 113, 0) + seq!['/'] + dec(24)) by {
        reveal_strlit("203.0.113.0/24");
    }
    lemma_reads_v4("203.0.113.0/24"@, 203, 0, 113, 0, 24);
    assert("224.0.0.0/4"@ == v4_text(224, 0, 0, 0) + seq!['/'] + dec(4)) by {
        reveal_strlit("224.0.0.0/4");
    }
    lemma_reads_v4("224.0.0.0/4"@, 224, 0, 0, 0, 4);
    assert("240.0.0.0/4"@ == v4_text(240, 0, 0, 0) + seq!['/'] + dec(4)) by {
        reveal_strlit("240.0.0.0/4");
    }
    lemma_reads_v4("240.0.0.0/4"@, 240, 0, 0, 0, 4);
    assert("255.255.255.255/32"@ == v4_text(255, 255, 255, 255) + seq!['/'] + dec(32)) by {
        reveal_strlit("255.255.255.255/32");
    }
    lemma_reads_v4("255.255.255.255/32"@, 255, 255, 255, 255, 32);
}

/// The IPv6 texts of the block list are read as the ranges they denote.
pub(crate) proof fn lemma_default_v6()
    ensures
        reads_as("::/128"@, net6(seq![], seq![], 128)),
        reads_as("::1/128"@, net6(seq![], seq![1u16], 128)),
        reads_as("::ffff:0:0/96"@, net6(seq![], seq![0xffffu16, 0, 0], 96)),
        reads_as("64:ff9b::/96"@, net6(seq![0x64u16, 0xff9b], seq![], 96)),
        reads_as("64:ff9b:1::/48"@, net6(seq![0x64u16, 0xff9b, 1], seq![], 48)),
        reads_as("100::/64"@, net6(seq![0x100u16], seq![], 64)),
        reads_as("2001:db8::/32"@, net6(seq![0x2001u16, 0xdb8], seq![], 32)),
        reads_as("2002::/16"@, net6(seq![0x2002u16], seq![], 16)),
        reads_as("fc00::/7"@, net6(seq![0xfc00u16], seq![], 7)),
        reads_as("fe80::/10"@, net6(seq![0xfe80u16], seq![], 10)),
        reads_as("ff00::/8"@, net6(seq![0xff00u16], seq![], 8)),
{
    reveal_with_fuel(dec, 4);
    reveal_with_fuel(hex, 5);
    assert("::/128"@ == v6_text(Seq::<u16>::empty(), Seq::<u16>::empty()) + seq!['/'] + dec(128)) by {
        reveal_strlit("::/128");
        lemma_groups_text(Seq::<u16>::empty());
        lemma_groups_text(Seq::<u16>::empty());
    }
    lemma_reads_v6("::/128"@, Seq::<u16>::empty(), Seq::<u16>::empty(), 128);
    assert("::1/128"@ == v6_text(Seq::<u16>::empty(), seq![1u16]) + seq!['/'] + dec(128)) by {
        reveal_strlit("::1/128");
        lemma_groups_text(Seq::<u16>::empty());
        lemma_groups_text(seq![1u16]);
    }
    lemma_reads_v6("::1/128"@, Seq::<u16>::empty(), seq![1u16], 128);
    assert("::ffff:0:0/96"@ == v6_text(Seq::<u16>::empty(), seq![0xffffu16, 0, 0]) + seq!['/'] + dec(96)) by {
        reveal_strlit("::ffff:0:0/96");
        lemma_groups_text(Seq::<u16>::empty());
        lemma_groups_text(seq![0xffffu16, 0, 0]);
    }
    lemma_reads_v6("::ffff:0:0/96"@, Seq::<u16>::empty(), seq![0xffffu16, 0, 0], 96);
    assert("64:ff9b::/96"@ == v6_text(seq![0x64u16, 0xff9b], Seq::<u16>::empty()) + seq!['/'] + dec(96)) by {
        reveal_strlit("64:ff9b::/96");
        lemma_groups_text(seq![0x64u16, 0xff9b]);
        lemma_groups_text(Seq::<u16>::empty());
    }
    lemma_reads_v6("64:ff9b::/96"@, seq![0x64u16, 0xff9b], Seq::<u16>::empty(), 96);
    assert("64:ff9b:1::/48"@ == v6_text(seq![0x64u16, 0xff9b, 1], Seq::<u16>::empty()) + seq!['/'] + dec(48)) by {
        reveal_strlit("64:ff9b:1::/48");
        lemma_groups_text(seq![0x64u16, 0xff9b, 1]);
        lemma_groups_text(Seq::<u16>::empty());
    }
    lemma_reads_v6("64:ff9b:1::/48"@, seq![0x64u16, 0xff9b, 1], Seq::<u16>::empty(), 48);
    assert("100::/64"@ == v6_text(seq![0x100u16], Seq::<u16>::empty()) + seq!['/'] + dec(64)) by {
        reveal_strlit("100::/64");
        lemma_groups_text(seq![0x100u16]);
        lemma_groups_text(Seq::<u16>::empty());
    }
    lemma_reads_v6("100::/64"@, seq![0x100u16], Seq::<u16>::empty(), 64);
    assert("2001:db8::/32"@ == v6_text(seq![0x2001u16, 0xdb8], Seq::<u16>::empty()) + seq!['/'] + dec(32)) by {
        reveal_strlit("2001:db8::/32");
        lemma_groups_text(seq![0x2001u16, 0xdb8]);
        lemma_groups_text(Seq::<u16>::empty());
    }
    lemma_reads_v6("2001:db8::/32"@, seq![0x2001u16, 0xdb8], Seq::<u16>::empty(), 32);
    assert("2002::/16"@ == v6_text(seq![0x2002u16], Seq::<u16>::empty()) + seq!['/'] + dec(16)) by {
        reveal_strlit("2002::/16");
        lemma_groups_text(seq![0x2002u16]);
        lemma_groups_text(Seq::<u16>::empty());
    }
    lemma_reads_v6("2002::/16"@, seq![0x2002u16], Seq::<u16>::empty(), 16);
    assert("fc00::/7"@ == v6_text(seq![0xfc00u16], Seq::<u16>::empty()) + seq!['/'] + dec(7)) by {
        reveal_strlit("fc00::/7");
        lemma_groups_text(seq![0xfc00u16]);
        lemma_groups_text(Seq::<u16>::empty());
    }
    lemma_reads_v6("fc00::/7"@, seq![0xfc00u16], Seq::<u16>::empty(), 7);
    assert("fe80::/10"@ == v6_text(seq![0xfe80u16], Seq::<u16>::empty()) + seq!['/'] + dec(10)) by {
        reveal_strlit("fe80::/10");
        lemma_groups_text(seq![0xfe80u16]);
        lemma_groups_text(Seq::<u16>::empty());
    }
    lemma_reads_v6("fe80::/10"@, seq![0xfe80u16], Seq::<u16>::empty(), 10);
    assert("ff00::/8"@ == v6_text(seq![0xff00u16], Seq::<u16>::empty()) + seq!['/'] + dec(8)) by {
        reveal_strlit("ff00::/8");
        lemma_groups_text(seq![0xff00u16]);
        lemma_groups_text(Seq::<u16>::empty());
    }
    lemma_reads_v6("ff00::/8"@, seq![0xff00u16], Seq::<u16>::empty(), 8);
}

/// Where every text of `raw` is a range, the list holds all of them.
pub(crate) proof fn lemma_parsed_all(raw: Seq<&'static str>, nets: Seq<IpNet>)
    requires
        raw.len() == nets.len(),
        reads_all(raw),
        forall|i: int| 0 <= i < raw.len() ==> reads_as((#[trigger] raw[i])@, nets[i]),
    ensures
        parsed(raw) == nets,
    decreases raw.len(),
{
    if raw.len() > 0 {
        assert(reads_as(raw[raw.len() - 1]@, nets.last()));
        assert forall|i: int| 0 <= i < raw.drop_last().len() implies reads_as(
            (#[trigger] raw.drop_last()[i])@,
            nets.drop_last()[i],
        ) && reads_range(raw.drop_last()[i]@, ipnet_parse(raw.drop_last()[i]@)) by {
            assert(raw.drop_last()[i] == raw[i]);
        }
        lemma_parsed_all(raw.drop_last(), nets.drop_last());
        assert(nets.drop_last().push(nets.last()) == nets);
    }
}

/// The built-in texts are read as the built-in ranges.
proof fn lemma_builtin_ranges()
    requires
        reads_all(default_blocked_texts()),
        reads_all(private_texts()),
    ensures
        parsed(default_blocked_texts()) == default_blocked(),
        parsed(private_texts()) == private_ranges(),
{
    lemma_default_v4();
    lemma_default_v6();
    lemma_parsed_all(default_blocked_texts(), default_blocked());
    lemma_parsed_all(private_texts(), private_ranges());
}

/// Compiled SSRF guard.
#[derive(Debug)]
pub struct SsrfGuard {
    mode: SsrfMode,
    allow_ipv6: bool,
    builtin: Vec<IpNet>,
    private: Vec<IpNet>,
    extra: Vec<IpNet>,
    allowed: Vec<IpNet>,
}

/// The mathematical content of an [`SsrfGuard`].
pub struct GuardView {
    /// Operating mode.
    pub mode: SsrfMode,
    /// Whether IPv6 addresses are usable.
    pub allow_ipv6: bool,
    /// The built-in ranges, blocked as far as the mode says.
    pub builtin: Seq<IpNet>,
    /// The built-in ranges that permissive mode opens.
    pub private: Seq<IpNet>,
    /// The ranges blocked in every mode.
    pub extra: Seq<IpNet>,
    /// The ranges that override every block.
    pub allowed: Seq<IpNet>,
}

impl View for SsrfGuard {
    type V = GuardView;

    closed spec fn view(&self) -> GuardView {
        GuardView {
            mode: self.mode,
            allow_ipv6: self.allow_ipv6,
            builtin: self.builtin@,
            private: self.private@,
            extra: self.extra@,
            allowed: self.allowed@,
        }
    }
}

impl Clone for SsrfGuard {
    fn clone(&self) -> (r: SsrfGuard)
        ensures
            r@ == self@,
    {
        proof {
            use_type_invariant(self);
        }
        let builtin = self.builtin.clone();
        let private = self.private.clone();
        let extra = self.extra.clone();
        let allowed = self.allowed.clone();
        proof {
            assert(builtin@ == self.builtin@);
            assert(private@ == self.private@);
            assert(extra@ == self.extra@);
            assert(allowed@ == self.allowed@);
        }
        SsrfGuard { mode: self.mode, allow_ipv6: self.allow_ipv6, builtin, private, extra, allowed }
    }
}

/// The standard form of an address: an IPv4-mapped IPv6 address stands for
/// the IPv4 address in its last 32 bits.
pub open spec fn canonical(ip: IpAddr) -> IpAddr {
    match ip {
        IpAddr::V6(bits) => if 0xffff_0000_0000 <= bits <= 0xffff_ffff_ffff {
            IpAddr::V4((bits - 0xffff_0000_0000) as u32)
        } else {
            ip
        },
        IpAddr::V4(_) => ip,
    }
}

/// The first range of `nets` that holds `ip`.
pub open spec fn first_match(nets: Seq<IpNet>, ip: IpAddr) -> Option<IpNet>
    decreases nets.len(),
{
    if nets.len() == 0 {
        None
    } else if nets[0].spec_contains(ip) {
        Some(nets[0])
    } else {
        first_match(nets.drop_first(), ip)
    }
}

impl GuardView {
    /// Every range is well formed.
    pub open spec fn wf(self) -> bool {
        all_wf(self.builtin) && all_wf(self.private) && all_wf(self.extra) && all_wf(self.allowed)
    }

    /// The guard that `cfg` describes.
    pub open spec fn of(cfg: SsrfConfig) -> GuardView {
        GuardView {
            mode: cfg.mode,
            allow_ipv6: cfg.allow_ipv6,
            builtin: default_blocked(),
            private: private_ranges(),
            extra: cfg.extra_blocked_cidrs@,
            allowed: cfg.extra_allowed_cidrs@,
        }
    }

    /// The built-in range that keeps `ip` out in the mode at hand, if one
    /// does: strict mode blocks them all, permissive mode none with
    /// `allow_private`, and all but the private ones without.
    pub open spec fn builtin_range(self, ip: IpAddr) -> Option<IpNet> {
        match self.mode {
            SsrfMode::Strict => first_match(self.builtin, ip),
            SsrfMode::Permissive { allow_private } => if allow_private || first_match(
                self.private,
                ip,
            ) is Some {
                None
            } else {
                first_match(self.builtin, ip)
            },
        }
    }

    /// The range that keeps `ip` out, if one does: a built-in range, or else
    /// one of the operator's. The allow list wins over both.
    pub open spec fn blocking_range(self, ip: IpAddr) -> Option<IpNet> {
        if first_match(self.allowed, ip) is Some {
            None
        } else if self.builtin_range(ip) is Some {
            self.builtin_range(ip)
        } else {
            first_match(self.extra, ip)
        }
    }

    /// Whether the family of the standard form of `ip` may be used at all.
    pub open spec fn usable(self, ip: IpAddr) -> bool {
        self.allow_ipv6 || canonical(ip) is V4
    }

    /// Whether `ip` may be connected to.
    pub open spec fn admits(self, ip: IpAddr) -> bool {
        self.usable(ip) && self.blocking_range(canonical(ip)) is None
    }

    /// What checking the address `ip` gives: its standard form, or the refusal.
    pub open spec fn checked(self, ip: IpAddr) -> Result<IpAddr, ErrorView> {
        if self.admits(ip) {
            Ok(canonical(ip))
        } else {
            Err(ErrorView::SsrfBlocked(canonical(ip)))
        }
    }

    /// What checking `host`, as it stands in a URI, gives: the refusal where it
    /// is an address literal that is not admitted. A name passes; its addresses
    /// are checked when it is resolved.
    pub open spec fn host_checked(self, host: Seq<char>) -> Result<(), ErrorView> {
        match ip_literal(unbracketed(host)) {
            Some(ip) => match self.checked(ip) {
                Ok(_) => Ok(()),
                Err(err) => Err(err),
            },
            None => Ok(()),
        }
    }

    /// The admitted addresses of `found`, in standard form and order.
    pub open spec fn admissible(self, found: Seq<IpAddr>, port: u16) -> Seq<SocketAddr>
        decreases found.len(),
    {
        if found.len() == 0 {
            Seq::empty()
        } else {
            let rest = self.admissible(found.drop_last(), port);
            if self.admits(found.last()) {
                rest.push(SocketAddr { ip: canonical(found.last()), port })
            } else {
                rest
            }
        }
    }

    /// The standard form of the last usable address of `found` that a range
    /// keeps out.
    pub open spec fn last_violation(self, found: Seq<IpAddr>) -> Option<IpAddr>
        decreases found.len(),
    {
        if found.len() == 0 {
            None
        } else if self.usable(found.last()) && !self.admits(found.last()) {
            Some(canonical(found.last()))
        } else {
            self.last_violation(found.drop_last())
        }
    }

    /// The ranges that keep usable addresses of `found` out, in order.
    pub open spec fn interceptions(self, found: Seq<IpAddr>) -> Seq<IpNet>
        decreases found.len(),
    {
        if found.len() == 0 {
            Seq::empty()
        } else {
            let rest = self.interceptions(found.drop_last());
            match self.blocking_range(canonical(found.last())) {
                Some(net) => if self.usable(found.last()) {
                    rest.push(net)
                } else {
                    rest
                },
                None => rest,
            }
        }
    }

    /// What the addresses `found` for `host` come to: all that are admitted,
    /// or else the last refusal, or else that none is usable.
    pub open spec fn selected(self, host: Seq<char>, port: u16, found: Seq<IpAddr>) -> Result<
        Seq<SocketAddr>,
        ErrorView,
    > {
        if self.admissible(found, port).len() > 0 {
            Ok(self.admissible(found, port))
        } else {
            match self.last_violation(found) {
                Some(ip) => Err(ErrorView::SsrfBlocked(ip)),
                None => Err(
                    ErrorView::Dns { host, source: "no usable address returned by resolver"@ },
                ),
            }
        }
    }

    /// What `host` resolves to where the resolver answers `answer`: an address
    /// literal is checked as it stands, any other host goes by the answer.
    pub open spec fn resolved(
        self,
        host: Seq<char>,
        port: u16,
        answer: Result<Seq<IpAddr>, Seq<char>>,
    ) -> Result<Seq<SocketAddr>, ErrorView> {
        match ip_literal(host) {
            Some(ip) => match self.checked(ip) {
                Ok(ip) => Ok(seq![SocketAddr { ip, port }]),
                Err(err) => Err(err),
            },
            None => match answer {
                Ok(found) => self.selected(host, port, found),
                Err(source) => Err(ErrorView::Dns { host, source }),
            },
        }
    }
}

/// A host without the brackets that an IPv6 address has in a URI.
pub open spec fn unbracketed(host: Seq<char>) -> Seq<char> {
    if host.len() >= 2 && host[0] == '[' && host.last() == ']' {
        host.subrange(1, host.len() - 1)
    } else {
        host
    }
}

/// Whether `host`, as it stands in a URI, is a plain notation of `ip`, in
/// brackets or without.
pub open spec fn denotes(host: Seq<char>, ip: IpAddr) -> bool {
    plain_notation(unbracketed(host), ip)
}

/// The first range of `nets` that holds `ip`.
pub fn find_range(nets: &Vec<IpNet>, ip: &IpAddr) -> (r: Option<IpNet>)
    requires
        all_wf(nets@),
    ensures
        r == first_match(nets@, *ip),
{
    let mut i: usize = 0;
    proof {
        assert(nets@.skip(0) == nets@);
    }
    while i < nets.len()
        invariant
            i <= nets@.len(),
            all_wf(nets@),
            first_match(nets@, *ip) == first_match(nets@.skip(i as int), *ip),
        decreases nets@.len() - i,
    {
        proof {
            assert(nets@.skip(i as int)[0] == nets@[i as int]);
            assert(nets@.skip(i as int).drop_first() == nets@.skip(i + 1));
        }
        if nets[i].contains(ip) {
            return Some(nets[i]);
        }
        i += 1;
    }
    None
}

impl SsrfGuard {
    #[verifier::type_invariant]
    spec fn inv(self) -> bool {
        self@.wf()
    }

    /// Creates the guard that `cfg` describes.
    pub fn new(cfg: &SsrfConfig) -> (r: SsrfGuard)
        requires
            cfg.wf(),
        ensures
            r@ == GuardView::of(*cfg),
    {
        let builtin_list = default_blocked_cidrs();
        let builtin = compile_cidr_list(builtin_list.as_slice(), &[]);
        let private_list = private_cidrs();
        let private = compile_cidr_list(private_list.as_slice(), &[]);
        let none: Vec<&'static str> = Vec::new();
        let extra = compile_cidr_list(none.as_slice(), cfg.extra_blocked_cidrs.as_slice());
        let allowed = compile_cidr_list(none.as_slice(), cfg.extra_allowed_cidrs.as_slice());
        proof {
            lemma_builtin_ranges();
            assert(builtin@ == default_blocked());
            assert(private@ == private_ranges());
            assert(extra@ == cfg.extra_blocked_cidrs@);
            assert(allowed@ == cfg.extra_allowed_cidrs@);
        }
        SsrfGuard { mode: cfg.mode, allow_ipv6: cfg.allow_ipv6, builtin, private, extra, allowed }
    }

    /// Standardises an address. An IPv4-mapped IPv6 address is folded back to
    /// plain IPv4, so that policy sees one value however it was announced.
    pub fn canonicalise(addr: IpAddr) -> (r: IpAddr)
        ensures
            r == canonical(addr),
    {
        match addr {
            IpAddr::V6(bits) => {
                if 0xffff_0000_0000 <= bits && bits <= 0xffff_ffff_ffff {
                    IpAddr::V4((bits - 0xffff_0000_0000) as u32)
                } else {
                    addr
                }
            },
            IpAddr::V4(_) => addr,
        }
    }

    /// The built-in range that keeps `ip`, an address in standard form, out.
    fn builtin_range(&self, ip: IpAddr) -> (r: Option<IpNet>)
        ensures
            r == self@.builtin_range(ip),
    {
        proof {
            use_type_invariant(self);
        }
        match self.mode {
            SsrfMode::Strict => find_range(&self.builtin, &ip),
            SsrfMode::Permissive { allow_private } => {
                if allow_private || find_range(&self.private, &ip).is_some() {
                    return None;
                }
                find_range(&self.builtin, &ip)
            },
        }
    }

    /// The range that keeps `ip`, an address in standard form, out.
    pub fn blocking_range(&self, ip: IpAddr) -> (r: Option<IpNet>)
        ensures
            r == self@.blocking_range(ip),
    {
        proof {
            use_type_invariant(self);
        }
        if find_range(&self.allowed, &ip).is_some() {
            return None;
        }
        if let Some(net) = self.builtin_range(ip) {
            return Some(net);
        }
        find_range(&self.extra, &ip)
    }

    /// Holds `ip`, an address in standard form, against the policy.
    pub fn evaluate(&self, ip: IpAddr) -> (r: Result<(), ProxyError>)
        ensures
            match r {
                Ok(()) => self@.blocking_range(ip) is None,
                Err(err) => self@.blocking_range(ip) is Some && err@ == ErrorView::SsrfBlocked(ip),
            },
    {
        match self.blocking_range(ip) {
            Some(_) => Err(ProxyError::SsrfBlocked(ip)),
            None => Ok(()),
        }
    }

    /// Validates an address and returns its standard form.
    pub fn check_ip(&self, raw: IpAddr) -> (r: Result<IpAddr, ProxyError>)
        ensures
            match r {
                Ok(ip) => self@.checked(raw) == Ok::<IpAddr, ErrorView>(ip),
                Err(err) => self@.checked(raw) == Err::<IpAddr, ErrorView>(err@),
            },
    {
        let ip = SsrfGuard::canonicalise(raw);
        if !self.allow_ipv6 && ip.is_ipv6() {
            return Err(ProxyError::SsrfBlocked(ip));
        }
        match self.evaluate(ip) {
            Ok(()) => Ok(ip),
            Err(err) => Err(err),
        }
    }

    /// Checks `host`, as it stands in a URI, where it is an address literal: no
    /// resolver is asked about a literal, so this is where it is refused.
    pub fn check_host(&self, host: &str) -> (r: Result<(), ProxyError>)
        ensures
            match r {
                Ok(()) => self@.host_checked(host@) == Ok::<(), ErrorView>(()),
                Err(err) => self@.host_checked(host@) == Err::<(), ErrorView>(err@),
            },
            forall|ip: IpAddr| #[trigger] denotes(host@, ip) ==> (r is Ok <==> self@.admits(ip)),
    {
        let chars = to_chars(host);
        let n: usize = chars.len();
        let bare = if n >= 2 && chars[0] == '[' && chars[n - 1] == ']' {
            from_chars(&chars, 1, n - 1)
        } else {
            host.to_owned()
        };
        assert(bare@ == unbracketed(host@));
        match parse_ip(bare.as_str()) {
            Some(ip) => match self.check_ip(ip) {
                Ok(_) => Ok(()),
                Err(err) => Err(err),
            },
            None => Ok(()),
        }
    }

    /// The ranges that keep usable addresses of `found` out, one for each
    /// interception, in order.
    pub fn interceptions(&self, found: &Vec<IpAddr>) -> (r: Vec<IpNet>)
        ensures
            r@ == self@.interceptions(found@),
    {
        let mut out: Vec<IpNet> = Vec::new();
        let mut i: usize = 0;
        while i < found.len()
            invariant
                i <= found@.len(),
                out@ == self@.interceptions(found@.take(i as int)),
            decreases found@.len() - i,
        {
            proof {
                assert(found@.take(i + 1).drop_last() == found@.take(i as int));
            }
            let ip = SsrfGuard::canonicalise(found[i]);
            if self.allow_ipv6 || !ip.is_ipv6() {
                if let Some(net) = self.blocking_range(ip) {
                    out.push(net);
                }
            }
            i += 1;
        }
        proof {
            assert(found@.take(i as int) == found@);
        }
        out
    }

    /// Resolves `host` where it is an address literal, which needs no lookup.
    pub fn resolve_literal(&self, host: &str, port: u16) -> (r: Option<
        Result<Vec<SocketAddr>, ProxyError>,
    >)
        ensures
            r is Some <==> ip_literal(host@) is Some,
            forall|ip: IpAddr| #[trigger]
                plain_notation(host@, ip) ==> (r matches Some(done) && (done is Ok <==> self@.admits(
                    ip,
                ))),
            r matches Some(done) ==> forall|answer: Result<Seq<IpAddr>, Seq<char>>|
                match done {
                    Ok(v) => #[trigger] self@.resolved(host@, port, answer) == Ok::<
                        Seq<SocketAddr>,
                        ErrorView,
                    >(v@),
                    Err(err) => self@.resolved(host@, port, answer) == Err::<
                        Seq<SocketAddr>,
                        ErrorView,
                    >(err@),
                },
    {
        match parse_ip(host) {
            Some(ip) => match self.check_ip(ip) {
                Ok(ip) => {
                    let only = vec![SocketAddr { ip, port }];
                    assert(only@ == seq![SocketAddr { ip, port }]);
                    Some(Ok(only))
                },
                Err(err) => Some(Err(err)),
            },
            None => None,
        }
    }

    /// Resolves `host`, for which the resolver answered `answer`, and returns
    /// every address admitted by policy, so that the caller can fall back from
    /// one to the next. The addresses are never none: an error comes instead.
    pub fn resolve(&self, host: &str, port: u16, answer: Result<Vec<IpAddr>, String>) -> (r: Result<
        Vec<SocketAddr>,
        ProxyError,
    >)
        ensures
            ({
                let given = match answer {
                    Ok(found) => Ok(found@),
                    Err(source) => Err(source@),
                };
                match r {
                    Ok(v) => self@.resolved(host@, port, given) == Ok::<Seq<SocketAddr>, ErrorView>(
                        v@,
                    ),
                    Err(err) => self@.resolved(host@, port, given) == Err::<
                        Seq<SocketAddr>,
                        ErrorView,
                    >(err@),
                }
            }),
            forall|ip: IpAddr| #[trigger]
                plain_notation(host@, ip) ==> (r is Ok <==> self@.admits(ip)),
    {
        if let Some(done) = self.resolve_literal(host, port) {
            return done;
        }
        let found = match answer {
            Ok(found) => found,
            Err(source) => {
                return Err(ProxyError::Dns { host: host.to_owned(), source });
            },
        };
        let mut admissible: Vec<SocketAddr> = Vec::new();
        let mut last_violation: Option<IpAddr> = None;
        let mut i: usize = 0;
        while i < found.len()
            invariant
                i <= found@.len(),
                admissible@ == self@.admissible(found@.take(i as int), port),
                last_violation == self@.last_violation(found@.take(i as int)),
            decreases found@.len() - i,
        {
            proof {
                assert(found@.take(i + 1).drop_last() == found@.take(i as int));
            }
            let ip = SsrfGuard::canonicalise(found[i]);
            if self.allow_ipv6 || !ip.is_ipv6() {
                match self.evaluate(ip) {
                    Ok(()) => admissible.push(SocketAddr { ip, port }),
                    Err(_) => {
                        last_violation = Some(ip);
                    },
                }
            }
            i += 1;
        }
        proof {
            assert(found@.take(i as int) == found@);
        }
        if admissible.len() > 0 {
            return Ok(admissible);
        }
        match last_violation {
            Some(ip) => Err(ProxyError::SsrfBlocked(ip)),
            None => Err(
                ProxyError::Dns {
                    host: host.to_owned(),
                    source: "no usable address returned by resolver".to_owned(),
                },
            ),
        }
    }
}

/// Standardising twice is standardising once.
pub proof fn law_canonical_idempotent(ip: IpAddr)
    ensures
        canonical(canonical(ip)) == canonical(ip),
{
}

/// An IPv4-mapped IPv6 address gets the verdict of the IPv4 address it stands
/// for: mapping opens no way around a block.
pub proof fn law_mapped_same_verdict(guard: GuardView, bits: u32)
    ensures
        canonical(IpAddr::V6((0xffff_0000_0000 + bits) as u128)) == IpAddr::V4(bits),
        guard.checked(IpAddr::V6((0xffff_0000_0000 + bits) as u128)) == guard.checked(
            IpAddr::V4(bits),
        ),
{
}

/// A range that holds `ip` makes a match.
pub(crate) proof fn lemma_first_match(nets: Seq<IpNet>, ip: IpAddr, i: int)
    requires
        0 <= i < nets.len(),
        nets[i].spec_contains(ip),
    ensures
        first_match(nets, ip) is Some,
    decreases nets.len(),
{
    if !nets[0].spec_contains(ip) {
        lemma_first_match(nets.drop_first(), ip, i - 1);
    }
}

/// A match is one of the ranges, and holds the address.
pub(crate) proof fn lemma_match_is_range(nets: Seq<IpNet>, ip: IpAddr)
    ensures
        first_match(nets, ip) matches Some(net) ==> nets.contains(net) && net.spec_contains(ip),
    decreases nets.len(),
{
    if nets.len() > 0 {
        if nets[0].spec_contains(ip) {
            assert(nets.contains(nets[0]));
        } else {
            lemma_match_is_range(nets.drop_first(), ip);
            if let Some(net) = first_match(nets, ip) {
                let k = choose|k: int| 0 <= k < nets.drop_first().len() && nets.drop_first()[k] == net;
                assert(nets[k + 1] == net);
            }
        }
    }
}

/// The allow list wins: an address in an allowed range is never blocked,
/// whatever the mode and the blocked ranges.
pub proof fn law_allow_list_wins(guard: GuardView, ip: IpAddr, i: int)
    requires
        0 <= i < guard.allowed.len(),
        guard.allowed[i].spec_contains(canonical(ip)),
        guard.usable(ip),
    ensures
        guard.checked(ip) == Ok::<IpAddr, ErrorView>(canonical(ip)),
{
    lemma_first_match(guard.allowed, canonical(ip), i);
}

/// In every mode, an address in a range of the operator's block list is
/// refused unless an allowed range holds it.
pub proof fn law_extra_blocks_hold_in_every_mode(cfg: SsrfConfig, ip: IpAddr, i: int)
    requires
        0 <= i < cfg.extra_blocked_cidrs@.len(),
        cfg.extra_blocked_cidrs@[i].spec_contains(canonical(ip)),
        first_match(cfg.extra_allowed_cidrs@, canonical(ip)) is None,
    ensures
        GuardView::of(cfg).checked(ip) == Err::<IpAddr, ErrorView>(
            ErrorView::SsrfBlocked(canonical(ip)),
        ),
{
    lemma_first_match(cfg.extra_blocked_cidrs@, canonical(ip), i);
}

/// In strict mode, every address in a built-in or extra blocked range is
/// refused unless an allowed range holds it.
pub proof fn law_strict_refuses_blocked(cfg: SsrfConfig, ip: IpAddr, i: int)
    requires
        cfg.mode == SsrfMode::Strict,
        0 <= i < (default_blocked() + cfg.extra_blocked_cidrs@).len(),
        (default_blocked() + cfg.extra_blocked_cidrs@)[i].spec_contains(canonical(ip)),
        first_match(cfg.extra_allowed_cidrs@, canonical(ip)) is None,
    ensures
        GuardView::of(cfg).checked(ip) == Err::<IpAddr, ErrorView>(
            ErrorView::SsrfBlocked(canonical(ip)),
        ),
{
    if i < default_blocked().len() {
        lemma_first_match(default_blocked(), canonical(ip), i);
    } else {
        law_extra_blocks_hold_in_every_mode(cfg, ip, i - default_blocked().len());
    }
}

/// In every mode, an address of a usable family that no built-in and no extra
/// blocked range holds is admitted.
pub proof fn law_others_admitted(cfg: SsrfConfig, ip: IpAddr)
    requires
        GuardView::of(cfg).usable(ip),
        forall|i: int|
            0 <= i < (default_blocked() + cfg.extra_blocked_cidrs@).len() ==> !(
            #[trigger] (default_blocked() + cfg.extra_blocked_cidrs@)[i]).spec_contains(
                canonical(ip),
            ),
    ensures
        GuardView::of(cfg).checked(ip) == Ok::<IpAddr, ErrorView>(canonical(ip)),
{
    let all = default_blocked() + cfg.extra_blocked_cidrs@;
    lemma_match_is_range(default_blocked(), canonical(ip));
    if let Some(net) = first_match(default_blocked(), canonical(ip)) {
        let k = choose|k: int| 0 <= k < default_blocked().len() && default_blocked()[k] == net;
        assert(!all[k].spec_contains(canonical(ip)));
    }
    lemma_match_is_range(cfg.extra_blocked_cidrs@, canonical(ip));
    if let Some(net) = first_match(cfg.extra_blocked_cidrs@, canonical(ip)) {
        let k = choose|k: int|
            0 <= k < cfg.extra_blocked_cidrs@.len() && cfg.extra_blocked_cidrs@[k] == net;
        assert(!all[default_blocked().len() + k].spec_contains(canonical(ip)));
    }
}

/// Permissive mode with `allow_private` blocks nothing of a usable family but
/// what the operator's block list holds.
pub proof fn law_permissive_admits_all(guard: GuardView, ip: IpAddr)
    requires
        guard.mode == (SsrfMode::Permissive { allow_private: true }),
        guard.usable(ip),
        first_match(guard.extra, canonical(ip)) is None,
    ensures
        guard.checked(ip) == Ok::<IpAddr, ErrorView>(canonical(ip)),
{
}

/// Permissive mode, with or without `allow_private`, admits every private
/// address of a usable family that the operator's block list does not hold.
pub proof fn law_permissive_admits_private(cfg: SsrfConfig, ip: IpAddr, i: int)
    requires
        cfg.mode is Permissive,
        GuardView::of(cfg).usable(ip),
        0 <= i < private_ranges().len(),
        private_ranges()[i].spec_contains(canonical(ip)),
        first_match(cfg.extra_blocked_cidrs@, canonical(ip)) is None,
    ensures
        GuardView::of(cfg).checked(ip) == Ok::<IpAddr, ErrorView>(canonical(ip)),
{
    lemma_first_match(private_ranges(), canonical(ip), i);
}

/// Permissive mode without `allow_private` refuses what a built-in range holds
/// and neither a private nor an allowed range does.
pub proof fn law_permissive_refuses_others(cfg: SsrfConfig, ip: IpAddr, i: int)
    requires
        cfg.mode == (SsrfMode::Permissive { allow_private: false }),
        0 <= i < default_blocked().len(),
        default_blocked()[i].spec_contains(canonical(ip)),
        first_match(private_ranges(), canonical(ip)) is None,
        first_match(cfg.extra_allowed_cidrs@, canonical(ip)) is None,
    ensures
        GuardView::of(cfg).checked(ip) == Err::<IpAddr, ErrorView>(
            ErrorView::SsrfBlocked(canonical(ip)),
        ),
{
    lemma_first_match(default_blocked(), canonical(ip), i);
}

/// A loopback or link-local IPv4 address lies in a built-in range, and in no
/// private one.
proof fn lemma_local(a: u8, b: u8, c: u8, d: u8)
    requires
        a == 127 || (a == 169 && b == 254),
    ensures
        first_match(default_blocked(), IpAddr::V4(octets_value(a, b, c, d) as u32)) is Some,
        first_match(private_ranges(), IpAddr::V4(octets_value(a, b, c, d) as u32)) is None,
{
    let bits = octets_value(a, b, c, d) as u32;
    let ip = IpAddr::V4(bits);
    if a == 127 {
        assert((bits >> 24u32) == (0x7f00_0000u32 >> 24u32)) by (bit_vector)
            requires
                0x7f00_0000u32 <= bits < 0x8000_0000u32,
        ;
        assert(default_blocked()[3] == net4(127, 0, 0, 0, 8));
        lemma_first_match(default_blocked(), ip, 3);
    } else {
        assert((bits >> 16u32) == (0xa9fe_0000u32 >> 16u32)) by (bit_vector)
            requires
                0xa9fe_0000u32 <= bits < 0xa9ff_0000u32,
        ;
        assert(default_blocked()[4] == net4(169, 254, 0, 0, 16));
        lemma_first_match(default_blocked(), ip, 4);
    }
    assert((bits >> 24u32) != (0x0a00_0000u32 >> 24u32) && (bits >> 20u32) != (0xac10_0000u32
        >> 20u32) && (bits >> 16u32) != (0xc0a8_0000u32 >> 16u32)) by (bit_vector)
        requires
            0x7f00_0000u32 <= bits < 0x8000_0000u32 || 0xa9fe_0000u32 <= bits < 0xa9ff_0000u32,
    ;
    lemma_match_is_range(private_ranges(), ip);
    if let Some(net) = first_match(private_ranges(), ip) {
        let k = choose|k: int| 0 <= k < private_ranges().len() && private_ranges()[k] == net;
        assert(k == 0 || k == 1 || k == 2 || k == 3);
    }
}

/// Without an allow list, and unless permissive mode has `allow_private`,
/// loopback and link-local IPv4 addresses are refused, written as IPv4 or as
/// IPv4-mapped IPv6.
pub proof fn law_local_refused(cfg: SsrfConfig, a: u8, b: u8, c: u8, d: u8)
    requires
        cfg.mode != (SsrfMode::Permissive { allow_private: true }),
        cfg.extra_allowed_cidrs@.len() == 0,
        a == 127 || (a == 169 && b == 254),
    ensures
        ({
            let bits = octets_value(a, b, c, d) as u32;
            let refusal = Err::<IpAddr, ErrorView>(ErrorView::SsrfBlocked(IpAddr::V4(bits)));
            &&& GuardView::of(cfg).checked(IpAddr::V4(bits)) == refusal
            &&& GuardView::of(cfg).checked(IpAddr::V6((0xffff_0000_0000 + bits) as u128)) == refusal
        }),
{
    law_mapped_same_verdict(GuardView::of(cfg), octets_value(a, b, c, d) as u32);
    lemma_local(a, b, c, d);
}

/// The values of the IPv6 ranges that the next law speaks of.
proof fn lemma_local_v6_ranges()
    ensures
        net6(seq![], seq![1], 128) == (IpNet::V6 { addr: 1, prefix_len: 128 }),
        net6(seq![0xfe80], seq![], 10) == (IpNet::V6 {
            addr: 0xfe80_0000_0000_0000_0000_0000_0000_0000,
            prefix_len: 10,
        }),
        net6(seq![0xfc00], seq![], 7) == (IpNet::V6 {
            addr: 0xfc00_0000_0000_0000_0000_0000_0000_0000,
            prefix_len: 7,
        }),
{
    reveal_with_fuel(groups_value, 9);
    let none = Seq::<u16>::empty();
    assert(filled(none, seq![1u16]) =~= seq![0u16, 0, 0, 0, 0, 0, 0, 1]);
    assert(filled(seq![0xfe80u16], none) =~= seq![0xfe80u16, 0, 0, 0, 0, 0, 0, 0]);
    assert(filled(seq![0xfc00u16], none) =~= seq![0xfc00u16, 0, 0, 0, 0, 0, 0, 0]);
}

/// Without an allow list, and unless permissive mode has `allow_private`, the
/// loopback address and the link-local addresses of IPv6 are refused.
pub proof fn law_local_v6_refused(cfg: SsrfConfig, bits: u128)
    requires
        cfg.mode != (SsrfMode::Permissive { allow_private: true }),
        cfg.extra_allowed_cidrs@.len() == 0,
        bits == 1 || 0xfe80_0000_0000_0000_0000_0000_0000_0000 <= bits
            < 0xfec0_0000_0000_0000_0000_0000_0000_0000,
    ensures
        GuardView::of(cfg).checked(IpAddr::V6(bits)) == Err::<IpAddr, ErrorView>(
            ErrorView::SsrfBlocked(IpAddr::V6(bits)),
        ),
{
    lemma_local_v6_ranges();
    let ip = IpAddr::V6(bits);
    if bits == 1 {
        assert((1u128 >> 0u128) == (1u128 >> 0u128));
        assert(default_blocked()[16] == net6(seq![], seq![1], 128));
        lemma_first_match(default_blocked(), ip, 16);
    } else {
        assert((bits >> 118u128) == (0xfe80_0000_0000_0000_0000_0000_0000_0000u128 >> 118u128))
            by (bit_vector)
            requires
                0xfe80_0000_0000_0000_0000_0000_0000_0000u128 <= bits
                    < 0xfec0_0000_0000_0000_0000_0000_0000_0000u128,
        ;
        assert(default_blocked()[24] == net6(seq![0xfe80], seq![], 10));
        lemma_first_match(default_blocked(), ip, 24);
    }
    assert((bits >> 121u128) != (0xfc00_0000_0000_0000_0000_0000_0000_0000u128 >> 121u128))
        by (bit_vector)
        requires
            bits == 1u128 || 0xfe80_0000_0000_0000_0000_0000_0000_0000u128 <= bits
                < 0xfec0_0000_0000_0000_0000_0000_0000_0000u128,
    ;
    lemma_match_is_range(private_ranges(), ip);
    if let Some(net) = first_match(private_ranges(), ip) {
        let k = choose|k: int| 0 <= k < private_ranges().len() && private_ranges()[k] == net;
        assert(k == 0 || k == 1 || k == 2 || k == 3);
    }
}

/// Decimal and hexadecimal notation begin with a digit.
proof fn lemma_digit_first(n: nat)
    ensures
        dec(n).len() > 0,
        dec(n)[0] != '[',
        hex(n).len() > 0,
        hex(n)[0] != '[',
    decreases n,
{
    if n >= 10 {
        lemma_digit_first(n / 10);
    }
    if n >= 16 {
        lemma_digit_first(n / 16);
    }
}

/// The notation of groups begins with a digit.
proof fn lemma_groups_first(g: Seq<u16>)
    requires
        g.len() > 0,
    ensures
        groups_text(g).len() > 0,
        groups_text(g)[0] != '[',
    decreases g.len(),
{
    let shown = g.map_values(|x: u16| hex(x as nat));
    lemma_digit_first(g[0] as nat);
    if g.len() > 1 {
        lemma_groups_first(g.drop_last());
        assert(shown.drop_last() =~= g.drop_last().map_values(|x: u16| hex(x as nat)));
    } else {
        assert(shown[0] == hex(g[0] as nat));
    }
}

/// A plain notation of an address denotes it as a host, in brackets or without.
pub proof fn law_notations_denote(text: Seq<char>, ip: IpAddr)
    requires
        plain_notation(text, ip),
    ensures
        denotes(text, ip),
        denotes(seq!['['] + text + seq![']'], ip),
{
    let host = seq!['['] + text + seq![']'];
    assert(host.subrange(1, host.len() - 1) =~= text);
    match ip {
        IpAddr::V4(bits) => {
            let (a, b, c, d) = choose|a: u8, b: u8, c: u8, d: u8|
                text == #[trigger] v4_text(a, b, c, d) && bits == octets_value(a, b, c, d);
            lemma_digit_first(a as nat);
            assert(text[0] == dec(a as nat)[0]);
        },
        IpAddr::V6(bits) => {
            if exists|g: Seq<u16>|
                g.len() == 8 && text == #[trigger] groups_text(g) && bits == groups_value(g) {
                let g = choose|g: Seq<u16>|
                    g.len() == 8 && text == #[trigger] groups_text(g) && bits == groups_value(g);
                lemma_groups_first(g);
            } else {
                let (head, tail) = choose|head: Seq<u16>, tail: Seq<u16>|
                    head.len() + tail.len() <= 7 && text == #[trigger] v6_text(head, tail) && bits
                        == groups_value(filled(head, tail));
                if head.len() > 0 {
                    lemma_groups_first(head);
                    assert(text[0] == groups_text(head)[0]);
                } else {
                    lemma_groups_text(head);
                    assert(text[0] == ':');
                }
            }
        },
    }
}

/// Further ranges in the operator's block list never let more through: in any
/// mode, what is admitted with them is admitted without them.
pub proof fn law_more_blocks_admit_less(fewer: GuardView, more: GuardView, ip: IpAddr)
    requires
        more == (GuardView { extra: more.extra, ..fewer }),
        fewer.extra.is_prefix_of(more.extra),
        more.admits(ip),
    ensures
        fewer.admits(ip),
{
    let it = canonical(ip);
    lemma_match_is_range(fewer.extra, it);
    if let Some(net) = first_match(fewer.extra, it) {
        let k = choose|k: int| 0 <= k < fewer.extra.len() && fewer.extra[k] == net;
        assert(more.extra[k] == net);
        lemma_first_match(more.extra, it, k);
    }
}

/// With IPv6 switched off, only IPv4 addresses and those that stand for one
/// are admitted.
pub proof fn law_ipv6_switch(guard: GuardView, ip: IpAddr)
    requires
        !guard.allow_ipv6,
        guard.checked(ip) is Ok,
    ensures
        canonical(ip) is V4,
{
}

proof fn lemma_admissible(guard: GuardView, found: Seq<IpAddr>, port: u16, j: int)
    requires
        0 <= j < guard.admissible(found, port).len(),
    ensures
        guard.admissible(found, port)[j].port == port,
        guard.checked(guard.admissible(found, port)[j].ip) == Ok::<IpAddr, ErrorView>(
            guard.admissible(found, port)[j].ip,
        ),
        exists|k: int|
            0 <= k < found.len() && guard.admissible(found, port)[j].ip == canonical(
                #[trigger] found[k],
            ),
    decreases found.len(),
{
    let rest = guard.admissible(found.drop_last(), port);
    if j < rest.len() {
        lemma_admissible(guard, found.drop_last(), port, j);
        let k = choose|k: int|
            0 <= k < found.drop_last().len() && rest[j].ip == canonical(
                #[trigger] found.drop_last()[k],
            );
        assert(found[k] == found.drop_last()[k]);
    } else {
        assert(guard.admissible(found, port)[j].ip == canonical(found[found.len() - 1]));
    }
}

/// Whatever the resolver answers, what comes out of a resolution is not empty
/// and holds only addresses that pass the check on their own: a name cannot
/// lead where its address could not.
pub proof fn law_resolved_is_safe(
    guard: GuardView,
    host: Seq<char>,
    port: u16,
    answer: Result<Seq<IpAddr>, Seq<char>>,
)
    ensures
        guard.resolved(host, port, answer) matches Ok(out) ==> {
            &&& out.len() > 0
            &&& forall|j: int|
                0 <= j < out.len() ==> (#[trigger] out[j]).port == port && guard.checked(out[j].ip)
                    == Ok::<IpAddr, ErrorView>(out[j].ip)
        },
{
    if let Ok(out) = guard.resolved(host, port, answer) {
        assert forall|j: int| 0 <= j < out.len() implies (#[trigger] out[j]).port == port
            && guard.checked(out[j].ip) == Ok::<IpAddr, ErrorView>(out[j].ip) by {
            if ip_literal(host) is None {
                lemma_admissible(guard, answer->Ok_0, port, j);
            }
        }
    }
}

/// Every admitted address of the answer comes out of the resolution: none is
/// dropped, so that a caller can fall back from one family to the other.
pub proof fn law_resolved_keeps_all(
    guard: GuardView,
    host: Seq<char>,
    port: u16,
    found: Seq<IpAddr>,
    k: int,
)
    requires
        ip_literal(host) is None,
        0 <= k < found.len(),
        guard.admits(found[k]),
    ensures
        guard.resolved(host, port, Ok(found)) matches Ok(out) && out.contains(
            SocketAddr { ip: canonical(found[k]), port },
        ),
    decreases found.len(),
{
    let all = guard.admissible(found, port);
    let rest = guard.admissible(found.drop_last(), port);
    let want = SocketAddr { ip: canonical(found[k]), port };
    if k == found.len() - 1 {
        assert(all[all.len() - 1] == want);
    } else {
        assert(found.drop_last()[k] == found[k]);
        law_resolved_keeps_all(guard, host, port, found.drop_last(), k);
        let j = choose|j: int| 0 <= j < rest.len() && rest[j] == want;
        assert(all[j] == want);
    }
}

} // verus!
