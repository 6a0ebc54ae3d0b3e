//! Laws of the SSRF guards.

use vstd::prelude::*;

use crate::basic;
use crate::config::ssrf::{SsrfConfig, SsrfMode};
use crate::error::ErrorView;
use crate::net::{filled, groups_value, ip_literal, octets_value, IpAddr, IpNet, SocketAddr};
use crate::proxy::ssrf::{
    canonical, default_blocked, first_match, lemma_first_match, lemma_match_is_range, net4, net6,
    private_ranges, GuardView,
};

verus! {

/// Whether the octets are those of a private address of RFC 1918.
pub open spec fn private_octets(a: u8, b: u8) -> bool {
    ||| a == 10
    ||| a == 172 && 16 <= b <= 31
    ||| a == 192 && b == 168
}

/// Whether the octets are those of an address that is private, loopback,
/// link-local or otherwise reserved.
pub open spec fn reserved_octets(a: u8, b: u8, c: u8) -> bool {
    ||| private_octets(a, b)
    ||| a == 0
    ||| a == 100 && 64 <= b <= 127
    ||| a == 127
    ||| a == 169 && b == 254
    ||| a == 192 && b == 0 && (c == 0 || c == 2)
    ||| a == 198 && (b == 18 || b == 19)
    ||| a == 198 && b == 51 && c == 100
    ||| a == 203 && b == 0 && c == 113
    ||| a >= 224
}

/// Whether an IPv6 address is unique-local.
pub open spec fn private_groups(bits: u128) -> bool {
    0xfc00_0000_0000_0000_0000_0000_0000_0000 <= bits <= 0xfdff_ffff_ffff_ffff_ffff_ffff_ffff_ffff
}

/// Whether an IPv6 address is reserved by the older list: unspecified,
/// loopback, translated, discarded, unique-local, link-local or multicast.
pub open spec fn reserved_groups(bits: u128) -> bool {
    ||| bits <= 1
    ||| 0x0064_ff9b_0000_0000_0000_0000_0000_0000 <= bits
        <= 0x0064_ff9b_0000_0000_0000_0000_ffff_ffff
    ||| 0x0100_0000_0000_0000_0000_0000_0000_0000 <= bits
        <= 0x0100_0000_0000_0000_ffff_ffff_ffff_ffff
    ||| private_groups(bits)
    ||| 0xfe80_0000_0000_0000_0000_0000_0000_0000 <= bits
        <= 0xfebf_ffff_ffff_ffff_ffff_ffff_ffff_ffff
    ||| bits >= 0xff00_0000_0000_0000_0000_0000_0000_0000
}

/// Whether an IPv6 address is for local translation, for documentation, or for
/// 6to4.
pub open spec fn special_groups(bits: u128) -> bool {
    ||| 0x0064_ff9b_0001_0000_0000_0000_0000_0000 <= bits
        <= 0x0064_ff9b_0001_ffff_ffff_ffff_ffff_ffff
    ||| 0x2001_0db8_0000_0000_0000_0000_0000_0000 <= bits
        <= 0x2001_0db8_ffff_ffff_ffff_ffff_ffff_ffff
    ||| 0x2002_0000_0000_0000_0000_0000_0000_0000 <= bits
        <= 0x2002_ffff_ffff_ffff_ffff_ffff_ffff_ffff
}

/// Whether an IPv6 address stands for an IPv4 address.
pub open spec fn mapped(bits: u128) -> bool {
    0xffff_0000_0000 <= bits <= 0xffff_ffff_ffff
}

/// Whether one of `nets` holds `ip`.
pub open spec fn held(nets: Seq<IpNet>, ip: IpAddr) -> bool {
    exists|i: int| 0 <= i < nets.len() && (#[trigger] nets[i]).spec_contains(ip)
}

proof fn lemma_held(nets: Seq<IpNet>, ip: IpAddr)
    ensures
        first_match(nets, ip) is Some <==> held(nets, ip),
{
    if held(nets, ip) {
        let i = choose|i: int| 0 <= i < nets.len() && (#[trigger] nets[i]).spec_contains(ip);
        lemma_first_match(nets, ip, i);
    }
    lemma_match_is_range(nets, ip);
    if let Some(net) = first_match(nets, ip) {
        let i = choose|i: int| 0 <= i < nets.len() && nets[i] == net;
        assert(nets[i].spec_contains(ip));
    }
}

/// The IPv4 prefixes as ranges of numbers.
proof fn lemma_prefixes_v4(x: u32)
    by (bit_vector)
    ensures
        x >> 24u32 == 0x0000_0000u32 >> 24u32 <==> x <= 0x00ff_ffff,
        x >> 24u32 == 0x0a00_0000u32 >> 24u32 <==> 0x0a00_0000 <= x <= 0x0aff_ffff,
        x >> 22u32 == 0x6440_0000u32 >> 22u32 <==> 0x6440_0000 <= x <= 0x647f_ffff,
        x >> 24u32 == 0x7f00_0000u32 >> 24u32 <==> 0x7f00_0000 <= x <= 0x7fff_ffff,
        x >> 16u32 == 0xa9fe_0000u32 >> 16u32 <==> 0xa9fe_0000 <= x <= 0xa9fe_ffff,
        x >> 20u32 == 0xac10_0000u32 >> 20u32 <==> 0xac10_0000 <= x <= 0xac1f_ffff,
        x >> 8u32 == 0xc000_0000u32 >> 8u32 <==> 0xc000_0000 <= x <= 0xc000_00ff,
        x >> 8u32 == 0xc000_0200u32 >> 8u32 <==> 0xc000_0200 <= x <= 0xc000_02ff,
        x >> 16u32 == 0xc0a8_0000u32 >> 16u32 <==> 0xc0a8_0000 <= x <= 0xc0a8_ffff,
        x >> 17u32 == 0xc612_0000u32 >> 17u32 <==> 0xc612_0000 <= x <= 0xc613_ffff,
        x >> 8u32 == 0xc633_6400u32 >> 8u32 <==> 0xc633_6400 <= x <= 0xc633_64ff,
        x >> 8u32 == 0xcb00_7100u32 >> 8u32 <==> 0xcb00_7100 <= x <= 0xcb00_71ff,
        x >> 28u32 == 0xe000_0000u32 >> 28u32 <==> 0xe000_0000 <= x <= 0xefff_ffff,
        x >> 28u32 == 0xf000_0000u32 >> 28u32 <==> 0xf000_0000 <= x,
        x >> 0u32 == 0xffff_ffffu32 >> 0u32 <==> x == 0xffff_ffff,
{
}

/// The IPv6 prefixes as ranges of numbers.
proof fn lemma_prefixes_v6(x: u128)
    by (bit_vector)
    ensures
        x >> 0u128 == 0u128 >> 0u128 <==> x == 0,
        x >> 0u128 == 1u128 >> 0u128 <==> x == 1,
        x >> 32u128 == 0xffff_0000_0000u128 >> 32u128 <==> 0xffff_0000_0000 <= x
            <= 0xffff_ffff_ffff,
        x >> 32u128 == 0x0064_ff9b_0000_0000_0000_0000_0000_0000u128 >> 32u128 <==>
            0x0064_ff9b_0000_0000_0000_0000_0000_0000 <= x
            <= 0x0064_ff9b_0000_0000_0000_0000_ffff_ffff,
        x >> 80u128 == 0x0064_ff9b_0001_0000_0000_0000_0000_0000u128 >> 80u128 <==>
            0x0064_ff9b_0001_0000_0000_0000_0000_0000 <= x
            <= 0x0064_ff9b_0001_ffff_ffff_ffff_ffff_ffff,
        x >> 64u128 == 0x0100_0000_0000_0000_0000_0000_0000_0000u128 >> 64u128 <==>
            0x0100_0000_0000_0000_0000_0000_0000_0000 <= x
            <= 0x0100_0000_0000_0000_ffff_ffff_ffff_ffff,
        x >> 96u128 == 0x2001_0db8_0000_0000_0000_0000_0000_0000u128 >> 96u128 <==>
            0x2001_0db8_0000_0000_0000_0000_0000_0000 <= x
            <= 0x2001_0db8_ffff_ffff_ffff_ffff_ffff_ffff,
        x >> 112u128 == 0x2002_0000_0000_0000_0000_0000_0000_0000u128 >> 112u128 <==>
            0x2002_0000_0000_0000_0000_0000_0000_0000 <= x
            <= 0x2002_ffff_ffff_ffff_ffff_ffff_ffff_ffff,
        x >> 121u128 == 0xfc00_0000_0000_0000_0000_0000_0000_0000u128 >> 121u128 <==>
            0xfc00_0000_0000_0000_0000_0000_0000_0000 <= x
            <= 0xfdff_ffff_ffff_ffff_ffff_ffff_ffff_ffff,
        x >> 118u128 == 0xfe80_0000_0000_0000_0000_0000_0000_0000u128 >> 118u128 <==>
            0xfe80_0000_0000_0000_0000_0000_0000_0000 <= x
            <= 0xfebf_ffff_ffff_ffff_ffff_ffff_ffff_ffff,
        x >> 120u128 == 0xff00_0000_0000_0000_0000_0000_0000_0000u128 >> 120u128 <==>
            0xff00_0000_0000_0000_0000_0000_0000_0000 <= x,
{
}

/// The numbers of the built-in IPv6 ranges.
proof fn lemma_numbers_v6()
    ensures
        net6(seq![], seq![], 128) == (IpNet::V6 { addr: 0, prefix_len: 128 }),
        net6(seq![], seq![1], 128) == (IpNet::V6 { addr: 1, prefix_len: 128 }),
        net6(seq![], seq![0xffff, 0, 0], 96) == (IpNet::V6 {
            addr: 0xffff_0000_0000,
            prefix_len: 96,
        }),
        net6(seq![0x64, 0xff9b], seq![], 96) == (IpNet::V6 {
            addr: 0x0064_ff9b_0000_0000_0000_0000_0000_0000,
            prefix_len: 96,
        }),
        net6(seq![0x64, 0xff9b, 1], seq![], 48) == (IpNet::V6 {
            addr: 0x0064_ff9b_0001_0000_0000_0000_0000_0000,
            prefix_len: 48,
        }),
        net6(seq![0x100], seq![], 64) == (IpNet::V6 {
            addr: 0x0100_0000_0000_0000_0000_0000_0000_0000,
            prefix_len: 64,
        }),
        net6(seq![0x2001, 0xdb8], seq![], 32) == (IpNet::V6 {
            addr: 0x2001_0db8_0000_0000_0000_0000_0000_0000,
            prefix_len: 32,
        }),
        net6(seq![0x2002], seq![], 16) == (IpNet::V6 {
            addr: 0x2002_0000_0000_0000_0000_0000_0000_0000,
            prefix_len: 16,
        }),
        net6(seq![0xfc00], seq![], 7) == (IpNet::V6 {
            addr: 0xfc00_0000_0000_0000_0000_0000_0000_0000,
            prefix_len: 7,
        }),
        net6(seq![0xfe80], seq![], 10) == (IpNet::V6 {
            addr: 0xfe80_0000_0000_0000_0000_0000_0000_0000,
            prefix_len: 10,
        }),
        net6(seq![0xff00], seq![], 8) == (IpNet::V6 {
            addr: 0xff00_0000_0000_0000_0000_0000_0000_0000,
            prefix_len: 8,
        }),
{
    reveal_with_fuel(groups_value, 9);
    let none = Seq::<u16>::empty();
    assert(filled(none, none) =~= seq![0u16, 0, 0, 0, 0, 0, 0, 0]);
    assert(filled(none, seq![1u16]) =~= seq![0u16, 0, 0, 0, 0, 0, 0, 1]);
    assert(filled(none, seq![0xffffu16, 0, 0]) =~= seq![0u16, 0, 0, 0, 0, 0xffff, 0, 0]);
    assert(filled(seq![0x64u16, 0xff9b], none) =~= seq![0x64u16, 0xff9b, 0, 0, 0, 0, 0, 0]);
    assert(filled(seq![0x64u16, 0xff9b, 1], none) =~= seq![0x64u16, 0xff9b, 1, 0, 0, 0, 0, 0]);
    assert(filled(seq![0x100u16], none) =~= seq![0x100u16, 0, 0, 0, 0, 0, 0, 0]);
    assert(filled(seq![0x2001u16, 0xdb8], none) =~= seq![0x2001u16, 0xdb8, 0, 0, 0, 0, 0, 0]);
    assert(filled(seq![0x2002u16], none) =~= seq![0x2002u16, 0, 0, 0, 0, 0, 0, 0]);
    assert(filled(seq![0xfc00u16], none) =~= seq![0xfc00u16, 0, 0, 0, 0, 0, 0, 0]);
    assert(filled(seq![0xfe80u16], none) =~= seq![0xfe80u16, 0, 0, 0, 0, 0, 0, 0]);
    assert(filled(seq![0xff00u16], none) =~= seq![0xff00u16, 0, 0, 0, 0, 0, 0, 0]);
}

/// Whether one of the built-in IPv4 ranges, which both lists share, holds the
/// address.
proof fn lemma_v4_ranges(nets: Seq<IpNet>, a: u8, b: u8, c: u8, d: u8)
    requires
        nets.len() >= 15,
        nets.take(15) == default_blocked().take(15),
        forall|i: int| 15 <= i < nets.len() ==> (#[trigger] nets[i]) is V6,
    ensures
        held(nets, IpAddr::V4(octets_value(a, b, c, d) as u32)) <==> reserved_octets(a, b, c),
{
    let bits = octets_value(a, b, c, d) as u32;
    let ip = IpAddr::V4(bits);
    lemma_prefixes_v4(bits);
    let t = default_blocked();
    assert forall|i: int| 0 <= i < 15 implies #[trigger] nets[i] == t[i] by {
        assert(nets.take(15)[i] == t.take(15)[i]);
    }
    assert(nets[0] == net4(0, 0, 0, 0, 8));
    assert(nets[1] == net4(10, 0, 0, 0, 8));
    assert(nets[2] == net4(100, 64, 0, 0, 10));
    assert(nets[3] == net4(127, 0, 0, 0, 8));
    assert(nets[4] == net4(169, 254, 0, 0, 16));
    assert(nets[5] == net4(172, 16, 0, 0, 12));
    assert(nets[6] == net4(192, 0, 0, 0, 24));
    assert(nets[7] == net4(192, 0, 2, 0, 24));
    assert(nets[8] == net4(192, 168, 0, 0, 16));
    assert(nets[9] == net4(198, 18, 0, 0, 15));
    assert(nets[10] == net4(198, 51, 100, 0, 24));
    assert(nets[11] == net4(203, 0, 113, 0, 24));
    assert(nets[12] == net4(224, 0, 0, 0, 4));
    assert(nets[13] == net4(240, 0, 0, 0, 4));
    assert(nets[14] == net4(255, 255, 255, 255, 32));
    if held(nets, ip) {
        let i = choose|i: int| 0 <= i < nets.len() && (#[trigger] nets[i]).spec_contains(ip);
        assert(i < 15);
        assert(i == 0 || i == 1 || i == 2 || i == 3 || i == 4 || i == 5 || i == 6 || i == 7 || i == 8
            || i == 9 || i == 10 || i == 11 || i == 12 || i == 13 || i == 14);
    }
    if reserved_octets(a, b, c) {
        assert(nets[0].spec_contains(ip) || nets[1].spec_contains(ip) || nets[2].spec_contains(ip)
            || nets[3].spec_contains(ip) || nets[4].spec_contains(ip) || nets[5].spec_contains(ip)
            || nets[6].spec_contains(ip) || nets[7].spec_contains(ip) || nets[8].spec_contains(ip)
            || nets[9].spec_contains(ip) || nets[10].spec_contains(ip) || nets[11].spec_contains(ip)
            || nets[12].spec_contains(ip) || nets[13].spec_contains(ip) || nets[14].spec_contains(
            ip,
        ));
    }
}

proof fn lemma_private_v4(a: u8, b: u8, c: u8, d: u8)
    ensures
        held(private_ranges(), IpAddr::V4(octets_value(a, b, c, d) as u32)) <==> private_octets(a, b),
{
    let bits = octets_value(a, b, c, d) as u32;
    let ip = IpAddr::V4(bits);
    lemma_prefixes_v4(bits);
    let nets = private_ranges();
    assert(nets[0] == net4(10, 0, 0, 0, 8));
    assert(nets[1] == net4(172, 16, 0, 0, 12));
    assert(nets[2] == net4(192, 168, 0, 0, 16));
    assert(nets[3] is V6);
    if held(nets, ip) {
        let i = choose|i: int| 0 <= i < nets.len() && (#[trigger] nets[i]).spec_contains(ip);
        assert(i == 0 || i == 1 || i == 2 || i == 3);
    }
    if private_octets(a, b) {
        assert(nets[0].spec_contains(ip) || nets[1].spec_contains(ip) || nets[2].spec_contains(ip));
    }
}

proof fn lemma_ranges_v6(bits: u128)
    requires
        !mapped(bits),
    ensures
        held(default_blocked(), IpAddr::V6(bits)) <==> reserved_groups(bits) || special_groups(bits),
        held(private_ranges(), IpAddr::V6(bits)) <==> private_groups(bits),
{
    let ip = IpAddr::V6(bits);
    lemma_prefixes_v6(bits);
    lemma_numbers_v6();
    let nets = default_blocked();
    assert(nets[15] == net6(seq![], seq![], 128));
    assert(nets[16] == net6(seq![], seq![1], 128));
    assert(nets[17] == net6(seq![], seq![0xffff, 0, 0], 96));
    assert(nets[18] == net6(seq![0x64, 0xff9b], seq![], 96));
    assert(nets[19] == net6(seq![0x64, 0xff9b, 1], seq![], 48));
    assert(nets[20] == net6(seq![0x100], seq![], 64));
    assert(nets[21] == net6(seq![0x2001, 0xdb8], seq![], 32));
    assert(nets[22] == net6(seq![0x2002], seq![], 16));
    assert(nets[23] == net6(seq![0xfc00], seq![], 7));
    assert(nets[24] == net6(seq![0xfe80], seq![], 10));
    assert(nets[25] == net6(seq![0xff00], seq![], 8));
    assert forall|i: int| 0 <= i < 15 implies !(#[trigger] nets[i]).spec_contains(ip) by {
        assert(i == 0 || i == 1 || i == 2 || i == 3 || i == 4 || i == 5 || i == 6 || i == 7 || i == 8
            || i == 9 || i == 10 || i == 11 || i == 12 || i == 13 || i == 14);
    }
    if held(nets, ip) {
        let i = choose|i: int| 0 <= i < nets.len() && (#[trigger] nets[i]).spec_contains(ip);
        assert(i == 15 || i == 16 || i == 17 || i == 18 || i == 19 || i == 20 || i == 21 || i == 22
            || i == 23 || i == 24 || i == 25);
    }
    if reserved_groups(bits) || special_groups(bits) {
        assert(nets[15].spec_contains(ip) || nets[16].spec_contains(ip) || nets[18].spec_contains(ip)
            || nets[19].spec_contains(ip) || nets[20].spec_contains(ip) || nets[21].spec_contains(ip)
            || nets[22].spec_contains(ip) || nets[23].spec_contains(ip) || nets[24].spec_contains(ip)
            || nets[25].spec_contains(ip));
    }
    let own = private_ranges();
    assert(own[0] is V4 && own[1] is V4 && own[2] is V4);
    assert(own[3] == net6(seq![0xfc00], seq![], 7));
    if held(own, ip) {
        let i = choose|i: int| 0 <= i < own.len() && (#[trigger] own[i]).spec_contains(ip);
        assert(i == 0 || i == 1 || i == 2 || i == 3);
    }
    if private_groups(bits) {
        assert(own[3].spec_contains(ip));
    }
}

/// Whether the mode keeps a built-in address out: strict mode every reserved
/// one, permissive mode without `allow_private` every one but the private, and
/// with it none.
pub open spec fn mode_blocks(mode: SsrfMode, reserved: bool, private: bool) -> bool {
    match mode {
        SsrfMode::Strict => reserved,
        SsrfMode::Permissive { allow_private } => !allow_private && reserved && !private,
    }
}

/// The guard on IPv4 addresses, octet by octet: an address in an allowed range
/// passes; any other is refused where the operator blocks it or the mode blocks
/// it as a reserved address, and passes where neither does. Written as
/// IPv4-mapped IPv6 it gets the same verdict.
pub proof fn law_guard_on_ipv4(cfg: SsrfConfig, a: u8, b: u8, c: u8, d: u8)
    ensures
        ({
            let bits = (a * 0x100_0000 + b * 0x1_0000 + c * 0x100 + d) as u32;
            let ip = IpAddr::V4(bits);
            let passes = held(cfg.extra_allowed_cidrs@, ip) || !(held(cfg.extra_blocked_cidrs@, ip)
                || mode_blocks(cfg.mode, reserved_octets(a, b, c), private_octets(a, b)));
            let verdict = if passes {
                Ok::<IpAddr, ErrorView>(ip)
            } else {
                Err(ErrorView::SsrfBlocked(ip))
            };
            &&& GuardView::of(cfg).checked(ip) == verdict
            &&& GuardView::of(cfg).checked(IpAddr::V6((0xffff_0000_0000 + bits) as u128)) == verdict
        }),
{
    let ip = IpAddr::V4(octets_value(a, b, c, d) as u32);
    lemma_held(cfg.extra_allowed_cidrs@, ip);
    lemma_held(cfg.extra_blocked_cidrs@, ip);
    lemma_held(default_blocked(), ip);
    lemma_held(private_ranges(), ip);
    assert forall|i: int| 15 <= i < default_blocked().len() implies (
    #[trigger] default_blocked()[i]) is V6 by {
        assert(i == 15 || i == 16 || i == 17 || i == 18 || i == 19 || i == 20 || i == 21 || i == 22
            || i == 23 || i == 24 || i == 25);
    }
    lemma_v4_ranges(default_blocked(), a, b, c, d);
    lemma_private_v4(a, b, c, d);
}

/// The guard on IPv6 addresses that stand for no IPv4 address: with IPv6
/// switched off all are refused; otherwise an address in an allowed range
/// passes, and any other is refused where the operator blocks it or the mode
/// blocks it as a reserved address, and passes where neither does.
pub proof fn law_guard_on_ipv6(cfg: SsrfConfig, bits: u128)
    requires
        !mapped(bits),
    ensures
        ({
            let ip = IpAddr::V6(bits);
            let passes = cfg.allow_ipv6 && (held(cfg.extra_allowed_cidrs@, ip) || !(held(
                cfg.extra_blocked_cidrs@,
                ip,
            ) || mode_blocks(
                cfg.mode,
                reserved_groups(bits) || special_groups(bits),
                private_groups(bits),
            )));
            GuardView::of(cfg).checked(ip) == if passes {
                Ok::<IpAddr, ErrorView>(ip)
            } else {
                Err(ErrorView::SsrfBlocked(ip))
            }
        }),
{
    let ip = IpAddr::V6(bits);
    lemma_held(cfg.extra_allowed_cidrs@, ip);
    lemma_held(cfg.extra_blocked_cidrs@, ip);
    lemma_held(default_blocked(), ip);
    lemma_held(private_ranges(), ip);
    lemma_ranges_v6(bits);
}

/// An address is admitted exactly where checking it gives it back in standard
/// form, which is the form of RFC 4291 for IPv4-mapped addresses and the address
/// itself for all others.
pub proof fn law_checked_address(guard: GuardView, ip: IpAddr)
    ensures
        guard.admits(ip) <==> guard.checked(ip) is Ok,
        guard.checked(ip) matches Ok(r) ==> match ip {
            IpAddr::V4(bits) => r == IpAddr::V4(bits),
            IpAddr::V6(bits) => if mapped(bits) {
                r matches IpAddr::V4(low) && low == bits - 0xffff_0000_0000
            } else {
                r == IpAddr::V6(bits)
            },
        },
{
}

/// Of ranges that hold an address, the first in order is found.
pub proof fn law_first_range(nets: Seq<IpNet>, ip: IpAddr, k: int)
    requires
        0 <= k < nets.len(),
        nets[k].spec_contains(ip),
        forall|j: int| 0 <= j < k ==> !(#[trigger] nets[j]).spec_contains(ip),
    ensures
        first_match(nets, ip) == Some(nets[k]),
    decreases nets.len(),
{
    if k > 0 {
        let rest = nets.drop_first();
        assert(!nets[0].spec_contains(ip));
        assert forall|j: int| 0 <= j < k - 1 implies !(#[trigger] rest[j]).spec_contains(ip) by {
            assert(rest[j] == nets[j + 1]);
        }
        law_first_range(rest, ip, k - 1);
    }
}

/// In strict mode, and outside the allow list, the range that is named for an
/// address is the first built-in one that holds it, or else the first of the
/// operator's.
pub proof fn law_named_range(cfg: SsrfConfig, ip: IpAddr)
    requires
        cfg.mode == SsrfMode::Strict,
        !held(cfg.extra_allowed_cidrs@, ip),
    ensures
        GuardView::of(cfg).blocking_range(ip) == match first_match(default_blocked(), ip) {
            Some(net) => Some(net),
            None => first_match(cfg.extra_blocked_cidrs@, ip),
        },
{
    lemma_held(cfg.extra_allowed_cidrs@, ip);
}

/// The refusal of an address names a range that holds it: a built-in one or one
/// of the operator's.
pub proof fn law_blocking_range(guard: GuardView, ip: IpAddr)
    ensures
        guard.blocking_range(ip) matches Some(net) ==> {
            &&& net.spec_contains(ip)
            &&& guard.builtin.contains(net) || guard.extra.contains(net)
            &&& !held(guard.allowed, ip)
        },
{
    lemma_match_is_range(guard.builtin, ip);
    lemma_match_is_range(guard.extra, ip);
    lemma_held(guard.allowed, ip);
}

/// The addresses that pass the check.
pub open spec fn admitted(guard: GuardView) -> spec_fn(IpAddr) -> bool {
    |ip: IpAddr| guard.checked(ip) is Ok
}

/// An address as it comes out of a resolution.
pub open spec fn endpoint(guard: GuardView, port: u16) -> spec_fn(IpAddr) -> SocketAddr {
    |ip: IpAddr| SocketAddr { ip: guard.checked(ip)->Ok_0, port }
}

proof fn lemma_admissible_is_filter(guard: GuardView, found: Seq<IpAddr>, port: u16)
    ensures
        guard.admissible(found, port) == found.filter(admitted(guard)).map_values(
            endpoint(guard, port),
        ),
    decreases found.len(),
{
    reveal(Seq::filter);
    if found.len() > 0 {
        lemma_admissible_is_filter(guard, found.drop_last(), port);
        let rest = found.drop_last().filter(admitted(guard));
        if admitted(guard)(found.last()) {
            assert(rest.push(found.last()).map_values(endpoint(guard, port)) =~= rest.map_values(
                endpoint(guard, port),
            ).push(endpoint(guard, port)(found.last())));
        }
    } else {
        assert(guard.admissible(found, port) =~= found.map_values(endpoint(guard, port)));
    }
}

proof fn lemma_last_violation(guard: GuardView, found: Seq<IpAddr>, k: int)
    requires
        -1 <= k < found.len(),
        k >= 0 ==> guard.usable(found[k]) && guard.checked(found[k]) is Err,
        forall|j: int| k < j < found.len() ==> !guard.usable(#[trigger] found[j]),
    ensures
        k >= 0 ==> guard.last_violation(found) == Some(canonical(found[k])),
        k < 0 ==> guard.last_violation(found) is None,
    decreases found.len(),
{
    if found.len() > 0 && k < found.len() - 1 {
        assert(!guard.usable(found[found.len() - 1]));
        assert forall|j: int| k < j < found.drop_last().len() implies !guard.usable(
            #[trigger] found.drop_last()[j],
        ) by {
            assert(found[j] == found.drop_last()[j]);
        }
        lemma_last_violation(guard, found.drop_last(), k);
    }
}

/// Whether the family of an address may be used: it is IPv4, stands for IPv4,
/// or IPv6 is switched on.
pub open spec fn family_on(guard: GuardView, ip: IpAddr) -> bool {
    match ip {
        IpAddr::V4(_) => true,
        IpAddr::V6(bits) => guard.allow_ipv6 || mapped(bits),
    }
}

/// What a name resolves to: every address of the answer that passes the check,
/// in order and in standard form.
pub proof fn law_resolution_gives_what_passes(
    guard: GuardView,
    host: Seq<char>,
    port: u16,
    found: Seq<IpAddr>,
)
    requires
        ip_literal(host) is None,
        found.filter(admitted(guard)).len() > 0,
    ensures
        guard.resolved(host, port, Ok(found)) == Ok::<Seq<SocketAddr>, ErrorView>(
            found.filter(admitted(guard)).map_values(endpoint(guard, port)),
        ),
{
    lemma_admissible_is_filter(guard, found, port);
}

/// Where no address of the answer passes, a resolution fails: with the refusal
/// of the last address whose family may be used, or else because none may. A
/// resolver that fails is reported with the name.
pub proof fn law_resolution_fails_otherwise(
    guard: GuardView,
    host: Seq<char>,
    port: u16,
    found: Seq<IpAddr>,
    k: int,
    source: Seq<char>,
)
    requires
        ip_literal(host) is None,
        found.filter(admitted(guard)).len() == 0,
        -1 <= k < found.len(),
        k >= 0 ==> family_on(guard, found[k]),
        forall|j: int| k < j < found.len() ==> !family_on(guard, #[trigger] found[j]),
    ensures
        guard.resolved(host, port, Err(source)) == Err::<Seq<SocketAddr>, ErrorView>(
            ErrorView::Dns { host, source },
        ),
        k >= 0 ==> guard.resolved(host, port, Ok(found)) == Err::<Seq<SocketAddr>, ErrorView>(
            guard.checked(found[k])->Err_0,
        ),
        k < 0 ==> guard.resolved(host, port, Ok(found)) == Err::<Seq<SocketAddr>, ErrorView>(
            ErrorView::Dns { host, source: "no usable address returned by resolver"@ },
        ),
{
    lemma_admissible_is_filter(guard, found, port);
    if k >= 0 && guard.checked(found[k]) is Ok {
        found.lemma_filter_contains(admitted(guard), k);
    }
    assert forall|j: int| k < j < found.len() implies !guard.usable(#[trigger] found[j]) by {
        assert(!family_on(guard, found[j]));
    }
    lemma_last_violation(guard, found, k);
}

/// A literal resolves to itself where it passes the check, whatever a resolver
/// would say, and is refused where it does not.
pub proof fn law_literals_are_checked(
    guard: GuardView,
    host: Seq<char>,
    port: u16,
    answer: Result<Seq<IpAddr>, Seq<char>>,
    ip: IpAddr,
)
    requires
        ip_literal(host) == Some(ip),
    ensures
        guard.resolved(host, port, answer) == match guard.checked(ip) {
            Ok(it) => Ok::<Seq<SocketAddr>, ErrorView>(seq![SocketAddr { ip: it, port }]),
            Err(err) => Err(err),
        },
        host[0] != '[' ==> (guard.host_checked(host) is Ok <==> guard.checked(ip) is Ok),
        host[0] != '[' ==> (guard.host_checked(host) matches Err(err) ==> guard.checked(ip) == Err::<
            IpAddr,
            ErrorView,
        >(err)),
        guard.host_checked(seq!['['] + host + seq![']']) is Ok <==> guard.checked(ip) is Ok,
        guard.host_checked(seq!['['] + host + seq![']']) matches Err(err) ==> guard.checked(ip)
            == Err::<IpAddr, ErrorView>(err),
{
    let bracketed = seq!['['] + host + seq![']'];
    assert(bracketed.subrange(1, bracketed.len() - 1) =~= host);
}

/// A host that is no literal passes the check of literals: it is a name.
pub proof fn law_names_pass_the_literal_check(guard: GuardView, host: Seq<char>)
    requires
        ip_literal(host) is None,
        host.len() > 0 ==> host[0] != '[',
    ensures
        guard.host_checked(host) is Ok,
        guard.host_checked(seq!['['] + host + seq![']']) is Ok,
{
    let bracketed = seq!['['] + host + seq![']'];
    assert(bracketed.subrange(1, bracketed.len() - 1) =~= host);
}

/// The addresses that may be used and are kept out.
pub open spec fn kept_out(guard: GuardView) -> spec_fn(IpAddr) -> bool {
    |ip: IpAddr| family_on(guard, ip) && guard.checked(ip) is Err
}

/// One range is counted for each address that may be used and is kept out, and
/// each of these ranges holds the standard form of such an address.
pub proof fn law_interceptions(guard: GuardView, found: Seq<IpAddr>)
    ensures
        guard.interceptions(found).len() == found.filter(kept_out(guard)).len(),
        forall|i: int|
            0 <= i < guard.interceptions(found).len() ==> exists|k: int|
                0 <= k < found.len() && (#[trigger] guard.interceptions(found)[i]).spec_contains(
                    canonical(#[trigger] found[k]),
                ) && kept_out(guard)(found[k]),
    decreases found.len(),
{
    reveal(Seq::filter);
    if found.len() > 0 {
        let rest = found.drop_last();
        let last = found.last();
        law_interceptions(guard, rest);
        law_blocking_range(guard, canonical(last));
        let all = guard.interceptions(found);
        let before = guard.interceptions(rest);
        assert forall|i: int| 0 <= i < all.len() implies exists|k: int|
            0 <= k < found.len() && (#[trigger] all[i]).spec_contains(
                canonical(#[trigger] found[k]),
            ) && kept_out(guard)(found[k]) by {
            if i < before.len() {
                assert(before[i] == all[i]);
                let k = choose|k: int|
                    0 <= k < rest.len() && before[i].spec_contains(canonical(#[trigger] rest[k]))
                        && kept_out(guard)(rest[k]);
                assert(found[k] == rest[k]);
            } else {
                assert(found[found.len() - 1] == last);
                assert(kept_out(guard)(last));
                assert(all[i].spec_contains(canonical(found[found.len() - 1])));
            }
        }
    }
}

/// The smaller guard on IPv4 addresses, octet by octet: it refuses what is
/// reserved and what the operator blocks, and nothing while it is off.
pub proof fn law_basic_guard_on_ipv4(
    cfg: basic::config::SsrfConfig,
    a: u8,
    b: u8,
    c: u8,
    d: u8,
)
    ensures
        ({
            let ip = IpAddr::V4((a * 0x100_0000 + b * 0x1_0000 + c * 0x100 + d) as u32);
            basic::ssrf::GuardView::of(cfg).refuses(ip) <==> cfg.enabled && (reserved_octets(a, b, c)
                || held(cfg.extra_blocked_cidrs@, ip))
        }),
        basic::ssrf::GuardView::of(cfg).allow_ipv6 == cfg.allow_ipv6,
{
    let ip = IpAddr::V4(octets_value(a, b, c, d) as u32);
    let own = basic::ssrf::default_blocked();
    lemma_held(own + cfg.extra_blocked_cidrs@, ip);
    assert(own.take(15) =~= default_blocked().take(15));
    assert forall|i: int| 15 <= i < own.len() implies (#[trigger] own[i]) is V6 by {
        assert(i == 15 || i == 16 || i == 17 || i == 18 || i == 19 || i == 20 || i == 21 || i == 22);
    }
    lemma_v4_ranges(own, a, b, c, d);
    lemma_held_both(own, cfg.extra_blocked_cidrs@, ip);
}

proof fn lemma_held_both(a: Seq<IpNet>, b: Seq<IpNet>, ip: IpAddr)
    ensures
        held(a + b, ip) <==> held(a, ip) || held(b, ip),
{
    let all = a + b;
    if held(a, ip) {
        let i = choose|i: int| 0 <= i < a.len() && (#[trigger] a[i]).spec_contains(ip);
        assert(all[i].spec_contains(ip));
    }
    if held(b, ip) {
        let i = choose|i: int| 0 <= i < b.len() && (#[trigger] b[i]).spec_contains(ip);
        assert(all[a.len() + i].spec_contains(ip));
    }
    if held(all, ip) {
        let i = choose|i: int| 0 <= i < all.len() && (#[trigger] all[i]).spec_contains(ip);
        if i < a.len() {
            assert(a[i].spec_contains(ip));
        } else {
            assert(b[i - a.len()].spec_contains(ip));
        }
    }
}

/// The smaller guard on IPv6 addresses: it refuses what the older list reserves,
/// every IPv4-mapped address, and what the operator blocks.
pub proof fn law_basic_guard_on_ipv6(cfg: basic::config::SsrfConfig, bits: u128)
    ensures
        basic::ssrf::GuardView::of(cfg).refuses(IpAddr::V6(bits)) <==> cfg.enabled && (
        reserved_groups(bits) || mapped(bits) || held(cfg.extra_blocked_cidrs@, IpAddr::V6(bits))),
{
    let ip = IpAddr::V6(bits);
    let nets = basic::ssrf::default_blocked();
    lemma_held(nets + cfg.extra_blocked_cidrs@, ip);
    lemma_held_both(nets, cfg.extra_blocked_cidrs@, ip);
    lemma_prefixes_v6(bits);
    lemma_numbers_v6();
    assert(nets[15] == net6(seq![], seq![], 128));
    assert(nets[16] == net6(seq![], seq![1], 128));
    assert(nets[17] == net6(seq![], seq![0xffff, 0, 0], 96));
    assert(nets[18] == net6(seq![0x64, 0xff9b], seq![], 96));
    assert(nets[19] == net6(seq![0x100], seq![], 64));
    assert(nets[20] == net6(seq![0xfc00], seq![], 7));
    assert(nets[21] == net6(seq![0xfe80], seq![], 10));
    assert(nets[22] == net6(seq![0xff00], seq![], 8));
    assert forall|i: int| 0 <= i < 15 implies !(#[trigger] nets[i]).spec_contains(ip) by {
        assert(i == 0 || i == 1 || i == 2 || i == 3 || i == 4 || i == 5 || i == 6 || i == 7 || i == 8
            || i == 9 || i == 10 || i == 11 || i == 12 || i == 13 || i == 14);
    }
    if held(nets, ip) {
        let i = choose|i: int| 0 <= i < nets.len() && (#[trigger] nets[i]).spec_contains(ip);
        assert(i == 15 || i == 16 || i == 17 || i == 18 || i == 19 || i == 20 || i == 21 || i == 22);
    }
    if reserved_groups(bits) || mapped(bits) {
        assert(nets[15].spec_contains(ip) || nets[16].spec_contains(ip) || nets[17].spec_contains(ip)
            || nets[18].spec_contains(ip) || nets[19].spec_contains(ip) || nets[20].spec_contains(ip)
            || nets[21].spec_contains(ip) || nets[22].spec_contains(ip));
    }
}

/// The smaller guard resolves a name to the first address that may be used and
/// that it does not refuse; where it refuses all that may be used, to the first
/// refusal.
pub proof fn law_basic_resolution(
    guard: basic::ssrf::GuardView,
    host: Seq<char>,
    port: u16,
    found: Seq<IpAddr>,
    k: int,
)
    requires
        ip_literal(host) is None,
        0 <= k < found.len(),
        guard.allow_ipv6 || found[k] is V4,
    ensures
        !guard.refuses(found[k]) && (forall|j: int|
            0 <= j < k ==> guard.refuses(#[trigger] found[j]) || (!guard.allow_ipv6 && found[j] is V6))
            ==> guard.resolved(host, port, Ok(found)) == Ok::<SocketAddr, ErrorView>(
            SocketAddr { ip: found[k], port },
        ),
        guard.refuses(found[k]) && (forall|j: int|
            0 <= j < found.len() ==> guard.refuses(#[trigger] found[j]) || (!guard.allow_ipv6
                && found[j] is V6)) && (forall|j: int|
            0 <= j < k ==> !guard.allow_ipv6 && (#[trigger] found[j]) is V6) ==> guard.resolved(
            host,
            port,
            Ok(found),
        ) == Err::<SocketAddr, ErrorView>(ErrorView::SsrfBlocked(found[k])),
{
    if !guard.refuses(found[k]) && forall|j: int|
        0 <= j < k ==> guard.refuses(#[trigger] found[j]) || (!guard.allow_ipv6 && found[j] is V6) {
        lemma_first_admitted_at(guard, found, k);
    }
    if guard.refuses(found[k]) && (forall|j: int|
        0 <= j < found.len() ==> guard.refuses(#[trigger] found[j]) || (!guard.allow_ipv6
            && found[j] is V6)) && (forall|j: int|
        0 <= j < k ==> !guard.allow_ipv6 && (#[trigger] found[j]) is V6) {
        lemma_none_admitted(guard, found);
        lemma_first_refused_at(guard, found, k);
    }
}

/// The smaller guard on literals, whatever a resolver would say, on a resolver
/// that fails, and on an answer of which nothing may be used.
pub proof fn law_basic_literals_and_failures(
    guard: basic::ssrf::GuardView,
    host: Seq<char>,
    port: u16,
    answer: Result<Seq<IpAddr>, Seq<char>>,
)
    ensures
        ip_literal(host) matches Some(ip) ==> {
            &&& guard.refuses(ip) ==> guard.resolved(host, port, answer) == Err::<
                SocketAddr,
                ErrorView,
            >(ErrorView::SsrfBlocked(ip))
            &&& !guard.refuses(ip) ==> guard.resolved(host, port, answer) == Ok::<
                SocketAddr,
                ErrorView,
            >(SocketAddr { ip, port })
        },
        ip_literal(host) is None ==> (answer matches Err(source) ==> guard.resolved(
            host,
            port,
            answer,
        ) == Err::<SocketAddr, ErrorView>(ErrorView::Dns { host, source })),
        ip_literal(host) is None ==> (answer matches Ok(found) ==> ((forall|j: int|
            0 <= j < found.len() ==> !guard.allow_ipv6 && (#[trigger] found[j]) is V6)
            ==> guard.resolved(host, port, answer) == Err::<SocketAddr, ErrorView>(
            ErrorView::Dns { host, source: "no usable address returned by resolver"@ },
        ))),
{
    if let Ok(found) = answer {
        if forall|j: int| 0 <= j < found.len() ==> !guard.allow_ipv6 && (#[trigger] found[j]) is V6 {
            lemma_none_admitted(guard, found);
            lemma_none_refused(guard, found);
        }
    }
}

proof fn lemma_none_refused(guard: basic::ssrf::GuardView, found: Seq<IpAddr>)
    requires
        forall|j: int| 0 <= j < found.len() ==> !guard.allow_ipv6 && (#[trigger] found[j]) is V6,
    ensures
        guard.first_refused(found) is None,
    decreases found.len(),
{
    if found.len() > 0 {
        let rest = found.drop_first();
        assert(!guard.allow_ipv6 && found[0] is V6);
        assert forall|j: int| 0 <= j < rest.len() implies !guard.allow_ipv6 && (#[trigger] rest[j]) is V6 by {
            assert(rest[j] == found[j + 1]);
        }
        lemma_none_refused(guard, rest);
    }
}

proof fn lemma_first_admitted_at(guard: basic::ssrf::GuardView, found: Seq<IpAddr>, k: int)
    requires
        0 <= k < found.len(),
        guard.allow_ipv6 || found[k] is V4,
        !guard.refuses(found[k]),
        forall|j: int|
            0 <= j < k ==> guard.refuses(#[trigger] found[j]) || (!guard.allow_ipv6 && found[j] is V6),
    ensures
        guard.first_admitted(found) == Some(found[k]),
    decreases found.len(),
{
    if k > 0 {
        let rest = found.drop_first();
        assert(guard.refuses(found[0]) || (!guard.allow_ipv6 && found[0] is V6));
        assert forall|j: int| 0 <= j < k - 1 implies guard.refuses(#[trigger] rest[j]) || (
        !guard.allow_ipv6 && rest[j] is V6) by {
            assert(rest[j] == found[j + 1]);
        }
        lemma_first_admitted_at(guard, rest, k - 1);
    }
}

proof fn lemma_none_admitted(guard: basic::ssrf::GuardView, found: Seq<IpAddr>)
    requires
        forall|j: int|
            0 <= j < found.len() ==> guard.refuses(#[trigger] found[j]) || (!guard.allow_ipv6
                && found[j] is V6),
    ensures
        guard.first_admitted(found) is None,
    decreases found.len(),
{
    if found.len() > 0 {
        let rest = found.drop_first();
        assert(guard.refuses(found[0]) || (!guard.allow_ipv6 && found[0] is V6));
        assert forall|j: int| 0 <= j < rest.len() implies guard.refuses(#[trigger] rest[j]) || (
        !guard.allow_ipv6 && rest[j] is V6) by {
            assert(rest[j] == found[j + 1]);
        }
        lemma_none_admitted(guard, rest);
    }
}

proof fn lemma_first_refused_at(guard: basic::ssrf::GuardView, found: Seq<IpAddr>, k: int)
    requires
        0 <= k < found.len(),
        guard.allow_ipv6 || found[k] is V4,
        guard.refuses(found[k]),
        forall|j: int| 0 <= j < k ==> !guard.allow_ipv6 && (#[trigger] found[j]) is V6,
    ensures
        guard.first_refused(found) == Some(found[k]),
    decreases found.len(),
{
    if k > 0 {
        let rest = found.drop_first();
        assert(!guard.allow_ipv6 && found[0] is V6);
        assert forall|j: int| 0 <= j < k - 1 implies !guard.allow_ipv6 && (#[trigger] rest[j]) is V6 by {
            assert(rest[j] == found[j + 1]);
        }
        lemma_first_refused_at(guard, rest, k - 1);
    }
}

} // verus!
