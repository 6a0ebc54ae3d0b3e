//! The SSRF guard.

use corx::config::{SsrfConfig, SsrfMode};
use corx::error::ProxyError;
use corx::net::{IpAddr, IpNet, SocketAddr};
use corx::proxy::ssrf::{compile_cidr_list, default_blocked_cidrs, find_range, SsrfGuard};

fn loopback() -> IpAddr {
    IpAddr::v4(127, 0, 0, 1)
}

fn guard(mode: SsrfMode, extras_block: Vec<IpNet>, extras_allow: Vec<IpNet>) -> SsrfGuard {
    SsrfGuard::new(&SsrfConfig {
        mode,
        allow_ipv6: true,
        extra_blocked_cidrs: extras_block,
        extra_allowed_cidrs: extras_allow,
        deny_redirect_to_private: true,
    })
}

fn blocked_by_default(ip: IpAddr) -> bool {
    let list = compile_cidr_list(&default_blocked_cidrs(), &[]);
    find_range(&list, &ip).is_some()
}

#[test]
fn default_list_blocks_loopback() {
    assert!(blocked_by_default(loopback()));
}

#[test]
fn default_list_blocks_ipv6_loopback() {
    assert!(blocked_by_default(IpAddr::V6(1)));
}

#[test]
fn default_list_blocks_link_local() {
    assert!(blocked_by_default(IpAddr::v4(169, 254, 169, 254)));
}

#[test]
fn public_ip_is_not_blocked() {
    assert!(!blocked_by_default(IpAddr::v4(1, 1, 1, 1)));
}

#[test]
fn ipv4_mapped_ipv6_is_canonicalised() {
    let mapped = IpAddr::parse("::ffff:127.0.0.1").unwrap();
    assert_eq!(SsrfGuard::canonicalise(mapped), loopback());
}

#[test]
fn strict_mode_rejects_loopback() {
    let g = guard(SsrfMode::Strict, vec![], vec![]);
    assert!(g.check_ip(loopback()).is_err());
}

#[test]
fn strict_mode_rejects_ipv4_mapped_loopback() {
    let g = guard(SsrfMode::Strict, vec![], vec![]);
    let mapped = IpAddr::parse("::ffff:127.0.0.1").unwrap();
    assert!(g.check_ip(mapped).is_err());
}

#[test]
fn permissive_allow_private_admits_loopback() {
    let g = guard(SsrfMode::Permissive { allow_private: true }, vec![], vec![]);
    assert!(g.check_ip(loopback()).is_ok());
}

#[test]
fn permissive_no_private_still_rejects_loopback() {
    let g = guard(SsrfMode::Permissive { allow_private: false }, vec![], vec![]);
    assert!(g.check_ip(loopback()).is_err());
}

#[test]
fn allowlist_overrides_default_block() {
    let net = IpNet::parse("10.0.0.0/24").unwrap();
    let g = guard(SsrfMode::Strict, vec![], vec![net]);
    assert!(g.check_ip(IpAddr::v4(10, 0, 0, 5)).is_ok());
    assert!(
        g.check_ip(IpAddr::v4(10, 0, 1, 5)).is_err(),
        "only the carved-out range should be admitted"
    );
}

#[test]
fn extra_block_extends_default() {
    let net = IpNet::parse("203.0.113.0/24").unwrap();
    let g = guard(SsrfMode::Strict, vec![net], vec![]);
    assert!(g.check_ip(IpAddr::v4(203, 0, 113, 7)).is_err());
}

#[test]
fn every_built_in_text_is_read() {
    let list = compile_cidr_list(&default_blocked_cidrs(), &[]);
    assert_eq!(list.len(), 26);
    assert_eq!(list[2], IpNet::V4 { addr: 0x6440_0000, prefix_len: 10 });
    assert_eq!(list[16], IpNet::V6 { addr: 1, prefix_len: 128 });
    assert_eq!(list[17], IpNet::V6 { addr: 0xffff_0000_0000, prefix_len: 96 });
    assert_eq!(
        list[19],
        IpNet::V6 { addr: 0x0064_ff9b_0001_0000_0000_0000_0000_0000, prefix_len: 48 }
    );
    assert_eq!(
        list[21],
        IpNet::V6 { addr: 0x2001_0db8_0000_0000_0000_0000_0000_0000, prefix_len: 32 }
    );
}

#[test]
fn built_in_ranges_end_where_they_should() {
    assert!(blocked_by_default(IpAddr::v4(172, 31, 255, 255)));
    assert!(!blocked_by_default(IpAddr::v4(172, 32, 0, 0)));
    assert!(blocked_by_default(IpAddr::v4(100, 127, 255, 255)));
    assert!(!blocked_by_default(IpAddr::v4(100, 128, 0, 0)));
    assert!(blocked_by_default(IpAddr::v4(255, 255, 255, 255)));
    assert!(blocked_by_default(IpAddr::parse("fdff::1").unwrap()));
    assert!(!blocked_by_default(IpAddr::parse("2606:4700::1111").unwrap()));
}

#[test]
fn canonical_form_is_stable() {
    for text in ["::ffff:10.0.0.1", "2001:db8::1", "10.0.0.1", "::1"] {
        let once = SsrfGuard::canonicalise(IpAddr::parse(text).unwrap());
        assert_eq!(SsrfGuard::canonicalise(once), once);
    }
}

#[test]
fn refusal_names_the_canonical_address() {
    let g = guard(SsrfMode::Strict, vec![], vec![]);
    let mapped = IpAddr::parse("::ffff:127.0.0.1").unwrap();
    match g.check_ip(mapped) {
        Err(ProxyError::SsrfBlocked(ip)) => assert_eq!(ip, loopback()),
        other => panic!("unexpected {other:?}"),
    }
}

#[test]
fn ipv6_can_be_switched_off() {
    let g = SsrfGuard::new(&SsrfConfig {
        mode: SsrfMode::Permissive { allow_private: true },
        allow_ipv6: false,
        extra_blocked_cidrs: vec![],
        extra_allowed_cidrs: vec![],
        deny_redirect_to_private: true,
    });
    assert!(g.check_ip(IpAddr::parse("2606:4700::1111").unwrap()).is_err());
    assert!(g.check_ip(IpAddr::parse("::ffff:1.1.1.1").unwrap()).is_ok());
    let answer = Ok(vec![IpAddr::parse("2606:4700::1111").unwrap()]);
    match g.resolve("x.test", 80, answer) {
        Err(ProxyError::Dns { host, source }) => {
            assert_eq!(host, "x.test");
            assert_eq!(source, "no usable address returned by resolver");
        }
        other => panic!("unexpected {other:?}"),
    }
}

#[test]
fn literal_hosts_need_no_lookup() {
    let g = guard(SsrfMode::Strict, vec![], vec![]);
    let want = SocketAddr { ip: IpAddr::v4(1, 1, 1, 1), port: 443 };
    assert_eq!(g.resolve_literal("1.1.1.1", 443).unwrap().unwrap(), vec![want]);
    assert!(g.resolve_literal("127.0.0.1", 443).unwrap().is_err());
    assert!(g.resolve_literal("example.com", 443).is_none());
    let unused = Err("not asked".to_owned());
    assert_eq!(g.resolve("1.1.1.1", 443, unused).unwrap(), vec![want]);
}

#[test]
fn resolution_keeps_every_admitted_address() {
    let g = guard(SsrfMode::Strict, vec![], vec![]);
    let v6 = IpAddr::parse("2606:4700::1111").unwrap();
    let answer = Ok(vec![loopback(), IpAddr::v4(1, 1, 1, 1), v6]);
    let out = g.resolve("x.test", 80, answer).unwrap();
    assert_eq!(
        out,
        vec![
            SocketAddr { ip: IpAddr::v4(1, 1, 1, 1), port: 80 },
            SocketAddr { ip: v6, port: 80 },
        ]
    );
}

#[test]
fn resolution_reports_the_last_refusal() {
    let g = guard(SsrfMode::Strict, vec![], vec![]);
    let answer = Ok(vec![loopback(), IpAddr::v4(10, 0, 0, 1)]);
    match g.resolve("x.test", 80, answer) {
        Err(ProxyError::SsrfBlocked(ip)) => assert_eq!(ip, IpAddr::v4(10, 0, 0, 1)),
        other => panic!("unexpected {other:?}"),
    }
}

#[test]
fn resolver_failure_is_reported() {
    let g = guard(SsrfMode::Strict, vec![], vec![]);
    match g.resolve("x.test", 80, Err("timed out".to_owned())) {
        Err(ProxyError::Dns { host, source }) => {
            assert_eq!((host.as_str(), source.as_str()), ("x.test", "timed out"));
        }
        other => panic!("unexpected {other:?}"),
    }
}

#[test]
fn interceptions_name_the_ranges() {
    let g = guard(SsrfMode::Strict, vec![], vec![]);
    let found = vec![loopback(), IpAddr::v4(1, 1, 1, 1), IpAddr::v4(10, 0, 0, 1)];
    let texts: Vec<String> = g.interceptions(&found).iter().map(|n| n.text()).collect();
    assert_eq!(texts, vec!["127.0.0.0/8", "10.0.0.0/8"]);
}

#[test]
fn only_the_full_permission_admits_private() {
    assert!(SsrfMode::Permissive { allow_private: true }.admits_private());
    assert!(!SsrfMode::Permissive { allow_private: false }.admits_private());
    assert!(!SsrfMode::Strict.admits_private());
}

#[test]
fn clones_decide_alike() {
    let g = guard(SsrfMode::Strict, vec![], vec![]).clone();
    assert!(g.check_ip(loopback()).is_err());
    assert!(g.check_ip(IpAddr::v4(1, 1, 1, 1)).is_ok());
}

#[test]
fn addresses_are_shown_and_read() {
    assert_eq!(loopback().text(), "127.0.0.1");
    assert_eq!(IpAddr::V6(1).text(), "::1");
    assert_eq!(IpAddr::parse("127.0.0.1"), Some(loopback()));
    assert_eq!(IpAddr::parse("example.com"), None);
    assert_eq!(IpNet::parse("10.0.0.0/33"), None);
    assert_eq!(IpNet::parse("fc00::/7").unwrap().text(), "fc00::/7");
}

#[test]
fn more_blocks_admit_less() {
    let extra = IpNet::parse("203.0.113.0/24").unwrap();
    let few = guard(SsrfMode::Strict, vec![], vec![]);
    let many = guard(SsrfMode::Strict, vec![extra], vec![]);
    for ip in [IpAddr::v4(203, 0, 113, 7), IpAddr::v4(8, 8, 8, 8), loopback()] {
        assert!(many.check_ip(ip).is_err() || few.check_ip(ip).is_ok());
    }
    assert!(many.check_ip(IpAddr::v4(8, 8, 8, 8)).is_ok());
    assert!(many.check_ip(loopback()).is_err());
}

#[test]
fn half_permission_opens_private_ranges_alone() {
    let g = guard(SsrfMode::Permissive { allow_private: false }, vec![], vec![]);
    for text in ["10.0.0.1", "172.16.0.1", "192.168.1.1", "fc00::1", "8.8.8.8"] {
        let ip = IpAddr::parse(text).unwrap();
        assert_eq!(g.check_ip(ip).unwrap(), ip, "{text}");
    }
    for text in ["127.0.0.1", "::ffff:127.0.0.1", "169.254.169.254", "::1", "fe80::1", "0.0.0.0"] {
        assert!(g.check_ip(IpAddr::parse(text).unwrap()).is_err(), "{text}");
    }
}

#[test]
fn extra_blocks_hold_in_every_mode() {
    let extra = IpNet::parse("8.8.8.0/24").unwrap();
    let modes = [
        SsrfMode::Strict,
        SsrfMode::Permissive { allow_private: false },
        SsrfMode::Permissive { allow_private: true },
    ];
    for mode in modes {
        let g = guard(mode, vec![extra], vec![]);
        match g.check_ip(IpAddr::v4(8, 8, 8, 8)) {
            Err(ProxyError::SsrfBlocked(ip)) => assert_eq!(ip, IpAddr::v4(8, 8, 8, 8)),
            other => panic!("unexpected {other:?}"),
        }
        assert!(g.check_ip(IpAddr::v4(8, 8, 4, 4)).is_ok());
        assert!(guard(mode, vec![extra], vec![extra]).check_ip(IpAddr::v4(8, 8, 8, 8)).is_ok());
    }
    let private = IpNet::parse("10.1.0.0/16").unwrap();
    let g = guard(SsrfMode::Permissive { allow_private: false }, vec![private], vec![]);
    assert!(g.check_ip(IpAddr::v4(10, 1, 0, 1)).is_err());
    assert!(g.check_ip(IpAddr::v4(10, 2, 0, 1)).is_ok());
}

#[test]
fn literal_hosts_are_checked_with_and_without_brackets() {
    let g = guard(SsrfMode::Strict, vec![], vec![]);
    for host in ["127.0.0.1", "::1", "[::1]", "[::ffff:10.0.0.1]"] {
        assert!(g.check_host(host).is_err(), "{host}");
    }
    for host in ["8.8.8.8", "[2606:4700::1111]", "localhost", "example.com", "[", ""] {
        assert!(g.check_host(host).is_ok(), "{host}");
    }
}

#[test]
fn plain_ipv6_notations_are_read_as_written() {
    assert_eq!(IpAddr::parse("::1"), Some(IpAddr::V6(1)));
    assert_eq!(IpAddr::parse("::"), Some(IpAddr::V6(0)));
    assert_eq!(IpAddr::parse("fe80::"), Some(IpAddr::V6(0xfe80 << 112)));
    assert_eq!(IpAddr::parse("1:2:3:4:5:6:7::"), IpAddr::parse("1:2:3:4:5:6:7:0"));
    assert_eq!(IpAddr::parse("::2:3:4:5:6:7:8"), IpAddr::parse("0:2:3:4:5:6:7:8"));
    assert_eq!(
        IpAddr::parse("1:2:3:4:5:6:7:8"),
        Some(IpAddr::V6(0x0001_0002_0003_0004_0005_0006_0007_0008))
    );
    assert_eq!(IpAddr::parse("1:2:3:4::5:6:7:8"), None);
}

#[test]
fn local_ipv6_addresses_are_refused() {
    for mode in [SsrfMode::Strict, SsrfMode::Permissive { allow_private: false }] {
        let g = guard(mode, vec![], vec![]);
        for host in ["[::1]", "[fe80::1]", "[febf:ffff::]"] {
            assert!(g.check_host(host).is_err(), "{host}");
        }
        assert!(g.resolve("::1", 80, Ok(vec![])).is_err());
    }
}
