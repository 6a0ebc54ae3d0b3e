//! SSRF protection of the smaller engine: every address is held against one
//! list of blocked ranges, unless the guard is switched off.

use vstd::prelude::*;

use crate::basic::config::SsrfConfig;
use crate::error::{ErrorView, ProxyError};
use crate::net::{ip_literal, parse_ip, plain_notation, IpAddr, IpNet, SocketAddr};
use crate::proxy::ssrf::{
    all_wf, compile_cidr_list as compile_ranges, find_range, first_match, lemma_default_v4,
    lemma_default_v6, lemma_parsed_all, net4, net6,
};

verus! {

/// The ranges that are never reachable while the guard is on.
pub open spec fn default_blocked() -> Seq<IpNet> {
    seq![
        net4(0, 0, 0, 0, 8),
        net4(10, 0, 0, 0, 8),
        net4(100, 64, 0, 0, 10),
        net4(127, 0, 0, 0, 8),
        net4(169, 254, 0, 0, 16),
        net4(172, 16, 0, 0, 12),
        net4(192, 0, 0, 0, 24),
        net4(192, 0, 2, 0, 24),
        net4(192, 168, 0, 0, 16),
        net4(198, 18, 0, 0, 15),
        net4(198, 51, 100, 0, 24),
        net4(203, 0, 113, 0, 24),
        net4(224, 0, 0, 0, 4),
        net4(240, 0, 0, 0, 4),
        net4(255, 255, 255, 255, 32),
        net6(seq![], seq![], 128),
        net6(seq![], seq![1], 128),
        net6(seq![], seq![0xffff, 0, 0], 96),
        net6(seq![0x64, 0xff9b], seq![], 96),
        net6(seq![0x100], seq![], 64),
        net6(seq![0xfc00], seq![], 7),
        net6(seq![0xfe80], seq![], 10),
        net6(seq![0xff00], seq![], 8),
    ]
}

/// The notations of the ranges of [`default_blocked`].
pub open spec fn default_blocked_texts() -> Seq<&'static str> {
    seq![
        "0.0.0.0/8",
        "10.0.0.0/8",
        "100.64.0.0/10",
        "127.0.0.0/8",
        "169.254.0.0/16",
        "172.16.0.0/12",
        "192.0.0.0/24",
        "192.0.2.0/24",
        "192.168.0.0/16",
        "198.18.0.0/15",
        "198.51.100.0/24",
        "203.0.113.0/24",
        "224.0.0.0/4",
        "240.0.0.0/4",
        "255.255.255.255/32",
        "::/128",
        "::1/128",
        "::ffff:0:0/96",
        "64:ff9b::/96",
        "100::/64",
        "fc00::/7",
        "fe80::/10",
        "ff00::/8",
    ]
}

/// Reads the list of blocked ranges: the built-in ones, then `extras`.
pub fn compile_cidr_list(extras: &[IpNet]) -> (r: Vec<IpNet>)
    ensures
        r@ == default_blocked() + extras@,
        all_wf(default_blocked()),
{
    let builtin: Vec<&'static str> = vec![
        "0.0.0.0/8",
        "10.0.0.0/8",
        "100.64.0.0/10",
        "127.0.0.0/8",
        "169.254.0.0/16",
        "172.16.0.0/12",
        "192.0.0.0/24",
        "192.0.2.0/24",
        "192.168.0.0/16",
        "198.18.0.0/15",
        "198.51.100.0/24",
        "203.0.113.0/24",
        "224.0.0.0/4",
        "240.0.0.0/4",
        "255.255.255.255/32",
        "::/128",
        "::1/128",
        "::ffff:0:0/96",
        "64:ff9b::/96",
        "100::/64",
        "fc00::/7",
        "fe80::/10",
        "ff00::/8",
    ];
    let list = compile_ranges(builtin.as_slice(), extras);
    proof {
        assert(builtin@ =~= default_blocked_texts());
        lemma_default_v4();
        lemma_default_v6();
        lemma_parsed_all(default_blocked_texts(), default_blocked());
    }
    list
}

/// Compiled SSRF guard.
#[derive(Debug)]
pub struct SsrfGuard {
    enabled: bool,
    allow_ipv6: bool,
    blocked: Vec<IpNet>,
}

/// The mathematical content of an [`SsrfGuard`].
pub struct GuardView {
    /// Master switch.
    pub enabled: bool,
    /// Whether IPv6 addresses of a name are usable.
    pub allow_ipv6: bool,
    /// The blocked ranges.
    pub blocked: Seq<IpNet>,
}

impl View for SsrfGuard {
    type V = GuardView;

    closed spec fn view(&self) -> GuardView {
        GuardView {
            enabled: self.enabled,
            allow_ipv6: self.allow_ipv6,
            blocked: self.blocked@,
        }
    }
}

impl GuardView {
    /// The guard that `cfg` describes.
    pub open spec fn of(cfg: SsrfConfig) -> GuardView {
        GuardView {
            enabled: cfg.enabled,
            allow_ipv6: cfg.allow_ipv6,
            blocked: default_blocked() + cfg.extra_blocked_cidrs@,
        }
    }

    /// Whether the guard refuses `ip`: it is on, and a blocked range holds it.
    pub open spec fn refuses(self, ip: IpAddr) -> bool {
        self.enabled && first_match(self.blocked, ip) is Some
    }

    /// Whether the family of `ip` may be used at all.
    pub open spec fn usable(self, ip: IpAddr) -> bool {
        self.allow_ipv6 || ip is V4
    }

    /// The first usable address of `found` that passes the policy.
    pub open spec fn first_admitted(self, found: Seq<IpAddr>) -> Option<IpAddr>
        decreases found.len(),
    {
        if found.len() == 0 {
            None
        } else if self.usable(found[0]) && !self.refuses(found[0]) {
            Some(found[0])
        } else {
            self.first_admitted(found.drop_first())
        }
    }

    /// The first usable address of `found` that is refused.
    pub open spec fn first_refused(self, found: Seq<IpAddr>) -> Option<IpAddr>
        decreases found.len(),
    {
        if found.len() == 0 {
            None
        } else if self.usable(found[0]) && self.refuses(found[0]) {
            Some(found[0])
        } else {
            self.first_refused(found.drop_first())
        }
    }

    /// What `host` resolves to where the resolver answers `answer`: the first
    /// address that passes the policy. Where every usable address is refused
    /// the first refusal comes instead.
    pub open spec fn resolved(
        self,
        host: Seq<char>,
        port: u16,
        answer: Result<Seq<IpAddr>, Seq<char>>,
    ) -> Result<SocketAddr, ErrorView> {
        match ip_literal(host) {
            Some(ip) => if self.refuses(ip) {
                Err(ErrorView::SsrfBlocked(ip))
            } else {
                Ok(SocketAddr { ip, port })
            },
            None => match answer {
                Err(source) => Err(ErrorView::Dns { host, source }),
                Ok(found) => match self.first_admitted(found) {
                    Some(ip) => Ok(SocketAddr { ip, port }),
                    None => match self.first_refused(found) {
                        Some(ip) => Err(ErrorView::SsrfBlocked(ip)),
                        None => Err(
                            ErrorView::Dns {
                                host,
                                source: "no usable address returned by resolver"@,
                            },
                        ),
                    },
                },
            },
        }
    }
}

impl SsrfGuard {
    #[verifier::type_invariant]
    spec fn inv(self) -> bool {
        all_wf(self.blocked@)
    }

    /// Creates the guard that `cfg` describes.
    pub fn new(cfg: &SsrfConfig) -> (r: SsrfGuard)
        requires
            cfg.wf(),
        ensures
            r@ == GuardView::of(*cfg),
    {
        let blocked = compile_cidr_list(cfg.extra_blocked_cidrs.as_slice());
        SsrfGuard { enabled: cfg.enabled, allow_ipv6: cfg.allow_ipv6, blocked }
    }

    /// Whether a blocked range holds `ip`.
    fn is_blocked(&self, ip: &IpAddr) -> (r: bool)
        ensures
            r == first_match(self@.blocked, *ip) is Some,
    {
        proof {
            use_type_invariant(self);
        }
        find_range(&self.blocked, ip).is_some()
    }

    /// Validates an address.
    pub fn check_ip(&self, ip: IpAddr) -> (r: Result<(), ProxyError>)
        ensures
            match r {
                Ok(()) => !self@.refuses(ip),
                Err(err) => self@.refuses(ip) && err@ == ErrorView::SsrfBlocked(ip),
            },
    {
        if !self.enabled {
            return Ok(());
        }
        if self.is_blocked(&ip) {
            Err(ProxyError::SsrfBlocked(ip))
        } else {
            Ok(())
        }
    }

    /// Resolves `host`, for which the resolver answered `answer`, to the first
    /// address that passes the policy.
    pub fn resolve(&self, host: &str, port: u16, answer: Result<Vec<IpAddr>, String>) -> (r: Result<
        SocketAddr,
        ProxyError,
    >)
        ensures
            ({
                let given = match answer {
                    Ok(found) => Ok(found@),
                    Err(source) => Err(source@),
                };
                match r {
                    Ok(addr) => self@.resolved(host@, port, given) == Ok::<SocketAddr, ErrorView>(
                        addr,
                    ),
                    Err(err) => self@.resolved(host@, port, given) == Err::<SocketAddr, ErrorView>(
                        err@,
                    ),
                }
            }),
            forall|ip: IpAddr| #[trigger]
                plain_notation(host@, ip) ==> (r is Ok <==> !self@.refuses(ip)),
    {
        if let Some(ip) = parse_ip(host) {
            return match self.check_ip(ip) {
                Ok(()) => Ok(SocketAddr { ip, port }),
                Err(err) => Err(err),
            };
        }
        let found = match answer {
            Ok(found) => found,
            Err(source) => {
                return Err(ProxyError::Dns { host: host.to_owned(), source });
            },
        };
        match self.select(&found) {
            Ok(Some(ip)) => Ok(SocketAddr { ip, port }),
            Ok(None) => Err(
                ProxyError::Dns {
                    host: host.to_owned(),
                    source: "no usable address returned by resolver".to_owned(),
                },
            ),
            Err(ip) => Err(ProxyError::SsrfBlocked(ip)),
        }
    }

    /// The first address of `found` that passes, or else the first that is
    /// refused, or else none.
    fn select(&self, found: &Vec<IpAddr>) -> (r: Result<Option<IpAddr>, IpAddr>)
        ensures
            match self@.first_admitted(found@) {
                Some(ip) => r == Ok::<Option<IpAddr>, IpAddr>(Some(ip)),
                None => match self@.first_refused(found@) {
                    Some(ip) => r == Err::<Option<IpAddr>, IpAddr>(ip),
                    None => r == Ok::<Option<IpAddr>, IpAddr>(None),
                },
            },
    {
        let mut refused: Option<IpAddr> = None;
        let mut i: usize = 0;
        proof {
            assert(found@.skip(0) == found@);
        }
        while i < found.len()
            invariant
                i <= found@.len(),
                self@.first_admitted(found@) == self@.first_admitted(found@.skip(i as int)),
                match refused {
                    Some(ip) => self@.first_refused(found@) == Some(ip),
                    None => self@.first_refused(found@) == self@.first_refused(
                        found@.skip(i as int),
                    ),
                },
            decreases found@.len() - i,
        {
            proof {
                assert(found@.skip(i as int)[0] == found@[i as int]);
                assert(found@.skip(i as int).drop_first() == found@.skip(i + 1));
            }
            let ip = found[i];
            if self.allow_ipv6 || !ip.is_ipv6() {
                match self.check_ip(ip) {
                    Ok(()) => {
                        return Ok(Some(ip));
                    },
                    Err(_) => {
                        if refused.is_none() {
                            refused = Some(ip);
                        }
                    },
                }
            }
            i += 1;
        }
        match refused {
            Some(ip) => Err(ip),
            None => Ok(None),
        }
    }
}

/// Whatever the resolver answers, the guard never hands out an address that it
/// refuses.
pub proof fn law_resolved_is_admitted(
    guard: GuardView,
    host: Seq<char>,
    port: u16,
    answer: Result<Seq<IpAddr>, Seq<char>>,
)
    ensures
        guard.resolved(host, port, answer) matches Ok(addr) ==> !guard.refuses(addr.ip)
            && addr.port == port,
{
    if let Ok(found) = answer {
        lemma_first_admitted(guard, found);
    }
}

proof fn lemma_first_admitted(guard: GuardView, found: Seq<IpAddr>)
    ensures
        guard.first_admitted(found) matches Some(ip) ==> !guard.refuses(ip) && guard.usable(ip),
    decreases found.len(),
{
    if found.len() > 0 {
        lemma_first_admitted(guard, found.drop_first());
    }
}

} // verus!
