//! Laws of the defaults.

use vstd::prelude::*;

use crate::config::security::SecurityConfig;
use crate::config::ssrf::SsrfConfig;
use crate::config::target::TargetConfig;
use crate::header::valid_name;
use crate::laws::headers::{denoted, law_filter};
use crate::laws::ssrf::{
    law_guard_on_ipv4, law_guard_on_ipv6, mapped, reserved_groups, reserved_octets, special_groups,
};
use crate::laws::target_policy::{law_admission, scheme_allowed};
use crate::laws::text::{law_lower_forgets_case, same_but_case};
use crate::net::IpAddr;
use crate::policy::target::TargetPolicyView;
use crate::proxy::headers::{filtered, names_in};
use crate::proxy::ssrf::GuardView;
use crate::text::{lower, texts, trim};

verus! {

/// Out of the box the guard refuses exactly the reserved addresses.
pub proof fn law_default_guard(cfg: SsrfConfig, a: u8, b: u8, c: u8, d: u8, bits: u128)
    requires
        cfg.is_default(),
    ensures
        GuardView::of(cfg).checked(
            IpAddr::V4((a * 0x100_0000 + b * 0x1_0000 + c * 0x100 + d) as u32),
        ) is Err <==> reserved_octets(a, b, c),
        !mapped(bits) ==> (GuardView::of(cfg).checked(IpAddr::V6(bits)) is Err <==> reserved_groups(
            bits,
        ) || special_groups(bits)),
{
    law_guard_on_ipv4(cfg, a, b, c, d);
    if !mapped(bits) {
        law_guard_on_ipv6(cfg, bits);
    }
}

/// Out of the box every host is admitted, with a web scheme in whatever case and
/// with no other.
pub proof fn law_default_targets(cfg: TargetConfig, scheme: Seq<char>, host: Seq<char>)
    requires
        cfg.is_default(),
    ensures
        TargetPolicyView::of(cfg).verdict(scheme, host) is Ok <==> same_but_case(scheme, "http"@)
            || same_but_case(scheme, "https"@),
{
    law_admission(cfg, scheme, host);
    reveal_strlit("http");
    reveal_strlit("https");
    let all = texts(cfg.schemes@);
    assert(all.len() == cfg.schemes@.len());
    assert(all[0] == cfg.schemes@[0]@ && all[1] == cfg.schemes@[1]@);
    assert(trim("http"@) == "http"@);
    assert(trim("https"@) == "https"@);
    law_lower_forgets_case(scheme, "http"@);
    law_lower_forgets_case("http"@, scheme);
    law_lower_forgets_case(scheme, "https"@);
    law_lower_forgets_case("https"@, scheme);
    if scheme_allowed(cfg, scheme) {
        let i = choose|i: int|
            0 <= i < cfg.schemes@.len() && same_but_case(trim((#[trigger] cfg.schemes@[i])@), scheme);
        assert(i == 0 || i == 1);
    }
}

/// Out of the box no cookie crosses the proxy, in either direction.
pub proof fn law_default_filters(cfg: SecurityConfig, h: Map<Seq<char>, Seq<Seq<u8>>>)
    requires
        cfg.is_default(),
    ensures
        ({
            let out = filtered(h, names_in(texts(cfg.remove_request_headers@)));
            !out.dom().contains("cookie"@) && !out.dom().contains("cookie2"@)
        }),
        ({
            let out = filtered(h, names_in(texts(cfg.remove_response_headers@)));
            !out.dom().contains("set-cookie"@) && !out.dom().contains("set-cookie2"@)
        }),
{
    reveal_strlit("cookie");
    reveal_strlit("cookie2");
    reveal_strlit("set-cookie");
    reveal_strlit("set-cookie2");
    let asked = texts(cfg.remove_request_headers@);
    assert(lower("cookie"@) =~= "cookie"@ && lower("cookie2"@) =~= "cookie2"@);
    assert(valid_name(asked[0]) && valid_name(asked[1]));
    assert(denoted(asked, "cookie"@) && denoted(asked, "cookie2"@));
    law_filter(h, asked, "cookie"@);
    law_filter(h, asked, "cookie2"@);
    let sent = texts(cfg.remove_response_headers@);
    assert(lower("set-cookie"@) =~= "set-cookie"@ && lower("set-cookie2"@) =~= "set-cookie2"@);
    assert(valid_name(sent[0]) && valid_name(sent[1]));
    assert(denoted(sent, "set-cookie"@) && denoted(sent, "set-cookie2"@));
    law_filter(h, sent, "set-cookie"@);
    law_filter(h, sent, "set-cookie2"@);
}

} // verus!
