//! Laws of the forwarding headers.

use vstd::prelude::*;
use vstd::utf8::encode_utf8;

use crate::config::forwarded::ForwardedConfig;
use crate::header::{
    lemma_dec_plain, lemma_plain_value, readable_texts, under, valid_value,
};
use crate::laws::redirect::same_under;
use crate::laws::text::{law_decimal, number};
use crate::net::{ip_text, IpAddr};
use crate::proxy::forwarded::{for_element, forwarded_elements, injected, InboundView};
use crate::text::{dec, items, join};

verus! {

/// Whether `out` has `text` as the one value under `name`, or, where the text
/// is no header value, what `h` has there.
pub open spec fn says(
    out: Map<Seq<char>, Seq<Seq<u8>>>,
    h: Map<Seq<char>, Seq<Seq<u8>>>,
    name: Seq<char>,
    text: Seq<char>,
) -> bool {
    if valid_value(encode_utf8(text)) {
        under(out, name) == seq![encode_utf8(text)]
    } else {
        same_under(out, h, name)
    }
}

/// The text of the `forwarded` header: the peer, where it is known, bracketed
/// and quoted where it is IPv6; the scheme; the host spoken to, where there is
/// one; and the host forwarded to.
pub open spec fn forwarded_text(inbound: InboundView, host: Seq<char>) -> Seq<char> {
    let peer = match inbound.client_ip {
        Some(IpAddr::V4(bits)) => "for="@ + ip_text(IpAddr::V4(bits)) + seq![';'],
        Some(IpAddr::V6(bits)) => "for="@ + seq!['"', '['] + ip_text(IpAddr::V6(bits)) + seq![
            ']',
            '"',
            ';',
        ],
        None => Seq::empty(),
    };
    let spoken_to = match inbound.host {
        Some(h) => seq![';'] + "host="@ + h,
        None => Seq::empty(),
    };
    peer + "proto="@ + inbound.scheme + spoken_to + seq![';'] + "by="@ + host
}

/// The names of the forwarding headers are different names.
proof fn lemma_different_names()
    ensures
        ({
            let names = seq![
                "x-request-id"@,
                "x-forwarded-for"@,
                "x-forwarded-proto"@,
                "x-forwarded-host"@,
                "x-forwarded-port"@,
                "forwarded"@,
            ];
            names.no_duplicates()
        }),
{
    reveal_strlit("x-request-id");
    reveal_strlit("x-forwarded-for");
    reveal_strlit("x-forwarded-proto");
    reveal_strlit("x-forwarded-host");
    reveal_strlit("x-forwarded-port");
    reveal_strlit("forwarded");
    assert("x-request-id"@.len() == 12);
    assert("x-forwarded-for"@.len() == 15);
    assert("x-forwarded-proto"@.len() == 17);
    assert("x-forwarded-host"@.len() == 16);
    assert("x-forwarded-port"@.len() == 16);
    assert("x-forwarded-host"@[12] == 'h');
    assert("x-forwarded-port"@[12] == 'p');
    assert("forwarded"@.len() == 9);
}

proof fn lemma_join_one_more(parts: Seq<Seq<char>>, part: Seq<char>, sep: Seq<char>)
    ensures
        join(parts.push(part), sep) == if parts.len() == 0 {
            part
        } else {
            join(parts, sep) + sep + part
        },
{
    assert(parts.push(part).drop_last() =~= parts);
}

proof fn lemma_forwarded_text(inbound: InboundView, host: Seq<char>)
    ensures
        join(forwarded_elements(inbound, host), ";"@) == forwarded_text(inbound, host),
{
    reveal_strlit(";");
    reveal_strlit("for=");
    reveal_strlit("for=\"[");
    reveal_strlit("]\"");
    let all = forwarded_elements(inbound, host);
    let none = Seq::<Seq<char>>::empty();
    let peer = match inbound.client_ip {
        Some(ip) => seq![for_element(ip)],
        None => none,
    };
    let proto = "proto="@ + inbound.scheme;
    let by = "by="@ + host;
    let a = peer.push(proto);
    let b = match inbound.host {
        Some(h) => a.push("host="@ + h),
        None => a,
    };
    assert(all =~= b.push(by));
    lemma_join_one_more(b, by, ";"@);
    if let Some(h) = inbound.host {
        lemma_join_one_more(a, "host="@ + h, ";"@);
    }
    lemma_join_one_more(peer, proto, ";"@);
    if let Some(ip) = inbound.client_ip {
        assert(peer =~= none.push(for_element(ip)));
        lemma_join_one_more(none, for_element(ip), ";"@);
    }
    assert(join(all, ";"@) =~= forwarded_text(inbound, host));
}

/// What the upstream is told, where forwarding headers are put on: the scheme,
/// the host spoken to, the port in decimal, and all together in `forwarded`,
/// whatever the caller sent.
pub proof fn law_forwarding_headers(
    h: Map<Seq<char>, Seq<Seq<u8>>>,
    inbound: InboundView,
    host: Seq<char>,
    cfg: ForwardedConfig,
    id: Seq<char>,
)
    requires
        cfg.inject,
    ensures
        ({
            let out = injected(h, inbound, host, cfg, id);
            &&& says(out, h, "x-forwarded-proto"@, inbound.scheme)
            &&& match inbound.host {
                Some(spoken_to) => says(out, h, "x-forwarded-host"@, spoken_to),
                None => same_under(out, h, "x-forwarded-host"@),
            }
            &&& exists|digits: Seq<char>|
                under(out, "x-forwarded-port"@) == seq![encode_utf8(digits)] && #[trigger] number(
                    digits,
                    10,
                ) == inbound.local_port
            &&& says(out, h, "forwarded"@, forwarded_text(inbound, host))
        }),
{
    lemma_different_names();
    lemma_distinct();
    lemma_forwarded_text(inbound, host);
    let digits = dec(inbound.local_port as nat);
    law_decimal(inbound.local_port as nat);
    lemma_dec_plain(inbound.local_port as nat);
    lemma_plain_value(digits);
    let out = injected(h, inbound, host, cfg, id);
    assert(under(out, "x-forwarded-port"@) =~= seq![encode_utf8(digits)]);
    assert(number(digits, 10) == inbound.local_port);
}

proof fn lemma_distinct()
    ensures
        "x-request-id"@ != "x-forwarded-for"@,
        "x-request-id"@ != "x-forwarded-proto"@,
        "x-request-id"@ != "x-forwarded-host"@,
        "x-request-id"@ != "x-forwarded-port"@,
        "x-request-id"@ != "forwarded"@,
        "x-forwarded-for"@ != "x-forwarded-proto"@,
        "x-forwarded-for"@ != "x-forwarded-host"@,
        "x-forwarded-for"@ != "x-forwarded-port"@,
        "x-forwarded-for"@ != "forwarded"@,
        "x-forwarded-proto"@ != "x-forwarded-host"@,
        "x-forwarded-proto"@ != "x-forwarded-port"@,
        "x-forwarded-proto"@ != "forwarded"@,
        "x-forwarded-host"@ != "x-forwarded-port"@,
        "x-forwarded-host"@ != "forwarded"@,
        "x-forwarded-port"@ != "forwarded"@,
{
    lemma_different_names();
    let names = seq![
        "x-request-id"@,
        "x-forwarded-for"@,
        "x-forwarded-proto"@,
        "x-forwarded-host"@,
        "x-forwarded-port"@,
        "forwarded"@,
    ];
    assert(names[0] != names[1] && names[0] != names[2] && names[0] != names[3] && names[0]
        != names[4] && names[0] != names[5]);
    assert(names[1] != names[2] && names[1] != names[3] && names[1] != names[4] && names[1]
        != names[5]);
    assert(names[2] != names[3] && names[2] != names[4] && names[2] != names[5]);
    assert(names[3] != names[4] && names[3] != names[5] && names[4] != names[5]);
}

/// The chain of addresses that the upstream is told. A chain that is not trusted
/// is replaced by the peer, whatever the caller sent. A trusted one, which is all
/// that can be read of it, keeps its addresses in order and ends in the peer,
/// which is not added where it stands at the end already. Without a peer the
/// chain stays as it is.
pub proof fn law_address_chain(
    h: Map<Seq<char>, Seq<Seq<u8>>>,
    inbound: InboundView,
    host: Seq<char>,
    cfg: ForwardedConfig,
    id: Seq<char>,
)
    requires
        cfg.inject,
    ensures
        ({
            let out = injected(h, inbound, host, cfg, id);
            match inbound.client_ip {
                None => same_under(out, h, "x-forwarded-for"@),
                Some(client) => {
                    let sent = readable_texts(under(h, "x-forwarded-for"@));
                    let chain = join(sent, seq![',', ' ']);
                    let peer = ip_text(client);
                    if !cfg.trust_inbound_xff || sent.len() == 0 {
                        says(out, h, "x-forwarded-for"@, peer)
                    } else if items(chain).last() == peer {
                        says(out, h, "x-forwarded-for"@, chain)
                    } else {
                        says(out, h, "x-forwarded-for"@, chain + seq![',', ' '] + peer)
                    }
                },
            }
        }),
{
    lemma_distinct();
    reveal_strlit(", ");
    assert(", "@ =~= seq![',', ' ']);
}

/// A request that has an identifier keeps it; one that has none gets the new
/// one, where that is switched on.
pub proof fn law_request_id(
    h: Map<Seq<char>, Seq<Seq<u8>>>,
    inbound: InboundView,
    host: Seq<char>,
    cfg: ForwardedConfig,
    id: Seq<char>,
)
    ensures
        ({
            let out = injected(h, inbound, host, cfg, id);
            if cfg.inject_request_id && !h.dom().contains("x-request-id"@) {
                says(out, h, "x-request-id"@, id)
            } else {
                same_under(out, h, "x-request-id"@)
            }
        }),
{
    lemma_distinct();
}

/// No other header is touched; and where forwarding headers are switched off,
/// none but the identifier is.
pub proof fn law_other_headers_stay(
    h: Map<Seq<char>, Seq<Seq<u8>>>,
    inbound: InboundView,
    host: Seq<char>,
    cfg: ForwardedConfig,
    id: Seq<char>,
    name: Seq<char>,
)
    requires
        name != "x-request-id"@,
        cfg.inject ==> name != "x-forwarded-for"@ && name != "x-forwarded-proto"@ && name
            != "x-forwarded-host"@ && name != "x-forwarded-port"@ && name != "forwarded"@,
    ensures
        same_under(injected(h, inbound, host, cfg, id), h, name),
{
}

} // verus!
