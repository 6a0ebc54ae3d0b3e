//! Forwarding headers on outbound requests.
//!
//! They tell the upstream who the caller was, which scheme the inbound request
//! used, and which host the browser spoke to. An inbound `x-forwarded-for`
//! chain is replaced unless it is trusted, so that callers cannot forge it.

use vstd::prelude::*;
use vstd::utf8::encode_utf8;

use crate::config::forwarded::ForwardedConfig;
use crate::header::{
    canonical_name, combined, first, has_name, has_room, header_contents, lemma_plain_value,
    lemma_put_room, lemma_visible_value, plain_ascii, put, readable_texts, room_left, set_value,
    texts_under, under, valid_value, value_from_str, visible,
};
use crate::net::{address_form, ip_text, show_ip, IpAddr};
use crate::proxy::url_parser::TargetUrl;
use crate::text::{
    concat, concat3, dec, decimal, items, join, join_texts, lemma_items_concat,
    lemma_split_nonempty, lemma_split_single, list_items, lower, same_text, texts, trim,
};

verus! {

/// Name of the header that carries the request identifier.
pub const REQUEST_ID_HEADER: &'static str = "x-request-id";

/// What is known of the inbound connection.
#[derive(Clone, Copy, Debug)]
pub struct InboundContext<'a> {
    /// Address of the TCP peer.
    pub client_ip: Option<IpAddr>,
    /// Scheme of the inbound request.
    pub scheme: &'a str,
    /// `Host` header of the inbound request.
    pub host: Option<&'a str>,
    /// Port on which the connection was accepted.
    pub local_port: u16,
}

/// The mathematical content of an [`InboundContext`].
pub struct InboundView {
    /// Address of the TCP peer.
    pub client_ip: Option<IpAddr>,
    /// Scheme of the inbound request.
    pub scheme: Seq<char>,
    /// `Host` header of the inbound request.
    pub host: Option<Seq<char>>,
    /// Port on which the connection was accepted.
    pub local_port: u16,
}

impl<'a> View for InboundContext<'a> {
    type V = InboundView;

    open spec fn view(&self) -> InboundView {
        InboundView {
            client_ip: self.client_ip,
            scheme: self.scheme@,
            host: match self.host {
                Some(host) => Some(host@),
                None => None,
            },
            local_port: self.local_port,
        }
    }
}

/// `h` with the text under `name`, where the text is a header value; as it is
/// otherwise.
pub open spec fn put_text(
    h: Map<Seq<char>, Seq<Seq<u8>>>,
    name: Seq<char>,
    text: Seq<char>,
) -> Map<Seq<char>, Seq<Seq<u8>>> {
    if valid_value(encode_utf8(text)) {
        put(h, name, encode_utf8(text))
    } else {
        h
    }
}

/// `h` with `id` as the request identifier, where there is none yet.
pub open spec fn with_request_id(
    h: Map<Seq<char>, Seq<Seq<u8>>>,
    id: Seq<char>,
) -> Map<Seq<char>, Seq<Seq<u8>>> {
    if h.dom().contains("x-request-id"@) {
        h
    } else {
        put_text(h, "x-request-id"@, id)
    }
}

/// Whether `client` is the last address of a chain.
pub open spec fn ends_in(chain: Seq<char>, client: IpAddr) -> bool {
    items(chain).last() == ip_text(client)
}

/// The `x-forwarded-for` chain of `h` with `client` at its end. All values
/// together are the chain; what cannot be read as text is dropped, and a chain
/// that ends in `client` already stays as it is.
pub open spec fn chain_with(h: Map<Seq<char>, Seq<Seq<u8>>>, client: IpAddr) -> Seq<char> {
    let chain = combined(h, "x-forwarded-for"@);
    if readable_texts(under(h, "x-forwarded-for"@)).len() == 0 {
        ip_text(client)
    } else if ends_in(chain, client) {
        chain
    } else {
        chain + ", "@ + ip_text(client)
    }
}

/// The `for` element of the `forwarded` header: IPv6 addresses are bracketed
/// and quoted.
pub open spec fn for_element(ip: IpAddr) -> Seq<char> {
    match ip {
        IpAddr::V4(_) => "for="@ + ip_text(ip),
        IpAddr::V6(_) => "for=\"["@ + ip_text(ip) + "]\""@,
    }
}

/// The elements of the `forwarded` header.
pub open spec fn forwarded_elements(inbound: InboundView, host: Seq<char>) -> Seq<Seq<char>> {
    let peer = match inbound.client_ip {
        Some(ip) => seq![for_element(ip)],
        None => Seq::empty(),
    };
    let spoken_to = match inbound.host {
        Some(h) => seq!["host="@ + h],
        None => Seq::empty(),
    };
    peer + seq!["proto="@ + inbound.scheme] + spoken_to + seq!["by="@ + host]
}

/// The headers of a request `h` with what the configuration asks for; `id` is
/// the identifier for a request without one.
pub open spec fn injected(
    h: Map<Seq<char>, Seq<Seq<u8>>>,
    inbound: InboundView,
    host: Seq<char>,
    cfg: ForwardedConfig,
    id: Seq<char>,
) -> Map<Seq<char>, Seq<Seq<u8>>> {
    let named = if cfg.inject_request_id {
        with_request_id(h, id)
    } else {
        h
    };
    if !cfg.inject {
        named
    } else {
        let traced = match inbound.client_ip {
            Some(client) => put_text(
                named,
                "x-forwarded-for"@,
                if cfg.trust_inbound_xff {
                    chain_with(named, client)
                } else {
                    ip_text(client)
                },
            ),
            None => named,
        };
        let schemed = put_text(traced, "x-forwarded-proto"@, inbound.scheme);
        let hosted = match inbound.host {
            Some(spoken_to) => put_text(schemed, "x-forwarded-host"@, spoken_to),
            None => schemed,
        };
        let ported = put_text(hosted, "x-forwarded-port"@, dec(inbound.local_port as nat));
        put_text(ported, "forwarded"@, join(forwarded_elements(inbound, host), ";"@))
    }
}

/// Without trust, the `x-forwarded-for` chain of a request is its peer alone,
/// whatever the caller sent.
pub open spec fn replaces_chain(
    h: Map<Seq<char>, Seq<Seq<u8>>>,
    inbound: InboundView,
    cfg: ForwardedConfig,
) -> bool {
    cfg.inject && !cfg.trust_inbound_xff && inbound.client_ip is Some ==> first(
        h,
        "x-forwarded-for"@,
    ) == Some(encode_utf8(ip_text(inbound.client_ip->Some_0)))
}

/// Whether `c` is a hexadecimal digit in lower case.
pub open spec fn is_hex_digit(c: char) -> bool {
    '0' <= c <= '9' || 'a' <= c <= 'f'
}

/// Whether `s` has the form of a version 7 UUID: 36 characters, dashes at four
/// places, hexadecimal digits elsewhere, the version digit `7`, and a variant
/// digit from `8` to `b`.
pub open spec fn uuid_form(s: Seq<char>) -> bool {
    &&& s.len() == 36
    &&& forall|i: int|
        #![trigger s[i]]
        0 <= i < 36 ==> if i == 8 || i == 13 || i == 18 || i == 23 {
            s[i] == '-'
        } else {
            is_hex_digit(s[i])
        }
    &&& s[14] == '7'
    &&& s[19] == '8' || s[19] == '9' || s[19] == 'a' || s[19] == 'b'
}

/// A new identifier from `uuid::Uuid::now_v7`, which takes the time and random
/// bytes; nothing but its form is claimed. The call panics where the clock
/// stands before 1970 or the system has no random bytes.
#[verifier::external_body]
fn new_request_id() -> (r: String)
    ensures
        uuid_form(r@),
{
    uuid::Uuid::now_v7().to_string()
}

/// The names of the forwarding headers are in lower case.
proof fn lemma_names()
    ensures
        canonical_name("x-request-id"@),
        canonical_name("x-forwarded-for"@),
        canonical_name("x-forwarded-proto"@),
        canonical_name("x-forwarded-host"@),
        canonical_name("x-forwarded-port"@),
        canonical_name("forwarded"@),
{
    reveal_strlit("x-request-id");
    reveal_strlit("x-forwarded-for");
    reveal_strlit("x-forwarded-proto");
    reveal_strlit("x-forwarded-host");
    reveal_strlit("x-forwarded-port");
    reveal_strlit("forwarded");
    assert(lower("x-request-id"@) =~= "x-request-id"@);
    assert(lower("x-forwarded-for"@) =~= "x-forwarded-for"@);
    assert(lower("x-forwarded-proto"@) =~= "x-forwarded-proto"@);
    assert(lower("x-forwarded-host"@) =~= "x-forwarded-host"@);
    assert(lower("x-forwarded-port"@) =~= "x-forwarded-port"@);
    assert(lower("forwarded"@) =~= "forwarded"@);
}

/// Puts a text under `name`, where it is a header value.
fn set_text(headers: &mut http::HeaderMap, name: &str, text: &str)
    requires
        canonical_name(name@),
        has_room(*old(headers), 1),
    ensures
        header_contents(*final(headers)) == put_text(
            header_contents(*old(headers)),
            name@,
            text@,
        ),
        has_room(*final(headers), room_left(*old(headers)) - 1),
{
    let ghost before = *headers;
    if let Some(value) = value_from_str(text) {
        set_value(headers, name, &value);
        proof {
            lemma_put_room(before, *headers, name@, value@, room_left(before));
        }
    }
}

/// The `x-forwarded-for` chain with `client`, written `shown`, at its end.
fn appended_chain(headers: &http::HeaderMap, client: &IpAddr, shown: String) -> (r: String)
    requires
        shown@ == ip_text(*client),
    ensures
        r@ == chain_with(header_contents(*headers), *client),
{
    proof {
        lemma_names();
    }
    let values = texts_under(headers, "x-forwarded-for");
    assert(texts(values@).len() == values@.len());
    if values.len() == 0 {
        return shown;
    }
    let chain = join_texts(&values, ", ");
    let addresses = list_items(chain.as_str());
    proof {
        lemma_split_nonempty(chain@, ',');
        assert(texts(addresses@).len() == addresses@.len());
        assert(texts(addresses@).last() == addresses@[addresses@.len() - 1]@);
    }
    if same_text(addresses[addresses.len() - 1].as_str(), shown.as_str()) {
        return chain;
    }
    concat3(chain.as_str(), ", ", shown.as_str())
}

/// The value of the `forwarded` header, as text.
pub fn build_forwarded_value(inbound: InboundContext<'_>, target: &TargetUrl) -> (r: String)
    ensures
        r@ == join(forwarded_elements(inbound@, target@.host), ";"@),
{
    let mut parts: Vec<String> = Vec::new();
    if let Some(ip) = inbound.client_ip {
        let shown = show_ip(&ip);
        let element = match ip {
            IpAddr::V4(_) => concat("for=", shown.as_str()),
            IpAddr::V6(_) => concat3("for=\"[", shown.as_str(), "]\""),
        };
        parts.push(element);
    }
    parts.push(concat("proto=", inbound.scheme));
    if let Some(host) = inbound.host {
        parts.push(concat("host=", host));
    }
    parts.push(concat("by=", target.host.as_str()));
    assert(texts(parts@) =~= forwarded_elements(inbound@, target@.host));
    join_texts(&parts, ";")
}

/// Puts the forwarding headers on an outbound request, with `id` as the
/// identifier for a request without one.
pub fn inject_with_id(
    headers: &mut http::HeaderMap,
    inbound: InboundContext<'_>,
    target: &TargetUrl,
    cfg: &ForwardedConfig,
    id: &str,
)
    requires
        has_room(*old(headers), 6),
    ensures
        header_contents(*final(headers)) == injected(
            header_contents(*old(headers)),
            inbound@,
            target@.host,
            *cfg,
            id@,
        ),
        replaces_chain(header_contents(*final(headers)), inbound@, *cfg),
        uuid_form(id@) || !needs_id(header_contents(*old(headers)), *cfg) ==> settled(
            header_contents(*final(headers)),
            inbound@,
            target@.host,
            *cfg,
        ),
{
    let ghost h = header_contents(*headers);
    proof {
        lemma_names();
        lemma_distinct_names();
        if !cfg.inject {
            lemma_settles(h, inbound@, target@.host, *cfg, id@);
        }
    }
    if cfg.inject_request_id {
        if !has_name(headers, "x-request-id") {
            set_text(headers, "x-request-id", id);
        }
    }
    if !cfg.inject {
        return ;
    }
    if let Some(client) = inbound.client_ip {
        let shown = show_ip(&client);
        proof {
            lemma_address_item(shown@);
            lemma_plain_value(shown@);
        }
        let chain = if cfg.trust_inbound_xff {
            appended_chain(headers, &client, shown)
        } else {
            shown
        };
        set_text(headers, "x-forwarded-for", chain.as_str());
    }
    set_text(headers, "x-forwarded-proto", inbound.scheme);
    if let Some(host) = inbound.host {
        set_text(headers, "x-forwarded-host", host);
    }
    let port = decimal(inbound.local_port as u64);
    set_text(headers, "x-forwarded-port", port.as_str());
    let forwarded = build_forwarded_value(inbound, target);
    set_text(headers, "forwarded", forwarded.as_str());
    proof {
        lemma_settles(h, inbound@, target@.host, *cfg, id@);
    }
}

/// Whether injecting leaves headers `h` as they are, whatever the identifier
/// for a request without one.
pub open spec fn settled(
    h: Map<Seq<char>, Seq<Seq<u8>>>,
    inbound: InboundView,
    host: Seq<char>,
    cfg: ForwardedConfig,
) -> bool {
    forall|id: Seq<char>| #[trigger] injected(h, inbound, host, cfg, id) == h
}

/// Whether a request with headers `h` gets an identifier.
pub open spec fn needs_id(h: Map<Seq<char>, Seq<Seq<u8>>>, cfg: ForwardedConfig) -> bool {
    cfg.inject_request_id && !h.dom().contains("x-request-id"@)
}

/// Puts the forwarding headers and a request identifier on an outbound
/// request. Values that are there are kept, replaced or appended to as the
/// configuration says; a new identifier is a version 7 UUID. A second call on
/// the same headers changes nothing.
pub fn inject(
    headers: &mut http::HeaderMap,
    inbound: InboundContext<'_>,
    target: &TargetUrl,
    cfg: &ForwardedConfig,
)
    requires
        has_room(*old(headers), 6),
    ensures
        needs_id(header_contents(*old(headers)), *cfg) ==> exists|id: Seq<char>|
            #[trigger] uuid_form(id) && header_contents(*final(headers)) == injected(
                header_contents(*old(headers)),
                inbound@,
                target@.host,
                *cfg,
                id,
            ),
        !needs_id(header_contents(*old(headers)), *cfg) ==> forall|id: Seq<char>|
            header_contents(*final(headers)) == #[trigger] injected(
                header_contents(*old(headers)),
                inbound@,
                target@.host,
                *cfg,
                id,
            ),
        replaces_chain(header_contents(*final(headers)), inbound@, *cfg),
        settled(header_contents(*final(headers)), inbound@, target@.host, *cfg),
{
    proof {
        lemma_names();
    }
    if cfg.inject_request_id && !has_name(headers, "x-request-id") {
        let id = new_request_id();
        inject_with_id(headers, inbound, target, cfg, id.as_str());
    } else {
        inject_with_id(headers, inbound, target, cfg, "");
    }
}

/// An identifier of the right form is a header value.
proof fn lemma_uuid_plain(id: Seq<char>)
    requires
        uuid_form(id),
    ensures
        valid_value(encode_utf8(id)),
{
    assert(plain_ascii(id));
    lemma_plain_value(id);
}

/// The notation of an address is printable, and is the one item of itself.
proof fn lemma_address_item(text: Seq<char>)
    requires
        address_form(text),
    ensures
        plain_ascii(text),
        items(text) == seq![text],
{
    assert forall|i: int| 0 <= i < text.len() implies text[i] != ',' by {}
    lemma_split_single(text, ',');
    assert(trim(text) == text);
    assert(items(text) =~= seq![text]);
}

/// What can be read of header values is printable, also when joined.
proof fn lemma_readable_plain(values: Seq<Seq<u8>>)
    ensures
        plain_ascii(join(readable_texts(values), ", "@)),
    decreases values.len(),
{
    reveal_strlit(", ");
    if values.len() > 0 {
        let before = readable_texts(values.drop_last());
        lemma_readable_plain(values.drop_last());
        if visible(values.last()) {
            lemma_visible_value(values.last());
            assert(readable_texts(values).drop_last() =~= before);
        }
    }
}

/// The chain is printable, and ends in the peer.
proof fn lemma_chain(h: Map<Seq<char>, Seq<Seq<u8>>>, client: IpAddr)
    requires
        address_form(ip_text(client)),
    ensures
        plain_ascii(chain_with(h, client)),
        ends_in(chain_with(h, client), client),
{
    reveal_strlit(", ");
    lemma_address_item(ip_text(client));
    lemma_readable_plain(under(h, "x-forwarded-for"@));
    lemma_items_concat(combined(h, "x-forwarded-for"@), ip_text(client));
}

/// A chain that is the one value of its header, is printable and ends in the
/// peer stays as it is.
proof fn lemma_chain_stays(h: Map<Seq<char>, Seq<Seq<u8>>>, chain: Seq<char>, client: IpAddr)
    requires
        plain_ascii(chain),
        ends_in(chain, client),
        under(h, "x-forwarded-for"@) == seq![encode_utf8(chain)],
    ensures
        chain_with(h, client) == chain,
{
    lemma_plain_value(chain);
    let values = under(h, "x-forwarded-for"@);
    assert(values.drop_last() =~= Seq::<Seq<u8>>::empty());
    reveal_with_fuel(readable_texts, 2);
    assert(readable_texts(values) =~= seq![chain]);
}

/// Injecting twice is injecting once, with a trusted chain as well as without:
/// the second identifier is not used, a chain that ends in the peer does not
/// grow, and every other header gets the value it has. The peer is written as
/// addresses are.
pub proof fn law_inject_idempotent(
    h: Map<Seq<char>, Seq<Seq<u8>>>,
    inbound: InboundView,
    host: Seq<char>,
    cfg: ForwardedConfig,
    id: Seq<char>,
    other_id: Seq<char>,
)
    requires
        uuid_form(id) || !needs_id(h, cfg),
        inbound.client_ip matches Some(ip) ==> (cfg.inject ==> address_form(ip_text(ip))),
    ensures
        injected(injected(h, inbound, host, cfg, id), inbound, host, cfg, other_id) == injected(
            h,
            inbound,
            host,
            cfg,
            id,
        ),
{
    lemma_distinct_names();
    if uuid_form(id) {
        lemma_uuid_plain(id);
    }
    let once = injected(h, inbound, host, cfg, id);
    assert(cfg.inject_request_id ==> once.dom().contains("x-request-id"@));
    if cfg.inject && cfg.trust_inbound_xff && inbound.client_ip is Some {
        let client = inbound.client_ip->Some_0;
        let named = if cfg.inject_request_id {
            with_request_id(h, id)
        } else {
            h
        };
        let chain = chain_with(named, client);
        lemma_chain(named, client);
        lemma_plain_value(chain);
        lemma_chain_stays(once, chain, client);
    }
    assert(injected(once, inbound, host, cfg, other_id) =~= once);
}

/// What injecting gives is settled.
proof fn lemma_settles(
    h: Map<Seq<char>, Seq<Seq<u8>>>,
    inbound: InboundView,
    host: Seq<char>,
    cfg: ForwardedConfig,
    id: Seq<char>,
)
    requires
        inbound.client_ip matches Some(ip) ==> (cfg.inject ==> address_form(ip_text(ip))),
    ensures
        uuid_form(id) || !needs_id(h, cfg) ==> settled(
            injected(h, inbound, host, cfg, id),
            inbound,
            host,
            cfg,
        ),
{
    if uuid_form(id) || !needs_id(h, cfg) {
        let once = injected(h, inbound, host, cfg, id);
        assert forall|other: Seq<char>| #[trigger]
            injected(once, inbound, host, cfg, other) == once by {
            law_inject_idempotent(h, inbound, host, cfg, id, other);
        }
    }
}

/// A request identifier that the client sent is kept.
pub proof fn law_client_id_kept(
    h: Map<Seq<char>, Seq<Seq<u8>>>,
    inbound: InboundView,
    host: Seq<char>,
    cfg: ForwardedConfig,
    id: Seq<char>,
)
    requires
        h.dom().contains("x-request-id"@),
    ensures
        injected(h, inbound, host, cfg, id).dom().contains("x-request-id"@),
        injected(h, inbound, host, cfg, id)["x-request-id"@] == h["x-request-id"@],
{
    lemma_distinct_names();
}

/// The request identifier has a name of its own.
proof fn lemma_distinct_names()
    ensures
        "x-request-id"@ != "x-forwarded-for"@,
        "x-request-id"@ != "x-forwarded-proto"@,
        "x-request-id"@ != "x-forwarded-host"@,
        "x-request-id"@ != "x-forwarded-port"@,
        "x-request-id"@ != "forwarded"@,
        "x-forwarded-for"@ != "x-forwarded-proto"@,
        "x-forwarded-for"@ != "x-forwarded-host"@,
        "x-forwarded-for"@ != "x-forwarded-port"@,
        "x-forwarded-for"@ != "forwarded"@,
{
    reveal_strlit("x-request-id");
    reveal_strlit("x-forwarded-for");
    reveal_strlit("x-forwarded-proto");
    reveal_strlit("x-forwarded-host");
    reveal_strlit("x-forwarded-port");
    reveal_strlit("forwarded");
    assert("x-request-id"@.len() == 12);
    assert("x-forwarded-for"@.len() == 15);
    assert("x-forwarded-proto"@.len() == 17);
    assert("x-forwarded-host"@.len() == 16);
    assert("x-forwarded-port"@.len() == 16);
    assert("forwarded"@.len() == 9);
}

} // verus!
