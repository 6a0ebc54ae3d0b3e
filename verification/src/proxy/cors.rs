//! CORS policy.
//!
//! This module makes the response headers that the CORS protocol asks for, on
//! every reply that leaves the proxy: on preflights, which are answered here
//! with `204 No Content`; on real responses, whose own CORS headers give way to
//! those of the policy; and on error responses, so that they stay readable to
//! the calling browser.

use vstd::prelude::*;
use vstd::utf8::encode_utf8;

use crate::config::cors::CorsPolicyKind;
use crate::header::{
    ascii_text, canonical_name, empty_headers, first, get_value, has_name, has_room,
    header_contents, lemma_dec_plain, lemma_plain_value, lemma_put_room, lemma_visible_value,
    no_headers, plain_ascii, put, room_left, set_value, under, valid_value,
    value_from_str, value_to_str, visible,
};
use crate::message::{Method, MethodView, RequestHead, ResponseHead};
use crate::proxy::headers::{all_canonical, remove_each, views, without};
use crate::text::{
    concat3, copy_texts, dec, decimal, eq_ignore_ascii_case, is_white, join, join_texts, lemma_split_append,
    lemma_split_single, lower, split, split_text, texts, trim, trim_start, trimmed,
};
use crate::time::Duration;
use crate::util::{to_origin_set, OriginSet};

verus! {

/// What a CORS policy is compiled from.
#[derive(Clone, Debug)]
pub struct CorsConfig {
    /// Which policy to apply.
    pub policy: CorsPolicyKind,
    /// The origins that are let in.
    pub origins: Vec<String>,
    /// Whether reflecting without listed origins lets any origin in.
    pub allow_any_origin: bool,
    /// Methods advertised on preflight responses.
    pub allowed_methods: Vec<String>,
    /// Headers advertised on preflight responses.
    pub allowed_headers: Vec<String>,
    /// Headers that scripts may read on real responses.
    pub exposed_headers: Vec<String>,
    /// How long a preflight response may be cached.
    pub max_age: Duration,
    /// Whether to allow credentials.
    pub allow_credentials: bool,
    /// Whether to answer the private network handshake.
    pub allow_private_network: bool,
}

/// Which origins are let in.
pub enum PolicyMode {
    /// Every origin, without naming it.
    Wildcard,
    /// Every origin, or those in the set.
    Reflect(Option<OriginSet>),
    /// The origins in the set.
    Explicit(OriginSet),
}

/// The mathematical content of a [`PolicyMode`].
pub enum ModeView {
    /// See [`PolicyMode::Wildcard`].
    Wildcard,
    /// See [`PolicyMode::Reflect`].
    Reflect(Option<Set<Seq<char>>>),
    /// See [`PolicyMode::Explicit`].
    Explicit(Set<Seq<char>>),
}

impl View for PolicyMode {
    type V = ModeView;

    open spec fn view(&self) -> ModeView {
        match *self {
            PolicyMode::Wildcard => ModeView::Wildcard,
            PolicyMode::Reflect(Some(set)) => ModeView::Reflect(Some(set@)),
            PolicyMode::Reflect(None) => ModeView::Reflect(None),
            PolicyMode::Explicit(set) => ModeView::Explicit(set@),
        }
    }
}

/// Compiled CORS policy.
pub struct CorsPolicy {
    mode: PolicyMode,
    allowed_methods: Option<Vec<u8>>,
    allowed_headers: Option<Vec<u8>>,
    exposed_headers: Option<Vec<u8>>,
    max_age_value: Option<Vec<u8>>,
    allow_credentials: bool,
    allow_private_network: bool,
}

/// The mathematical content of a [`CorsPolicy`].
pub struct CorsPolicyView {
    /// Which origins are let in.
    pub mode: ModeView,
    /// Value of `access-control-allow-methods`.
    pub allowed_methods: Option<Seq<u8>>,
    /// Value of `access-control-allow-headers`.
    pub allowed_headers: Option<Seq<u8>>,
    /// Value of `access-control-expose-headers`.
    pub exposed_headers: Option<Seq<u8>>,
    /// Value of `access-control-max-age`.
    pub max_age_value: Option<Seq<u8>>,
    /// Whether to allow credentials.
    pub allow_credentials: bool,
    /// Whether to answer the private network handshake.
    pub allow_private_network: bool,
}

/// The view of an optional header value.
pub open spec fn opt_bytes(v: Option<Vec<u8>>) -> Option<Seq<u8>> {
    match v {
        Some(b) => Some(b@),
        None => None,
    }
}

/// An optional header value is one, where it is there.
pub open spec fn opt_valid(v: Option<Seq<u8>>) -> bool {
    v matches Some(b) ==> valid_value(b)
}

impl View for CorsPolicy {
    type V = CorsPolicyView;

    closed spec fn view(&self) -> CorsPolicyView {
        CorsPolicyView {
            mode: self.mode@,
            allowed_methods: opt_bytes(self.allowed_methods),
            allowed_headers: opt_bytes(self.allowed_headers),
            exposed_headers: opt_bytes(self.exposed_headers),
            max_age_value: opt_bytes(self.max_age_value),
            allow_credentials: self.allow_credentials,
            allow_private_network: self.allow_private_network,
        }
    }
}

/// The value of a header that lists `values`: none where nothing is listed, or
/// where the list is no header value.
pub open spec fn token_list(values: Seq<Seq<char>>) -> Option<Seq<u8>> {
    let joined = encode_utf8(join(values, ", "@));
    if values.len() == 0 || !valid_value(joined) {
        None
    } else {
        Some(joined)
    }
}

/// The origins that `cfg` lets in. Reflecting without listed origins lets in
/// any origin where that is asked for, and none otherwise.
pub open spec fn mode_of(cfg: CorsConfig) -> ModeView {
    let listed = texts(cfg.origins@).to_set();
    match cfg.policy {
        CorsPolicyKind::Wildcard => ModeView::Wildcard,
        CorsPolicyKind::Reflect => if cfg.origins@.len() == 0 && cfg.allow_any_origin {
            ModeView::Reflect(None)
        } else {
            ModeView::Reflect(Some(listed))
        },
        CorsPolicyKind::Explicit => ModeView::Explicit(listed),
    }
}

/// A header value that can be read as text.
pub open spec fn readable(value: Option<Seq<u8>>) -> Option<Seq<u8>> {
    match value {
        Some(v) => if visible(v) {
            Some(v)
        } else {
            None
        },
        None => None,
    }
}

/// `value`, where it is the text of a member of `set`.
pub open spec fn gated(value: Option<Seq<u8>>, set: Set<Seq<char>>) -> Option<Seq<u8>> {
    match readable(value) {
        Some(v) => if set.contains(ascii_text(v)) {
            Some(v)
        } else {
            None
        },
        None => None,
    }
}

impl CorsPolicyView {
    /// The policy that `cfg` describes.
    pub open spec fn of(cfg: CorsConfig) -> CorsPolicyView {
        CorsPolicyView {
            mode: mode_of(cfg),
            allowed_methods: token_list(texts(cfg.allowed_methods@)),
            allowed_headers: token_list(texts(cfg.allowed_headers@)),
            exposed_headers: token_list(texts(cfg.exposed_headers@)),
            max_age_value: Some(encode_utf8(dec(cfg.max_age.spec_secs()))),
            allow_credentials: cfg.allow_credentials,
            allow_private_network: cfg.allow_private_network,
        }
    }

    /// The value of `access-control-allow-origin` for a request with `origin`,
    /// or none where the origin is not let in. With credentials the wildcard
    /// gives way to the origin itself, since browsers reject the two together.
    pub open spec fn allow_origin(self, origin: Option<Seq<u8>>) -> Option<Seq<u8>> {
        match self.mode {
            ModeView::Wildcard => if self.allow_credentials {
                readable(origin)
            } else {
                Some(encode_utf8("*"@))
            },
            ModeView::Reflect(None) => readable(origin),
            ModeView::Reflect(Some(set)) => gated(origin, set),
            ModeView::Explicit(set) => gated(origin, set),
        }
    }
}

/// Whether a comma-separated text names `token`, in any case.
pub open spec fn lists_token(text: Seq<char>, token: Seq<char>) -> bool {
    exists|i: int|
        0 <= i < split(text, ',').len() && lower(trim(#[trigger] split(text, ',')[i])) == lower(token)
}

/// Headers `h` with `token` among those that `vary` names. A `vary` header
/// that cannot be read as text is left alone.
pub open spec fn with_vary(h: Map<Seq<char>, Seq<Seq<u8>>>, token: Seq<char>) -> Map<
    Seq<char>,
    Seq<Seq<u8>>,
> {
    match first(h, "vary"@) {
        None => put(h, "vary"@, encode_utf8(token)),
        Some(v) => if !visible(v) || lists_token(ascii_text(v), token) {
            h
        } else {
            put(h, "vary"@, encode_utf8(ascii_text(v) + ", "@ + token))
        },
    }
}

/// `h` with `value` under `name`, where there is a value.
pub open spec fn put_opt(
    h: Map<Seq<char>, Seq<Seq<u8>>>,
    name: Seq<char>,
    value: Option<Seq<u8>>,
) -> Map<Seq<char>, Seq<Seq<u8>>> {
    match value {
        Some(v) => put(h, name, v),
        None => h,
    }
}

/// Response headers `h` with what every response to a request with headers
/// `req` carries: the allowed origin, the credentials flag, and `vary`. Where
/// the origin is not let in, `vary` alone.
pub open spec fn with_cors(
    h: Map<Seq<char>, Seq<Seq<u8>>>,
    req: Map<Seq<char>, Seq<Seq<u8>>>,
    policy: CorsPolicyView,
) -> Map<Seq<char>, Seq<Seq<u8>>> {
    match policy.allow_origin(first(req, "origin"@)) {
        None => with_vary(h, "origin"@),
        Some(origin) => {
            let named = put(h, "access-control-allow-origin"@, origin);
            let flagged = if policy.allow_credentials {
                put(named, "access-control-allow-credentials"@, encode_utf8("true"@))
            } else {
                named
            };
            with_vary(flagged, "origin"@)
        },
    }
}

/// The response headers of the CORS protocol.
pub open spec fn cors_headers() -> Seq<&'static str> {
    seq![
        "access-control-allow-origin",
        "access-control-allow-credentials",
        "access-control-expose-headers",
        "access-control-allow-methods",
        "access-control-allow-headers",
        "access-control-max-age",
        "access-control-allow-private-network",
    ]
}

/// Response headers `h` of a real response to a request with headers `req`.
/// What the upstream says of CORS is dropped; what the policy says takes its
/// place.
pub open spec fn with_response_cors(
    h: Map<Seq<char>, Seq<Seq<u8>>>,
    req: Map<Seq<char>, Seq<Seq<u8>>>,
    policy: CorsPolicyView,
) -> Map<Seq<char>, Seq<Seq<u8>>> {
    put_opt(
        with_cors(without(h, views(cors_headers())), req, policy),
        "access-control-expose-headers"@,
        policy.exposed_headers,
    )
}

/// The first of two values that is there.
pub open spec fn either(a: Option<Seq<u8>>, b: Option<Seq<u8>>) -> Option<Seq<u8>> {
    match a {
        Some(v) => Some(v),
        None => b,
    }
}

/// The headers of the answer to a preflight with headers `req`. Where the
/// policy lists no methods or headers, those that are asked for are echoed.
pub open spec fn preflight_headers(
    req: Map<Seq<char>, Seq<Seq<u8>>>,
    policy: CorsPolicyView,
) -> Map<Seq<char>, Seq<Seq<u8>>> {
    let base = with_cors(no_headers(), req, policy);
    let methods = put_opt(
        base,
        "access-control-allow-methods"@,
        either(policy.allowed_methods, first(req, "access-control-request-method"@)),
    );
    let headers = put_opt(
        methods,
        "access-control-allow-headers"@,
        either(policy.allowed_headers, first(req, "access-control-request-headers"@)),
    );
    let aged = put_opt(headers, "access-control-max-age"@, policy.max_age_value);
    let private = if policy.allow_private_network && req.dom().contains(
        "access-control-request-private-network"@,
    ) {
        put(aged, "access-control-allow-private-network"@, encode_utf8("true"@))
    } else {
        aged
    };
    with_vary(
        with_vary(private, "access-control-request-method"@),
        "access-control-request-headers"@,
    )
}

/// The header names of the protocol are in lower case.
proof fn lemma_names()
    ensures
        canonical_name("origin"@),
        canonical_name("vary"@),
        canonical_name("access-control-allow-origin"@),
        canonical_name("access-control-allow-credentials"@),
        canonical_name("access-control-allow-methods"@),
        canonical_name("access-control-allow-headers"@),
        canonical_name("access-control-max-age"@),
        canonical_name("access-control-expose-headers"@),
        canonical_name("access-control-request-method"@),
        canonical_name("access-control-request-headers"@),
        canonical_name("access-control-request-private-network"@),
        canonical_name("access-control-allow-private-network"@),
{
    reveal_strlit("origin");
    reveal_strlit("vary");
    reveal_strlit("access-control-allow-origin");
    reveal_strlit("access-control-allow-credentials");
    reveal_strlit("access-control-allow-methods");
    reveal_strlit("access-control-allow-headers");
    reveal_strlit("access-control-max-age");
    reveal_strlit("access-control-expose-headers");
    reveal_strlit("access-control-request-method");
    reveal_strlit("access-control-request-headers");
    reveal_strlit("access-control-request-private-network");
    reveal_strlit("access-control-allow-private-network");
    assert(lower("origin"@) =~= "origin"@);
    assert(lower("vary"@) =~= "vary"@);
    assert(lower("access-control-allow-origin"@) =~= "access-control-allow-origin"@);
    assert(lower("access-control-allow-credentials"@) =~= "access-control-allow-credentials"@);
    assert(lower("access-control-allow-methods"@) =~= "access-control-allow-methods"@);
    assert(lower("access-control-allow-headers"@) =~= "access-control-allow-headers"@);
    assert(lower("access-control-max-age"@) =~= "access-control-max-age"@);
    assert(lower("access-control-expose-headers"@) =~= "access-control-expose-headers"@);
    assert(lower("access-control-request-method"@) =~= "access-control-request-method"@);
    assert(lower("access-control-request-headers"@) =~= "access-control-request-headers"@);
    assert(lower("access-control-request-private-network"@)
        =~= "access-control-request-private-network"@);
    assert(lower("access-control-allow-private-network"@)
        =~= "access-control-allow-private-network"@);
}

/// The fixed texts are printable.
proof fn lemma_fixed_texts()
    ensures
        plain_ascii("*"@),
        plain_ascii("true"@),
        plain_ascii("origin"@),
        plain_ascii(", "@),
        plain_ascii("access-control-request-method"@),
        plain_ascii("access-control-request-headers"@),
{
    reveal_strlit("*");
    reveal_strlit("true");
    reveal_strlit("origin");
    reveal_strlit(", ");
    reveal_strlit("access-control-request-method");
    reveal_strlit("access-control-request-headers");
}

/// The header value of a printable text.
fn text_value(text: &str) -> (r: Vec<u8>)
    requires
        plain_ascii(text@),
    ensures
        r@ == encode_utf8(text@),
        valid_value(r@),
{
    proof {
        lemma_plain_value(text@);
    }
    match value_from_str(text) {
        Some(value) => value,
        None => Vec::new(),
    }
}

/// Whether a comma-separated text names `token`, in any case.
fn names_token(text: &str, token: &str) -> (r: bool)
    ensures
        r == lists_token(text@, token@),
{
    let pieces = split_text(text, ',');
    let mut i: usize = 0;
    while i < pieces.len()
        invariant
            i <= pieces@.len(),
            texts(pieces@) == split(text@, ','),
            forall|k: int|
                0 <= k < i ==> lower(trim(#[trigger] split(text@, ',')[k])) != lower(token@),
        decreases pieces@.len() - i,
    {
        assert(texts(pieces@)[i as int] == pieces@[i as int]@);
        let piece = trimmed(pieces[i].as_str());
        if eq_ignore_ascii_case(piece.as_str(), token) {
            return true;
        }
        i += 1;
    }
    assert(texts(pieces@).len() == pieces@.len());
    false
}

/// Adds `value` to the names in `vary`.
pub fn append_vary(headers: &mut http::HeaderMap, value: &'static str)
    requires
        plain_ascii(value@),
        has_room(*old(headers), 1),
    ensures
        header_contents(*final(headers)) == with_vary(header_contents(*old(headers)), value@),
{
    proof {
        lemma_names();
        lemma_fixed_texts();
    }
    match get_value(headers, "vary") {
        Some(existing) => {
            let text = match value_to_str(&existing) {
                Some(text) => text,
                None => {
                    return ;
                },
            };
            if names_token(text.as_str(), value) {
                return ;
            }
            proof {
                lemma_visible_value(existing@);
            }
            let combined = concat3(text.as_str(), ", ", value);
            let new_value = text_value(combined.as_str());
            set_value(headers, "vary", &new_value);
        },
        None => {
            let new_value = text_value(value);
            set_value(headers, "vary", &new_value);
        },
    }
}

/// `with_vary` takes the room of at most one name.
proof fn lemma_vary_room(
    before: http::HeaderMap<http::HeaderValue>,
    after: http::HeaderMap<http::HeaderValue>,
    token: Seq<char>,
    n: int,
)
    requires
        has_room(before, n),
        header_contents(after) == with_vary(header_contents(before), token),
    ensures
        has_room(after, n - 1),
{
    match first(header_contents(before), "vary"@) {
        None => {
            lemma_put_room(before, after, "vary"@, encode_utf8(token), n);
        },
        Some(v) => {
            if visible(v) && !lists_token(ascii_text(v), token) {
                lemma_put_room(
                    before,
                    after,
                    "vary"@,
                    encode_utf8(ascii_text(v) + ", "@ + token),
                    n,
                );
            }
        },
    }
}

/// The value of a header that lists `values`.
pub fn encode_token_list(values: &Vec<String>) -> (r: Option<Vec<u8>>)
    ensures
        opt_bytes(r) == token_list(texts(values@)),
{
    if values.len() == 0 {
        return None;
    }
    let joined = join_texts(values, ", ");
    value_from_str(joined.as_str())
}

/// The value of `access-control-max-age`: the whole seconds of the duration.
pub fn encode_max_age(duration: Duration) -> (r: Option<Vec<u8>>)
    ensures
        opt_bytes(r) == Some(encode_utf8(dec(duration.spec_secs()))),
        opt_valid(opt_bytes(r)),
{
    let secs: u64 = duration.as_secs();
    proof {
        lemma_dec_plain(secs as nat);
    }
    let shown = decimal(secs);
    Some(text_value(shown.as_str()))
}

impl CorsPolicy {
    #[verifier::type_invariant]
    spec fn inv(self) -> bool {
        &&& opt_valid(opt_bytes(self.allowed_methods))
        &&& opt_valid(opt_bytes(self.allowed_headers))
        &&& opt_valid(opt_bytes(self.exposed_headers))
        &&& opt_valid(opt_bytes(self.max_age_value))
    }

    /// Compiles the policy that `cfg` describes.
    pub fn from_config(cfg: &CorsConfig) -> (r: CorsPolicy)
        ensures
            r@ == CorsPolicyView::of(*cfg),
    {
        let mode = match cfg.policy {
            CorsPolicyKind::Wildcard => PolicyMode::Wildcard,
            CorsPolicyKind::Reflect => {
                if cfg.origins.len() > 0 {
                    PolicyMode::Reflect(Some(to_origin_set(&cfg.origins)))
                } else if cfg.allow_any_origin {
                    PolicyMode::Reflect(None)
                } else {
                    PolicyMode::Reflect(Some(to_origin_set(&cfg.origins)))
                }
            },
            CorsPolicyKind::Explicit => PolicyMode::Explicit(to_origin_set(&cfg.origins)),
        };
        CorsPolicy {
            mode,
            allowed_methods: encode_token_list(&cfg.allowed_methods),
            allowed_headers: encode_token_list(&cfg.allowed_headers),
            exposed_headers: encode_token_list(&cfg.exposed_headers),
            max_age_value: encode_max_age(cfg.max_age),
            allow_credentials: cfg.allow_credentials,
            allow_private_network: cfg.allow_private_network,
        }
    }

    /// Whether the policy allows credentials on cross-origin requests.
    pub fn allow_credentials(&self) -> (r: bool)
        ensures
            r == self@.allow_credentials,
    {
        self.allow_credentials
    }

    /// The value of `access-control-allow-origin` for a request with the
    /// header value `request_origin`, or `None` where it is not let in.
    pub fn resolve_allow_origin(&self, request_origin: Option<&Vec<u8>>) -> (r: Option<Vec<u8>>)
        requires
            request_origin matches Some(v) ==> valid_value(v@),
        ensures
            opt_bytes(r) == self@.allow_origin(
                match request_origin {
                    Some(v) => Some(v@),
                    None => None,
                },
            ),
            opt_valid(opt_bytes(r)),
    {
        if let PolicyMode::Wildcard = &self.mode {
            if !self.allow_credentials {
                proof {
                    lemma_fixed_texts();
                }
                return Some(text_value("*"));
            }
        }
        let value = match request_origin {
            Some(value) => value,
            None => {
                return None;
            },
        };
        let origin = match value_to_str(value) {
            Some(origin) => origin,
            None => {
                return None;
            },
        };
        proof {
            lemma_visible_value(value@);
        }
        match &self.mode {
            PolicyMode::Wildcard => value_from_str(origin.as_str()),
            PolicyMode::Reflect(allow) => match allow {
                Some(set) => if set.contains(origin.as_str()) {
                    value_from_str(origin.as_str())
                } else {
                    None
                },
                None => value_from_str(origin.as_str()),
            },
            PolicyMode::Explicit(set) => if set.contains(origin.as_str()) {
                value_from_str(origin.as_str())
            } else {
                None
            },
        }
    }
}

/// Stamps what every response carries.
fn apply_cors_base(
    response_headers: &mut http::HeaderMap,
    request_headers: &http::HeaderMap,
    policy: &CorsPolicy,
)
    requires
        has_room(*old(response_headers), 3),
    ensures
        header_contents(*final(response_headers)) == with_cors(
            header_contents(*old(response_headers)),
            header_contents(*request_headers),
            policy@,
        ),
        has_room(*final(response_headers), room_left(*old(response_headers)) - 3),
{
    proof {
        lemma_names();
        lemma_fixed_texts();
    }
    let origin = get_value(request_headers, "origin");
    let allowed = policy.resolve_allow_origin(origin.as_ref());
    let ghost h0 = *response_headers;
    let ghost n = room_left(h0);
    let allow_origin = match allowed {
        Some(value) => value,
        None => {
            append_vary(response_headers, "origin");
            proof {
                lemma_vary_room(h0, *response_headers, "origin"@, n);
            }
            return ;
        },
    };
    set_value(response_headers, "access-control-allow-origin", &allow_origin);
    proof {
        lemma_put_room(
            h0,
            *response_headers,
            "access-control-allow-origin"@,
            allow_origin@,
            n,
        );
    }
    let ghost h1 = *response_headers;
    if policy.allow_credentials {
        let yes = text_value("true");
        set_value(response_headers, "access-control-allow-credentials", &yes);
        proof {
            lemma_put_room(
                h1,
                *response_headers,
                "access-control-allow-credentials"@,
                yes@,
                n - 1,
            );
        }
    }
    let ghost h2 = *response_headers;
    append_vary(response_headers, "origin");
    proof {
        lemma_vary_room(h2, *response_headers, "origin"@, n - 2);
    }
}

/// Puts `value` under `name`, where there is one.
fn set_optional(headers: &mut http::HeaderMap, name: &str, value: &Option<Vec<u8>>)
    requires
        canonical_name(name@),
        opt_valid(opt_bytes(*value)),
        has_room(*old(headers), 1),
    ensures
        header_contents(*final(headers)) == put_opt(
            header_contents(*old(headers)),
            name@,
            opt_bytes(*value),
        ),
        has_room(*final(headers), room_left(*old(headers)) - 1),
{
    let ghost before = *headers;
    if let Some(v) = value {
        set_value(headers, name, v);
        proof {
            lemma_put_room(before, *headers, name@, v@, room_left(before));
        }
    }
}

/// Builds the `204 No Content` answer to a preflight. The configured methods
/// and headers take precedence; the requested ones are echoed only where the
/// operator lists none.
pub fn build_preflight_response(req: &RequestHead, policy: &CorsPolicy) -> (r: ResponseHead)
    ensures
        r.status == 204,
        header_contents(r.headers) == preflight_headers(header_contents(req.headers), policy@),
{
    proof {
        use_type_invariant(policy);
        lemma_names();
        lemma_fixed_texts();
    }
    let mut headers = empty_headers();
    assert(no_headers().dom() =~= Set::<Seq<char>>::empty());
    apply_cors_base(&mut headers, &req.headers, policy);
    if policy.allowed_methods.is_some() {
        set_optional(&mut headers, "access-control-allow-methods", &policy.allowed_methods);
    } else {
        let asked = get_value(&req.headers, "access-control-request-method");
        set_optional(&mut headers, "access-control-allow-methods", &asked);
    }
    if policy.allowed_headers.is_some() {
        set_optional(&mut headers, "access-control-allow-headers", &policy.allowed_headers);
    } else {
        let asked = get_value(&req.headers, "access-control-request-headers");
        set_optional(&mut headers, "access-control-allow-headers", &asked);
    }
    set_optional(&mut headers, "access-control-max-age", &policy.max_age_value);
    if policy.allow_private_network && has_name(
        &req.headers,
        "access-control-request-private-network",
    ) {
        let yes = Some(text_value("true"));
        set_optional(&mut headers, "access-control-allow-private-network", &yes);
    }
    let ghost before = headers;
    append_vary(&mut headers, "access-control-request-method");
    proof {
        lemma_vary_room(before, headers, "access-control-request-method"@, room_left(before));
    }
    append_vary(&mut headers, "access-control-request-headers");
    ResponseHead { status: 204, headers }
}

/// The CORS headers are header names in lower case.
proof fn lemma_cors_headers()
    ensures
        all_canonical(views(cors_headers())),
{
    lemma_names();
    assert forall|i: int| 0 <= i < cors_headers().len() implies canonical_name(
        #[trigger] views(cors_headers())[i],
    ) by {
        let s = cors_headers()[i]@;
        assert(s == "access-control-allow-origin"@ || s == "access-control-allow-credentials"@ || s
            == "access-control-expose-headers"@ || s == "access-control-allow-methods"@ || s
            == "access-control-allow-headers"@ || s == "access-control-max-age"@ || s
            == "access-control-allow-private-network"@);
    }
}

/// Removes the CORS headers.
fn strip_cors(headers: &mut http::HeaderMap)
    ensures
        header_contents(*final(headers)) == without(
            header_contents(*old(headers)),
            views(cors_headers()),
        ),
        forall|n: int| has_room(*old(headers), n) ==> has_room(*final(headers), n),
{
    let names: Vec<&'static str> = vec![
        "access-control-allow-origin",
        "access-control-allow-credentials",
        "access-control-expose-headers",
        "access-control-allow-methods",
        "access-control-allow-headers",
        "access-control-max-age",
        "access-control-allow-private-network",
    ];
    let ghost h = header_contents(*headers);
    proof {
        lemma_cors_headers();
        assert(names@ =~= cors_headers());
    }
    remove_each(headers, &names);
    proof {
        if h.dom().finite() {
            vstd::set_lib::lemma_len_subset(header_contents(*headers).dom(), h.dom());
        }
    }
}

/// Applies the CORS headers to a real response. What the upstream sent of them
/// is dropped, and the values of the policy take its place.
pub fn apply_to_response(
    response: &mut ResponseHead,
    request_headers: &http::HeaderMap,
    policy: &CorsPolicy,
)
    requires
        has_room(old(response).headers, 4),
    ensures
        final(response).status == old(response).status,
        header_contents(final(response).headers) == with_response_cors(
            header_contents(old(response).headers),
            header_contents(*request_headers),
            policy@,
        ),
{
    proof {
        use_type_invariant(policy);
        lemma_names();
    }
    strip_cors(&mut response.headers);
    apply_cors_base(&mut response.headers, request_headers, policy);
    set_optional(&mut response.headers, "access-control-expose-headers", &policy.exposed_headers);
}

/// Applies the CORS headers to an error response made by the proxy, so that it
/// stays visible to the browser.
pub fn apply_to_error_response(
    response: &mut ResponseHead,
    request_headers: &http::HeaderMap,
    policy: &CorsPolicy,
)
    requires
        has_room(old(response).headers, 4),
    ensures
        final(response).status == old(response).status,
        header_contents(final(response).headers) == with_response_cors(
            header_contents(old(response).headers),
            header_contents(*request_headers),
            policy@,
        ),
{
    apply_to_response(response, request_headers, policy);
}

/// Whether a request with this method and these headers is a CORS preflight.
pub open spec fn preflight(method: MethodView, h: Map<Seq<char>, Seq<Seq<u8>>>) -> bool {
    method == MethodView::Options && h.dom().contains("origin"@) && h.dom().contains(
        "access-control-request-method"@,
    )
}

/// Whether the request is a CORS preflight: an `OPTIONS` request that names an
/// origin and the method it asks for.
pub fn is_preflight(request: &RequestHead) -> (r: bool)
    ensures
        r == preflight(request.method@, header_contents(request.headers)),
        r == (request.method@ == MethodView::Options && header_contents(
            request.headers,
        ).dom().contains("origin"@) && header_contents(request.headers).dom().contains(
            "access-control-request-method"@,
        )),
{
    proof {
        lemma_names();
    }
    let options = match &request.method {
        Method::Options => true,
        _ => false,
    };
    options && has_name(&request.headers, "origin") && has_name(
        &request.headers,
        "access-control-request-method",
    )
}

/// Whether `name` is among `names`, in any case.
pub open spec fn names_header(names: Seq<Seq<char>>, name: Seq<char>) -> bool {
    exists|i: int| 0 <= i < names.len() && lower(#[trigger] names[i]) == lower(name)
}

/// `names` with `name` at the end, where it is not among them.
pub open spec fn with_name(names: Seq<Seq<char>>, name: Seq<char>) -> Seq<Seq<char>> {
    if names_header(names, name) {
        names
    } else {
        names.push(name)
    }
}

/// The headers that scripts may read where the operator lists `names`: the
/// error status and the request identifier are always among them.
pub open spec fn exposed_with(names: Seq<Seq<char>>) -> Seq<Seq<char>> {
    with_name(with_name(names, "x-corx-status"@), "x-request-id"@)
}

/// Adds `name` to `names`, where it is not among them.
fn add_name(names: &mut Vec<String>, name: &str)
    ensures
        texts(final(names)@) == with_name(texts(old(names)@), name@),
{
    let ghost all = texts(names@);
    let mut i: usize = 0;
    while i < names.len()
        invariant
            i <= names@.len(),
            all == texts(names@),
            forall|k: int| 0 <= k < i ==> lower(#[trigger] all[k]) != lower(name@),
        decreases names@.len() - i,
    {
        assert(all[i as int] == names@[i as int]@);
        if eq_ignore_ascii_case(names[i].as_str(), name) {
            return ;
        }
        i += 1;
    }
    names.push(name.to_owned());
    assert(texts(names@) =~= all.push(name@));
}

/// The error status and the request identifier are always exposed, and so is
/// all that the operator lists.
pub proof fn law_always_exposed(names: Seq<Seq<char>>)
    ensures
        names_header(exposed_with(names), "x-corx-status"@),
        names_header(exposed_with(names), "x-request-id"@),
        names.is_prefix_of(exposed_with(names)),
{
    let first_added = with_name(names, "x-corx-status"@);
    let all = exposed_with(names);
    if !names_header(names, "x-corx-status"@) {
        assert(lower(first_added[names.len() as int]) == lower("x-corx-status"@));
    }
    assert(names_header(first_added, "x-corx-status"@));
    let k = choose|k: int|
        0 <= k < first_added.len() && lower(#[trigger] first_added[k]) == lower("x-corx-status"@);
    assert(all[k] == first_added[k]);
    if !names_header(first_added, "x-request-id"@) {
        assert(lower(all[first_added.len() as int]) == lower("x-request-id"@));
    }
}

/// Whether `made` is what the configuration file describes by `cfg`.
pub open spec fn made_from(made: CorsConfig, cfg: crate::config::cors::CorsConfig) -> bool {
    &&& made.policy == cfg.policy
    &&& texts(made.origins@) == (match cfg.policy {
        CorsPolicyKind::Wildcard => Seq::<Seq<char>>::empty(),
        CorsPolicyKind::Reflect => texts(cfg.allowlist@),
        CorsPolicyKind::Explicit => texts(cfg.explicit@),
    })
    &&& made.allow_any_origin == (cfg.policy == CorsPolicyKind::Reflect && cfg.allowlist@.len()
        == 0)
    &&& texts(made.allowed_methods@) == texts(cfg.allowed_methods@)
    &&& texts(made.allowed_headers@) == texts(cfg.allowed_headers@)
    &&& texts(made.exposed_headers@) == exposed_with(texts(cfg.exposed_headers@))
    &&& made.max_age == cfg.max_age
    &&& made.allow_credentials == cfg.allow_credentials
    &&& made.allow_private_network == cfg.allow_private_network
}

impl CorsConfig {
    /// What the configuration file describes: reflecting is gated by the allow
    /// list, where none listed means any origin; the explicit policy goes by
    /// its own list; the error status and the request identifier are exposed
    /// besides the headers that are listed.
    pub fn from_settings(cfg: &crate::config::cors::CorsConfig) -> (r: CorsConfig)
        ensures
            made_from(r, *cfg),
            r.policy == cfg.policy,
            texts(r.origins@) == (match cfg.policy {
                CorsPolicyKind::Wildcard => Seq::<Seq<char>>::empty(),
                CorsPolicyKind::Reflect => texts(cfg.allowlist@),
                CorsPolicyKind::Explicit => texts(cfg.explicit@),
            }),
            r.allow_any_origin == (cfg.policy == CorsPolicyKind::Reflect && cfg.allowlist@.len()
                == 0),
            texts(r.allowed_methods@) == texts(cfg.allowed_methods@),
            texts(r.allowed_headers@) == texts(cfg.allowed_headers@),
            texts(r.exposed_headers@) == exposed_with(texts(cfg.exposed_headers@)),
            r.max_age == cfg.max_age,
            r.allow_credentials == cfg.allow_credentials,
            r.allow_private_network == cfg.allow_private_network,
    {
        let origins: Vec<String> = match cfg.policy {
            CorsPolicyKind::Wildcard => Vec::new(),
            CorsPolicyKind::Reflect => copy_texts(&cfg.allowlist),
            CorsPolicyKind::Explicit => copy_texts(&cfg.explicit),
        };
        let any = match cfg.policy {
            CorsPolicyKind::Reflect => cfg.allowlist.len() == 0,
            _ => false,
        };
        assert(cfg.policy == CorsPolicyKind::Wildcard ==> texts(origins@) =~= Seq::<
            Seq<char>,
        >::empty());
        let mut exposed_headers = copy_texts(&cfg.exposed_headers);
        add_name(&mut exposed_headers, "x-corx-status");
        add_name(&mut exposed_headers, "x-request-id");
        CorsConfig {
            policy: cfg.policy,
            origins,
            allow_any_origin: any,
            allowed_methods: copy_texts(&cfg.allowed_methods),
            allowed_headers: copy_texts(&cfg.allowed_headers),
            exposed_headers,
            max_age: cfg.max_age,
            allow_credentials: cfg.allow_credentials,
            allow_private_network: cfg.allow_private_network,
        }
    }
}

/// With credentials, an origin that is let in is named, never covered by a
/// wildcard: browsers reject the two together.
pub proof fn law_credentials_name_the_origin(policy: CorsPolicyView, origin: Option<Seq<u8>>)
    requires
        policy.allow_credentials,
        policy.allow_origin(origin) is Some,
    ensures
        policy.allow_origin(origin) == origin,
{
}

/// A gated policy lets in only origins of its set, and names them.
pub proof fn law_only_listed_origins(
    policy: CorsPolicyView,
    set: Set<Seq<char>>,
    origin: Option<Seq<u8>>,
)
    requires
        policy.mode == ModeView::Reflect(Some(set)) || policy.mode == ModeView::Explicit(set),
        policy.allow_origin(origin) is Some,
    ensures
        policy.allow_origin(origin) == origin,
        set.contains(ascii_text(origin->Some_0)),
{
}

/// Reflecting without listed origins lets no origin in, unless any origin is
/// asked for.
pub proof fn law_reflect_fails_closed(cfg: CorsConfig, origin: Option<Seq<u8>>)
    requires
        cfg.policy == CorsPolicyKind::Reflect,
        cfg.origins@.len() == 0,
        !cfg.allow_any_origin,
    ensures
        CorsPolicyView::of(cfg).allow_origin(origin) is None,
{
    assert(texts(cfg.origins@) =~= Seq::<Seq<char>>::empty());
    assert(texts(cfg.origins@).to_set() =~= Set::<Seq<char>>::empty());
}

/// A name fit for `vary`: printable, without commas, and without white space
/// at its ends.
pub open spec fn is_vary_token(token: Seq<char>) -> bool {
    &&& plain_ascii(token)
    &&& !token.contains(',')
    &&& token.len() > 0 ==> !is_white(token[0]) && !is_white(token.last())
}

/// A text with the token behind a comma lists the token.
proof fn lemma_lists_appended(text: Seq<char>, token: Seq<char>)
    requires
        is_vary_token(token),
    ensures
        lists_token(text + ", "@ + token, token),
{
    reveal_strlit(", ");
    let piece = seq![' '] + token;
    let whole = text + ", "@ + token;
    assert(whole =~= text + seq![','] + piece);
    assert forall|i: int| 0 <= i < piece.len() implies piece[i] != ',' by {
        if i > 0 {
            assert(piece[i] == token[i - 1]);
        }
    }
    lemma_split_append(text, piece, ',');
    let pieces = split(whole, ',');
    assert(pieces[pieces.len() - 1] == piece);
    assert(trim(piece) == token) by {
        assert(piece.drop_first() =~= token);
        reveal_with_fuel(trim_start, 2);
    }
}

/// A text that is the token lists the token.
proof fn lemma_lists_itself(token: Seq<char>)
    requires
        is_vary_token(token),
    ensures
        lists_token(token, token),
{
    lemma_split_single(token, ',');
    assert(split(token, ',')[0] == token);
    assert(trim(token) == token);
}

/// `with_vary` does what it is for: where `vary` can be read, it lists the
/// name afterwards.
pub proof fn law_vary_listed(h: Map<Seq<char>, Seq<Seq<u8>>>, token: Seq<char>)
    requires
        is_vary_token(token),
        first(h, "vary"@) matches Some(v) ==> visible(v),
    ensures
        first(with_vary(h, token), "vary"@) matches Some(v) && visible(v) && lists_token(
            ascii_text(v),
            token,
        ),
{
    match first(h, "vary"@) {
        None => {
            lemma_plain_value(token);
            lemma_lists_itself(token);
        },
        Some(v) => {
            if !lists_token(ascii_text(v), token) {
                lemma_visible_value(v);
                reveal_strlit(", ");
                let combined = ascii_text(v) + ", "@ + token;
                assert(plain_ascii(combined));
                lemma_plain_value(combined);
                lemma_lists_appended(ascii_text(v), token);
            }
        },
    }
}

/// Adding a name to `vary` twice is adding it once.
pub proof fn law_vary_idempotent(h: Map<Seq<char>, Seq<Seq<u8>>>, token: Seq<char>)
    requires
        is_vary_token(token),
    ensures
        with_vary(with_vary(h, token), token) == with_vary(h, token),
{
    if first(h, "vary"@) matches Some(v) && !visible(v) {
    } else {
        law_vary_listed(h, token);
    }
}

/// The names of the protocol are fit for `vary` and are different names.
pub(crate) proof fn lemma_protocol_names()
    ensures
        is_vary_token("origin"@),
        forall|i: int| 0 <= i < cors_headers().len() ==> #[trigger] cors_headers()[i]@ != "vary"@,
        "access-control-allow-origin"@ != "access-control-allow-credentials"@,
        "access-control-allow-origin"@ != "access-control-expose-headers"@,
        "access-control-allow-credentials"@ != "access-control-expose-headers"@,
        views(cors_headers()).no_duplicates(),
        !views(cors_headers()).contains("vary"@),
{
    reveal_strlit("origin");
    reveal_strlit("vary");
    reveal_strlit("access-control-allow-origin");
    reveal_strlit("access-control-allow-credentials");
    reveal_strlit("access-control-expose-headers");
    reveal_strlit("access-control-allow-methods");
    reveal_strlit("access-control-allow-headers");
    reveal_strlit("access-control-max-age");
    reveal_strlit("access-control-allow-private-network");
    assert("vary"@.len() == 4);
    assert("access-control-allow-origin"@.len() == 27);
    assert("access-control-allow-credentials"@.len() == 32);
    assert("access-control-expose-headers"@.len() == 29);
    assert("access-control-allow-methods"@.len() == 28);
    assert("access-control-allow-methods"@[21] == 'm');
    assert("access-control-allow-headers"@.len() == 28);
    assert("access-control-allow-headers"@[21] == 'h');
    assert("access-control-max-age"@.len() == 22);
    assert("access-control-allow-private-network"@.len() == 36);
}

/// Whatever the upstream sent, a real response says of CORS what the policy
/// says, and nothing else: the one origin that is let in, or none; the
/// credentials flag exactly where an origin is let in with credentials; the
/// exposed headers, or none; and nothing that belongs to preflights.
pub proof fn law_policy_replaces_upstream(
    h: Map<Seq<char>, Seq<Seq<u8>>>,
    req: Map<Seq<char>, Seq<Seq<u8>>>,
    policy: CorsPolicyView,
)
    ensures
        ({
            let out = with_response_cors(h, req, policy);
            let origin = policy.allow_origin(first(req, "origin"@));
            &&& under(out, "access-control-allow-origin"@) == one_or_none(origin)
            &&& under(out, "access-control-allow-credentials"@) == one_or_none(
                if origin is Some && policy.allow_credentials {
                    Some(encode_utf8("true"@))
                } else {
                    None
                },
            )
            &&& under(out, "access-control-expose-headers"@) == one_or_none(policy.exposed_headers)
            &&& !out.dom().contains("access-control-allow-methods"@)
            &&& !out.dom().contains("access-control-allow-headers"@)
            &&& !out.dom().contains("access-control-max-age"@)
            &&& !out.dom().contains("access-control-allow-private-network"@)
        }),
{
    lemma_protocol_names();
    let names = views(cors_headers());
    assert(names[0] == "access-control-allow-origin"@);
    assert(names[1] == "access-control-allow-credentials"@);
    assert(names[2] == "access-control-expose-headers"@);
    assert(names[3] == "access-control-allow-methods"@);
    assert(names[4] == "access-control-allow-headers"@);
    assert(names[5] == "access-control-max-age"@);
    assert(names[6] == "access-control-allow-private-network"@);
    assert forall|i: int| 0 <= i < names.len() implies !without(h, names).dom().contains(
        #[trigger] names[i],
    ) && names[i] != "vary"@ by {}
}

/// The values of a header that has `value` as its one value, or is missing.
pub open spec fn one_or_none(value: Option<Seq<u8>>) -> Seq<Seq<u8>> {
    match value {
        Some(v) => seq![v],
        None => Seq::empty(),
    }
}

/// Nothing but the headers of the protocol is touched on a real response.
pub proof fn law_other_headers_untouched(
    h: Map<Seq<char>, Seq<Seq<u8>>>,
    req: Map<Seq<char>, Seq<Seq<u8>>>,
    policy: CorsPolicyView,
    name: Seq<char>,
)
    requires
        name != "vary"@,
        !views(cors_headers()).contains(name),
    ensures
        with_response_cors(h, req, policy).dom().contains(name) <==> h.dom().contains(name),
        h.dom().contains(name) ==> with_response_cors(h, req, policy)[name] == h[name],
{
    let names = views(cors_headers());
    assert(names[0] == "access-control-allow-origin"@);
    assert(names[1] == "access-control-allow-credentials"@);
    assert(names[2] == "access-control-expose-headers"@);
}

/// Every real response says that it varies by origin, unless its `vary` header
/// cannot be read as text: a cache never serves one caller's answer to another.
pub proof fn law_response_varies_by_origin(
    h: Map<Seq<char>, Seq<Seq<u8>>>,
    req: Map<Seq<char>, Seq<Seq<u8>>>,
    policy: CorsPolicyView,
)
    requires
        first(h, "vary"@) matches Some(v) ==> visible(v),
    ensures
        first(with_response_cors(h, req, policy), "vary"@) matches Some(v) && visible(v)
            && lists_token(ascii_text(v), "origin"@),
{
    lemma_protocol_names();
    let bare = without(h, views(cors_headers()));
    assert(first(bare, "vary"@) == first(h, "vary"@));
    assert(cors_headers()[0]@ != "vary"@ && cors_headers()[1]@ != "vary"@ && cors_headers()[2]@
        != "vary"@);
    match policy.allow_origin(first(req, "origin"@)) {
        None => {
            law_vary_listed(bare, "origin"@);
        },
        Some(origin) => {
            let named = put(bare, "access-control-allow-origin"@, origin);
            let flagged = if policy.allow_credentials {
                put(named, "access-control-allow-credentials"@, encode_utf8("true"@))
            } else {
                named
            };
            law_vary_listed(flagged, "origin"@);
        },
    }
}

/// The names that a preflight answer may hold are different names.
pub(crate) proof fn lemma_preflight_names()
    ensures
        ({
            let names = seq![
                "vary"@,
                "access-control-allow-origin"@,
                "access-control-allow-credentials"@,
                "access-control-allow-methods"@,
                "access-control-allow-headers"@,
                "access-control-max-age"@,
                "access-control-allow-private-network"@,
            ];
            names.no_duplicates()
        }),
{
    reveal_strlit("vary");
    reveal_strlit("access-control-allow-origin");
    reveal_strlit("access-control-allow-credentials");
    reveal_strlit("access-control-allow-methods");
    reveal_strlit("access-control-allow-headers");
    reveal_strlit("access-control-max-age");
    reveal_strlit("access-control-allow-private-network");
    assert("vary"@.len() == 4);
    assert("access-control-allow-origin"@.len() == 27);
    assert("access-control-allow-credentials"@.len() == 32);
    assert("access-control-allow-methods"@.len() == 28);
    assert("access-control-allow-methods"@[21] == 'm');
    assert("access-control-allow-headers"@.len() == 28);
    assert("access-control-allow-headers"@[21] == 'h');
    assert("access-control-max-age"@.len() == 22);
    assert("access-control-allow-private-network"@.len() == 36);
}

/// A preflight answer says what the policy says: the origin that is let in,
/// the listed methods and headers or else those asked for, how long it may be
/// cached, and the private network handshake exactly where it is switched on
/// and asked for.
pub proof fn law_preflight_says_the_policy(
    req: Map<Seq<char>, Seq<Seq<u8>>>,
    policy: CorsPolicyView,
)
    ensures
        ({
            let out = preflight_headers(req, policy);
            &&& first(out, "access-control-allow-origin"@) == policy.allow_origin(
                first(req, "origin"@),
            )
            &&& first(out, "access-control-allow-methods"@) == either(
                policy.allowed_methods,
                first(req, "access-control-request-method"@),
            )
            &&& first(out, "access-control-allow-headers"@) == either(
                policy.allowed_headers,
                first(req, "access-control-request-headers"@),
            )
            &&& first(out, "access-control-max-age"@) == policy.max_age_value
            &&& out.dom().contains("access-control-allow-private-network"@) <==> (
            policy.allow_private_network && req.dom().contains(
                "access-control-request-private-network"@,
            ))
        }),
{
    lemma_preflight_names();
    let names = seq![
        "vary"@,
        "access-control-allow-origin"@,
        "access-control-allow-credentials"@,
        "access-control-allow-methods"@,
        "access-control-allow-headers"@,
        "access-control-max-age"@,
        "access-control-allow-private-network"@,
    ];
    assert forall|i: int, j: int| 0 <= i < 7 && 0 <= j < 7 && i != j implies #[trigger] names[i]
        != #[trigger] names[j] by {}
    assert(names[0] == "vary"@ && names[1] == "access-control-allow-origin"@ && names[2]
        == "access-control-allow-credentials"@ && names[3] == "access-control-allow-methods"@
        && names[4] == "access-control-allow-headers"@ && names[5] == "access-control-max-age"@
        && names[6] == "access-control-allow-private-network"@);
}

} // verus!
