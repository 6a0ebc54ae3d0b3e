//! Extracts and validates the upstream target URL of an inbound request.
//!
//! Two address formats are accepted:
//!
//! * the path form, `GET /<target-url>`. The scheme may be left out; it is
//!   then `http`, or `https` where port `443` is given;
//! * the query form, `GET /?url=<target-url>`, percent-encoded.
//!
//! The text is percent-decoded, and the host is put in its ASCII form, so
//! that name resolution can handle it.

use vstd::prelude::*;
use vstd::utf8::is_ascii_chars;

use crate::error::{ErrorView, ProxyError};
use crate::text::{
    after_last, concat, concat3, dec, decimal, find, find_from, has_prefix, lemma_first_piece,
    lemma_split_nonempty,
    lower, matches_at, same_text, skip_leading, split, split_once, split_text, split_text_once,
    text_after_last, texts, to_ascii_lowercase, trim_start_matches,
};
use crate::uri::{
    build_uri, dns_name, host_to_ascii, idna_ascii, known_port, law_plain_text_decodes_to_itself,
    named_scheme, names_host, path_and_query, percent_decode, percent_decoded, plain_host,
    read_path_and_query, scheme_named, set_url_host, uri_build, url_parse, url_with_host, Uri,
    UriView, Url, UrlView,
};

verus! {

/// A validated target URL.
#[derive(Debug)]
pub struct TargetUrl {
    /// The URL, ready to be sent upstream.
    pub url: Url,
    /// The host in ASCII form. It is never empty in an extracted target.
    pub host: String,
    /// The port in effect: the explicit one, or that of the scheme.
    pub port: u16,
}

/// The mathematical content of a [`TargetUrl`].
pub struct TargetView {
    /// The URL.
    pub url: UrlView,
    /// The host in ASCII form.
    pub host: Seq<char>,
    /// The port in effect.
    pub port: u16,
}

impl View for TargetUrl {
    type V = TargetView;

    open spec fn view(&self) -> TargetView {
        TargetView { url: self.url@, host: self.host@, port: self.port }
    }
}

impl Clone for TargetUrl {
    fn clone(&self) -> (r: TargetUrl)
        ensures
            r@ == self@,
    {
        TargetUrl { url: self.url.clone(), host: self.host.clone(), port: self.port }
    }
}

/// The value of the first `key=value` pair among `pairs` from `i` on.
pub open spec fn value_from(pairs: Seq<Seq<char>>, key: Seq<char>, i: int) -> Option<Seq<char>>
    decreases pairs.len() - i,
{
    if i < 0 || i >= pairs.len() {
        None
    } else {
        match split_once(pairs[i], "="@) {
            Some((k, v)) => if k == key {
                Some(v)
            } else {
                value_from(pairs, key, i + 1)
            },
            None => value_from(pairs, key, i + 1),
        }
    }
}

/// The value of `key` in a query: that of the first pair with this key.
pub open spec fn query_value(query: Seq<char>, key: Seq<char>) -> Option<Seq<char>> {
    value_from(split(query, '&'), key, 0)
}

/// The text that a request gives as its target, still encoded: the value of
/// `url` in the query, or else the path without its leading slashes, together
/// with the query.
pub open spec fn candidate(uri: UriView) -> Result<Seq<char>, ErrorView> {
    let from_query = match uri.query {
        Some(query) => query_value(query, "url"@),
        None => None,
    };
    match from_query {
        Some(value) => Ok(value),
        None => {
            let rest = skip_leading(uri.path, '/');
            if rest.len() == 0 {
                Err(ErrorView::InvalidUrl("no target url supplied"@))
            } else {
                match uri.query {
                    Some(query) => Ok(rest + "?"@ + query),
                    None => Ok(rest),
                }
            }
        },
    }
}

/// The host part of a target without a scheme: what stands before its path, its
/// query and its fragment.
pub open spec fn host_part(raw: Seq<char>) -> Seq<char> {
    split(split(split(raw, '/')[0], '?')[0], '#')[0]
}

/// Whether the host part of `raw` ends in port 443.
pub open spec fn names_port_443(raw: Seq<char>) -> bool {
    after_last(host_part(raw), ':') == Some("443"@)
}

/// The scheme that `raw` names or implies.
pub open spec fn implied_scheme(raw: Seq<char>) -> Seq<char> {
    match named_scheme(raw) {
        Some(scheme) => lower(scheme),
        None => if names_port_443(raw) {
            "https"@
        } else {
            "http"@
        },
    }
}

/// Whether `scheme` is one that the proxy forwards.
pub open spec fn web_scheme(scheme: Seq<char>) -> bool {
    scheme == "http"@ || scheme == "https"@
}

/// `raw` with its scheme: as it stands where it names a web scheme, with the
/// implied one in front where it names none.
pub open spec fn normalized(raw: Seq<char>) -> Result<Seq<char>, ErrorView> {
    if named_scheme(raw) is Some {
        if web_scheme(implied_scheme(raw)) {
            Ok(raw)
        } else {
            Err(ErrorView::InvalidUrl("unsupported scheme `"@ + implied_scheme(raw) + "`"@))
        }
    } else {
        Ok(implied_scheme(raw) + "://"@ + raw)
    }
}

/// The host of a URL that may be forwarded to: the scheme is a web scheme, and
/// the host is there and not empty.
pub open spec fn forwardable_host(url: UrlView) -> Result<Seq<char>, ErrorView> {
    if !web_scheme(url.scheme) {
        Err(ErrorView::InvalidUrl("unsupported scheme `"@ + url.scheme + "`"@))
    } else {
        match url.host {
            None => Err(ErrorView::InvalidUrl("missing hostname"@)),
            Some(host) => if host.len() == 0 {
                Err(ErrorView::InvalidUrl("empty hostname"@))
            } else {
                Ok(host)
            },
        }
    }
}

/// What validating a URL gives: the target with its host in ASCII form and its
/// port, or the refusal.
pub open spec fn validated(url: UrlView) -> Result<TargetView, ErrorView> {
    match forwardable_host(url) {
        Err(err) => Err(err),
        Ok(host) => match idna_ascii(host) {
            Err(report) => Err(ErrorView::InvalidUrl("invalid IDN host: "@ + report)),
            Ok(ascii) => if ascii == host {
                with_port(url, ascii)
            } else {
                match url_with_host(url.source, ascii) {
                    Err(report) => Err(ErrorView::InvalidUrl("cannot set host: "@ + report)),
                    Ok(renamed) => with_port(renamed, ascii),
                }
            },
        },
    }
}

/// The port in effect of a URL: the explicit one, or that of its scheme.
pub open spec fn port_of(url: UrlView) -> Option<u16> {
    match url.port {
        Some(port) => Some(port),
        None => known_port(url.scheme),
    }
}

/// The target at `url` with the port in effect.
pub open spec fn with_port(url: UrlView, host: Seq<char>) -> Result<TargetView, ErrorView> {
    match port_of(url) {
        Some(port) => Ok(TargetView { url, host, port }),
        None => Err(ErrorView::InvalidUrl("unable to determine port for scheme"@)),
    }
}

/// What a request target leads to.
pub open spec fn extracted(uri: UriView) -> Result<TargetView, ErrorView> {
    match candidate(uri) {
        Err(err) => Err(err),
        Ok(encoded) => match percent_decoded(encoded) {
            None => Err(ErrorView::InvalidUrl("target contains invalid utf-8"@)),
            Some(raw) => match normalized(raw) {
                Err(err) => Err(err),
                Ok(text) => match url_parse(text) {
                    Err(report) => Err(ErrorView::InvalidUrl("url parse failed: "@ + report)),
                    Ok(url) => validated(url),
                },
            },
        },
    }
}

/// The view of a target, or of the refusal.
pub open spec fn target_outcome(r: Result<TargetUrl, ProxyError>) -> Result<TargetView, ErrorView> {
    match r {
        Ok(target) => Ok(target@),
        Err(err) => Err(err@),
    }
}

/// The view of a text, or of the refusal.
pub open spec fn text_or_error(r: Result<String, ProxyError>) -> Result<Seq<char>, ErrorView> {
    match r {
        Ok(text) => Ok(text@),
        Err(err) => Err(err@),
    }
}

/// The error for a malformed target: `what`, then `detail`.
fn invalid(what: &str, detail: &str) -> (r: ProxyError)
    ensures
        r@ == ErrorView::InvalidUrl(what@ + detail@),
{
    ProxyError::InvalidUrl(concat(what, detail))
}

/// The error for a scheme that is not forwarded.
fn unsupported(scheme: &str) -> (r: ProxyError)
    ensures
        r@ == ErrorView::InvalidUrl("unsupported scheme `"@ + scheme@ + "`"@),
{
    ProxyError::InvalidUrl(concat3("unsupported scheme `", scheme, "`"))
}

/// The value of the first pair of `query` whose key is `key`.
pub fn find_query_value(query: &str, key: &str) -> (r: Option<String>)
    ensures
        match r {
            Some(v) => query_value(query@, key@) == Some(v@),
            None => query_value(query@, key@) is None,
        },
{
    let pairs = split_text(query, '&');
    let mut i: usize = 0;
    while i < pairs.len()
        invariant
            i <= pairs@.len(),
            texts(pairs@) == split(query@, '&'),
            query_value(query@, key@) == value_from(split(query@, '&'), key@, i as int),
        decreases pairs@.len() - i,
    {
        assert(texts(pairs@)[i as int] == pairs@[i as int]@);
        if let Some((k, v)) = split_text_once(pairs[i].as_str(), "=") {
            if same_text(k.as_str(), key) {
                return Some(v);
            }
        }
        i += 1;
    }
    assert(texts(pairs@).len() == pairs@.len());
    None
}

/// The text that a request gives as its target.
pub fn candidate_from_uri(uri: &Uri) -> (r: Result<String, ProxyError>)
    ensures
        text_or_error(r) == candidate(uri@),
{
    if let Some(query) = &uri.query {
        if let Some(value) = find_query_value(query.as_str(), "url") {
            return Ok(value);
        }
    }
    let rest = trim_start_matches(uri.path.as_str(), '/');
    if rest.as_str().is_empty() {
        return Err(ProxyError::InvalidUrl("no target url supplied".to_owned()));
    }
    match &uri.query {
        Some(query) => Ok(concat3(rest.as_str(), "?", query.as_str())),
        None => Ok(rest),
    }
}

/// The scheme in front of a text without one is where it begins.
proof fn lemma_scheme_in_front(scheme: Seq<char>, raw: Seq<char>)
    requires
        web_scheme(scheme),
    ensures
        scheme == "http"@ ==> has_prefix(lower(scheme + "://"@ + raw), "http://"@),
        scheme == "https"@ ==> has_prefix(lower(scheme + "://"@ + raw), "https://"@),
{
    reveal_strlit("http");
    reveal_strlit("https");
    reveal_strlit("://");
    reveal_strlit("http://");
    reveal_strlit("https://");
    let text = lower(scheme + "://"@ + raw);
    if scheme == "http"@ {
        assert(text.take(7) =~= "http://"@);
    } else {
        assert(text.take(8) =~= "https://"@);
    }
}

/// Where `find` gives a position, the pattern stands there.
proof fn lemma_find_from(s: Seq<char>, pat: Seq<char>, i: int)
    ensures
        find_from(s, pat, i) matches Some(k) ==> matches_at(s, pat, k),
    decreases s.len() + 1 - i,
{
    if i >= 0 && i + pat.len() <= s.len() && !matches_at(s, pat, i) {
        lemma_find_from(s, pat, i + 1);
    }
}

/// A text that names a web scheme begins with it.
proof fn lemma_scheme_named(raw: Seq<char>)
    requires
        named_scheme(raw) is Some,
        web_scheme(implied_scheme(raw)),
    ensures
        implied_scheme(raw) == "http"@ ==> has_prefix(lower(raw), "http://"@),
        implied_scheme(raw) == "https"@ ==> has_prefix(lower(raw), "https://"@),
{
    reveal_strlit("http");
    reveal_strlit("https");
    reveal_strlit("://");
    reveal_strlit("http://");
    reveal_strlit("https://");
    lemma_find_from(raw, "://"@, 0);
    let k = find(raw, "://"@)->Some_0;
    assert(raw.subrange(k, k + 3) == "://"@);
    assert(lower(raw).subrange(k, k + 3) =~= "://"@) by {
        assert(raw[k] == raw.subrange(k, k + 3)[0]);
        assert(raw[k + 1] == raw.subrange(k, k + 3)[1]);
        assert(raw[k + 2] == raw.subrange(k, k + 3)[2]);
    }
    assert(lower(raw.take(k)) =~= lower(raw).take(k));
    let head = lower(raw).take(k);
    if implied_scheme(raw) == "http"@ {
        assert(k == 4);
        assert(lower(raw).take(7) =~= head + lower(raw).subrange(4, 7));
        assert(lower(raw).take(7) =~= "http://"@);
    } else {
        assert(k == 5);
        assert(lower(raw).take(8) =~= head + lower(raw).subrange(5, 8));
        assert(lower(raw).take(8) =~= "https://"@);
    }
}

/// The piece of `s` before the first `sep`, or all of it.
fn first_piece(s: &str, sep: char) -> (r: String)
    ensures
        r@ == split(s@, sep)[0],
{
    let mut pieces = split_text(s, sep);
    proof {
        lemma_split_nonempty(s@, sep);
        assert(texts(pieces@).len() == pieces@.len());
        assert(texts(pieces@)[0] == pieces@[0]@);
    }
    pieces.remove(0)
}

/// Gives a target text its scheme. One that is named must be a web scheme;
/// where none is, port 443 implies `https`, and `http` is implied otherwise.
pub fn normalize_scheme(raw: &str) -> (r: Result<String, ProxyError>)
    ensures
        text_or_error(r) == normalized(raw@),
        r matches Ok(text) ==> web_scheme(implied_scheme(raw@)) && (implied_scheme(raw@) == "http"@
            ==> has_prefix(lower(text@), "http://"@)) && (implied_scheme(raw@) == "https"@
            ==> has_prefix(lower(text@), "https://"@)),
{
    if let Some(named) = scheme_named(raw) {
        let scheme = to_ascii_lowercase(named.as_str());
        if !same_text(scheme.as_str(), "http") && !same_text(scheme.as_str(), "https") {
            return Err(unsupported(scheme.as_str()));
        }
        proof {
            lemma_scheme_named(raw@);
        }
        return Ok(raw.to_owned());
    }
    let path_cut = first_piece(raw, '/');
    let query_cut = first_piece(path_cut.as_str(), '?');
    let host = first_piece(query_cut.as_str(), '#');
    let is_443 = match text_after_last(host.as_str(), ':') {
        Some(port) => same_text(port.as_str(), "443"),
        None => false,
    };
    let scheme = if is_443 {
        "https"
    } else {
        "http"
    };
    proof {
        lemma_scheme_in_front(scheme@, raw@);
    }
    Ok(concat3(scheme, "://", raw))
}

/// The host of a URL that may be forwarded to.
pub fn check_url(url: &Url) -> (r: Result<String, ProxyError>)
    ensures
        text_or_error(r) == forwardable_host(url@),
{
    let scheme = url.scheme();
    if !same_text(scheme, "http") && !same_text(scheme, "https") {
        return Err(unsupported(scheme));
    }
    match &url.host {
        Some(host) => if host.as_str().is_empty() {
            Err(ProxyError::InvalidUrl("empty hostname".to_owned()))
        } else {
            Ok(host.clone())
        },
        None => Err(ProxyError::InvalidUrl("missing hostname".to_owned())),
    }
}

/// The target at `url`, whose host in ASCII form is `host`.
pub fn target_at(url: Url, host: String) -> (r: Result<TargetUrl, ProxyError>)
    ensures
        target_outcome(r) == with_port(url@, host@),
{
    match url.port_or_known_default() {
        Some(port) => Ok(TargetUrl { url, host, port }),
        None => Err(ProxyError::InvalidUrl("unable to determine port for scheme".to_owned())),
    }
}

/// Validates a URL: its scheme is a web scheme, it has a host, the host has an
/// ASCII form, and a port is known. A host of lower-case letters and dots is
/// its own ASCII form; that of any host in ASCII is the host in lower case. A
/// URL whose host is in ASCII and lower case comes out as it went in; any other
/// has its host set, to the name that is the host of the target.
pub fn validate(parsed: Url) -> (r: Result<TargetUrl, ProxyError>)
    ensures
        target_outcome(r) == validated(parsed@),
        url_parse(parsed@.source) == Ok::<UrlView, Seq<char>>(parsed@) ==> (r matches Ok(target)
            ==> target@.url.scheme == parsed@.scheme && web_scheme(parsed@.scheme)),
        forwardable_host(parsed@) matches Ok(host) ==> (plain_host(host) ==> target_outcome(r)
            == with_port(parsed@, host)),
        forwardable_host(parsed@) matches Ok(host) ==> (is_ascii_chars(host) ==> (r matches Ok(
            target,
        ) ==> target@.host == lower(host) && target@.host.len() > 0)),
        r matches Ok(target) ==> is_ascii_chars(target@.host) && port_of(target@.url) == Some(
            target@.port,
        ),
        names_host(parsed@.host) ==> (r matches Ok(target) ==> target@.url == parsed@ && Some(
            target@.host,
        ) == parsed@.host),
        url_parse(parsed@.source) == Ok::<UrlView, Seq<char>>(parsed@) ==> (r matches Ok(target)
            ==> (dns_name(target@.host) ==> target@.url.host == Some(target@.host))),
{
    let host = match check_url(&parsed) {
        Ok(host) => host,
        Err(err) => {
            return Err(err);
        },
    };
    let ascii_host = match host_to_ascii(host.as_str()) {
        Ok(ascii_host) => ascii_host,
        Err(report) => {
            return Err(invalid("invalid IDN host: ", report.as_str()));
        },
    };
    let url = if same_text(ascii_host.as_str(), host.as_str()) {
        parsed
    } else {
        match set_url_host(parsed.source.as_str(), ascii_host.as_str()) {
            Ok(url) => url,
            Err(report) => {
                return Err(invalid("cannot set host: ", report.as_str()));
            },
        }
    };
    target_at(url, ascii_host)
}

/// Extracts the target URL from the path or from the `url` query parameter.
///
/// The target has a web scheme: the one that its text names, or else the one
/// that its port implies. Its host is that of its URL, in ASCII and never
/// empty, and its port is that of its URL.
pub fn extract_target(uri: &Uri) -> (r: Result<TargetUrl, ProxyError>)
    ensures
        target_outcome(r) == extracted(uri@),
        r matches Ok(target) ==> web_scheme(target@.url.scheme) && target@.url.scheme
            == implied_scheme(percent_decoded(candidate(uri@)->Ok_0)->Some_0),
        candidate(uri@) matches Ok(text) ==> (!text.contains('%') ==> (r matches Ok(target)
            ==> target@.url.scheme == implied_scheme(text))),
        r matches Ok(target) ==> names_host(Some(target@.host)) && target@.url.host == Some(
            target@.host,
        ) && port_of(target@.url) == Some(target@.port),
{
    let encoded = match candidate_from_uri(uri) {
        Ok(encoded) => encoded,
        Err(err) => {
            return Err(err);
        },
    };
    let decoded = match percent_decode(encoded.as_str()) {
        Some(decoded) => decoded,
        None => {
            return Err(ProxyError::InvalidUrl("target contains invalid utf-8".to_owned()));
        },
    };
    proof {
        if !encoded@.contains('%') {
            law_plain_text_decodes_to_itself(encoded@);
        }
    }
    let text = match normalize_scheme(decoded.as_str()) {
        Ok(text) => text,
        Err(err) => {
            return Err(err);
        },
    };
    match Url::parse(text.as_str()) {
        Ok(parsed) => validate(parsed),
        Err(report) => Err(invalid("url parse failed: ", report.as_str())),
    }
}

/// A text in which a slash, a question mark or a hash stands before the first
/// `://` names no scheme: a URL in the path or in the query of a target is not
/// taken for its scheme, and the target has the scheme that its port implies.
pub proof fn law_scheme_stands_in_front(raw: Seq<char>, i: int)
    requires
        0 <= i < raw.len(),
        raw[i] == '/' || raw[i] == '?' || raw[i] == '#',
        find(raw, "://"@) matches Some(k) ==> i < k,
    ensures
        named_scheme(raw) is None,
        normalized(raw) == Ok::<Seq<char>, ErrorView>(implied_scheme(raw) + "://"@ + raw),
        web_scheme(implied_scheme(raw)),
{
    if let Some(k) = find(raw, "://"@) {
        lemma_find_from(raw, "://"@, 0);
        assert(raw.take(k)[i] == raw[i]);
    }
}

/// The first piece of a text keeps the characters in front that are no
/// separator.
pub(crate) proof fn lemma_piece_keeps(s: Seq<char>, sep: char, n: int)
    requires
        0 <= n <= s.len(),
        !s.take(n).contains(sep),
    ensures
        split(s, sep)[0].len() >= n,
        split(s, sep)[0].take(n) == s.take(n),
        n < s.len() && s[n] == sep ==> split(s, sep)[0].len() == n,
        split(s, sep)[0].len() > n ==> split(s, sep)[0][n] == s[n],
        split(s, sep)[0].len() > n ==> n < s.len(),
{
    lemma_first_piece(s, sep);
    let piece = split(s, sep)[0];
    if piece.len() < n {
        assert(s.take(n)[piece.len() as int] == sep);
    }
    assert(piece.take(n) =~= s.take(n));
    if n < s.len() && s[n] == sep && piece.len() > n {
        assert(piece[n] == sep);
    }
}

/// What stands behind the last colon, where nothing behind it is a colon.
proof fn lemma_after_last_colon(host: Seq<char>, port: Seq<char>)
    requires
        !port.contains(':'),
    ensures
        after_last(host + seq![':'] + port, ':') == Some(port),
    decreases port.len(),
{
    let whole = host + seq![':'] + port;
    if port.len() > 0 {
        let rest = port.drop_last();
        assert(port.last() != ':');
        assert forall|i: int| 0 <= i < rest.len() implies rest[i] != ':' by {
            assert(port[i] != ':');
        }
        lemma_after_last_colon(host, rest);
        assert(whole.drop_last() =~= host + seq![':'] + rest);
        assert(rest.push(port.last()) =~= port);
    } else {
        assert(port =~= Seq::<char>::empty());
    }
}

/// Port 443 implies `https` for a target without a scheme, whether a path, a
/// query, a fragment or nothing comes behind it.
pub proof fn law_port_443_implies_https(host: Seq<char>, rest: Seq<char>)
    requires
        !host.contains('/'),
        !host.contains('?'),
        !host.contains('#'),
        rest.len() > 0 ==> rest[0] == '/' || rest[0] == '?' || rest[0] == '#',
    ensures
        normalized(host + ":443"@ + rest) == Ok::<Seq<char>, ErrorView>(
            "https"@ + "://"@ + (host + ":443"@ + rest),
        ),
{
    reveal_strlit(":443");
    reveal_strlit("443");
    reveal_strlit("://");
    let named = host + ":443"@;
    let raw = named + rest;
    let n = named.len() as int;
    if let Some(k) = find(raw, "://"@) {
        lemma_find_from(raw, "://"@, 0);
        assert(raw.subrange(k, k + 3)[0] == ':' && raw.subrange(k, k + 3)[1] == '/');
        assert(raw[k] == ':' && raw[k + 1] == '/');
        if k < host.len() {
            if k + 1 < host.len() {
                assert(host[k + 1] == '/');
            }
            assert(false);
        }
        assert(k != host.len());
        assert(k > n);
        assert(raw.take(k)[n] == rest[0]);
    }
    assert(named_scheme(raw) is None);
    assert forall|i: int| 0 <= i < n implies named[i] != '/' && named[i] != '?' && named[i]
        != '#' by {
        if i < host.len() {
            assert(named[i] == host[i]);
        }
    }
    assert(raw.take(n) =~= named);
    let a = split(raw, '/')[0];
    lemma_piece_keeps(raw, '/', n);
    let b = split(a, '?')[0];
    lemma_piece_keeps(a, '?', n);
    let c = split(b, '#')[0];
    lemma_piece_keeps(b, '#', n);
    lemma_first_piece(raw, '/');
    assert(c.len() == n) by {
        if c.len() > n {
            assert(c[n] == b[n] && b[n] == a[n] && a[n] == raw[n] && raw[n] == rest[0]);
        }
    }
    assert(c =~= named);
    assert(named =~= host + seq![':'] + "443"@);
    assert forall|i: int| 0 <= i < 3 implies "443"@[i] != ':' by {}
    lemma_after_last_colon(host, "443"@);
}

/// The path of `url` with its query, where that is not empty.
pub open spec fn origin_form(url: UrlView) -> Seq<char> {
    match url.query {
        Some(query) => if query.len() > 0 {
            url.path + "?"@ + query
        } else {
            url.path
        },
        None => url.path,
    }
}

/// The host of a target, with the port where the URL gives one.
pub open spec fn authority_of(target: TargetView) -> Seq<char> {
    match target.url.port {
        Some(port) => target.host + ":"@ + dec(port as nat),
        None => target.host,
    }
}

/// The URI of the outbound request for a target: the scheme of its URL, its
/// host with the explicit port, its path and query.
pub open spec fn outbound_uri(target: TargetView) -> Result<UriView, ErrorView> {
    match path_and_query(origin_form(target.url)) {
        Err(report) => Err(ErrorView::InvalidUrl("invalid path/query: "@ + report)),
        Ok(form) => match uri_build(target.url.scheme, authority_of(target), form) {
            Err(report) => Err(ErrorView::InvalidUrl("uri build failed: "@ + report)),
            Ok(uri) => Ok(uri),
        },
    }
}

impl TargetUrl {
    /// The path of the target with its query, where that is not empty.
    pub fn origin_form(&self) -> (r: String)
        ensures
            r@ == origin_form(self@.url),
    {
        match &self.url.query {
            Some(query) => if query.as_str().is_empty() {
                self.url.path.clone()
            } else {
                concat3(self.url.path.as_str(), "?", query.as_str())
            },
            None => self.url.path.clone(),
        }
    }

    /// The host of the target, with the port where the URL gives one.
    pub fn authority(&self) -> (r: String)
        ensures
            r@ == authority_of(self@),
    {
        match self.url.port {
            Some(port) => {
                let shown = decimal(port as u64);
                concat3(self.host.as_str(), ":", shown.as_str())
            },
            None => self.host.clone(),
        }
    }

    /// Rebuilds the URI for the outbound request.
    pub fn to_uri(&self) -> (r: Result<Uri, ProxyError>)
        ensures
            match r {
                Ok(uri) => outbound_uri(self@) == Ok::<UriView, ErrorView>(uri@),
                Err(err) => outbound_uri(self@) == Err::<UriView, ErrorView>(err@),
            },
    {
        let form = self.origin_form();
        let form = match read_path_and_query(form.as_str()) {
            Ok(form) => form,
            Err(report) => {
                return Err(invalid("invalid path/query: ", report.as_str()));
            },
        };
        let authority = self.authority();
        match build_uri(self.url.scheme(), authority.as_str(), form.as_str()) {
            Ok(uri) => Ok(uri),
            Err(report) => Err(invalid("uri build failed: ", report.as_str())),
        }
    }
}

} // verus!
