//! Laws of target URLs.

use vstd::prelude::*;
use vstd::utf8::encode_utf8;

use crate::error::ErrorView;
use crate::laws::text::{
    law_after_last, law_decimal, law_lower_forgets_case, law_skip_leading, law_split_once, number,
    same_but_case, stands,
};
use crate::laws::uri::{delimits, law_no_scheme_behind_the_host, law_scheme_is_named};
use crate::proxy::url_parser::{
    authority_of, candidate, extracted, forwardable_host, host_part, lemma_piece_keeps, normalized, origin_form, outbound_uri, query_value, validated, value_from, with_port,
    TargetView,
};
use crate::text::{
    after_last, dec, lemma_split_concat, lemma_split_single, lower, split, split_once,
};
use crate::uri::{
    escaped, idna_ascii, known_port, law_decoding_undoes_escaping, law_plain_text_decodes_to_itself,
    path_and_query, percent_decoded, uri_build, url_parse, url_with_host, UriView,
    UrlView,
};

verus! {

/// Whether a query has a pair with this key: one in front, or one behind an
/// ampersand.
pub open spec fn names_key(query: Seq<char>, key: Seq<char>) -> bool {
    ||| stands(query, key + seq!['='], 0)
    ||| exists|j: int| #[trigger] stands(query, seq!['&'] + key + seq!['='], j)
}

/// Where a piece stands in the text that is split.
proof fn lemma_piece_position(s: Seq<char>, sep: char, i: int) -> (start: int)
    requires
        0 <= i < split(s, sep).len(),
    ensures
        0 <= start,
        start + split(s, sep)[i].len() <= s.len(),
        split(s, sep)[i] == s.subrange(start, start + split(s, sep)[i].len()),
        start == 0 || s[start - 1] == sep,
        i == split(s, sep).len() - 1 ==> start + split(s, sep)[i].len() == s.len(),
    decreases s.len(),
{
    if s.len() == 0 {
        assert(split(s, sep)[i] =~= s.subrange(0, 0));
        0
    } else {
        let rest = s.drop_last();
        let before = split(rest, sep);
        let n = split(s, sep).len();
        if s.last() == sep && i == n - 1 {
            assert(split(s, sep)[i] =~= s.subrange(s.len() as int, s.len() as int));
            s.len() as int
        } else {
            let start = lemma_piece_position(rest, sep, i);
            let piece = split(s, sep)[i];
            if s.last() != sep && i == n - 1 {
                assert(piece == before[i].push(s.last()));
                assert(piece =~= s.subrange(start, start + piece.len()));
            } else {
                assert(piece == before[i]);
                assert(piece =~= s.subrange(start, start + piece.len()));
            }
            start
        }
    }
}

proof fn lemma_value_from_concat(a: Seq<Seq<char>>, b: Seq<Seq<char>>, key: Seq<char>, i: int)
    requires
        0 <= i <= a.len(),
    ensures
        value_from(a + b, key, i) == match value_from(a, key, i) {
            Some(v) => Some(v),
            None => value_from(b, key, 0),
        },
    decreases a.len() - i,
{
    if i < a.len() {
        assert((a + b)[i] == a[i]);
        lemma_value_from_concat(a, b, key, i + 1);
    } else {
        lemma_value_from_shift(a, b, key, 0);
    }
}

proof fn lemma_value_from_shift(a: Seq<Seq<char>>, b: Seq<Seq<char>>, key: Seq<char>, j: int)
    requires
        0 <= j <= b.len(),
    ensures
        value_from(a + b, key, a.len() + j) == value_from(b, key, j),
    decreases b.len() - j,
{
    if j < b.len() {
        assert((a + b)[a.len() + j] == b[j]);
        lemma_value_from_shift(a, b, key, j + 1);
    }
}

/// A pair with the key begins with it.
proof fn lemma_pair_begins(pair: Seq<char>, key: Seq<char>)
    ensures
        split_once(pair, "="@) matches Some((k, _)) ==> (k == key ==> stands(
            pair,
            key + seq!['='],
            0,
        )),
{
    reveal_strlit("=");
    law_split_once(pair, "="@);
    if let Some((k, v)) = split_once(pair, "="@) {
        if k == key {
            let pat = key + seq!['='];
            assert forall|i: int| 0 <= i < pat.len() implies pair[0 + i] == #[trigger] pat[i] by {
                assert((k + "="@ + v)[i] == pat[i]);
            }
        }
    }
}

/// A pair that begins with the key has it, where the key holds no `=`.
proof fn lemma_pair_splits(key: Seq<char>, value: Seq<char>)
    requires
        !key.contains('='),
    ensures
        split_once(key + seq!['='] + value, "="@) == Some((key, value)),
{
    reveal_strlit("=");
    let pair = key + seq!['='] + value;
    law_split_once(pair, "="@);
    assert(stands(pair, "="@, key.len() as int));
    let (k, v) = split_once(pair, "="@)->Some_0;
    if k.len() < key.len() {
        assert(stands(pair, "="@, k.len() as int));
        assert("="@[0] == '=');
        assert(pair[k.len() as int] == '=');
        assert(key[k.len() as int] == '=');
    }
    assert(k.len() == key.len());
    assert forall|i: int| 0 <= i < k.len() implies k[i] == key[i] by {
        assert((k + "="@ + v)[i] == k[i]);
    }
    assert(k =~= key);
    assert forall|i: int| 0 <= i < v.len() implies v[i] == value[i] by {
        assert((k + "="@ + v)[k.len() + 1 + i] == v[i]);
        assert(pair[k.len() + 1 + i] == value[i]);
    }
    assert(v =~= value);
}

proof fn lemma_no_value_from(query: Seq<char>, key: Seq<char>, i: int)
    requires
        !names_key(query, key),
        0 <= i,
    ensures
        value_from(split(query, '&'), key, i) is None,
    decreases split(query, '&').len() - i,
{
    let pairs = split(query, '&');
    if i < pairs.len() {
        lemma_no_value_from(query, key, i + 1);
        lemma_pair_begins(pairs[i], key);
        let start = lemma_piece_position(query, '&', i);
        let pat = key + seq!['='];
        if stands(pairs[i], pat, 0) {
            assert forall|k: int| 0 <= k < pat.len() implies query[start + k] == #[trigger] pat[k] by {
                assert(pairs[i][0 + k] == pat[k]);
            }
            if start == 0 {
                assert(stands(query, pat, 0));
            } else {
                let long = seq!['&'] + key + seq!['='];
                assert forall|k: int| 0 <= k < long.len() implies query[start - 1 + k]
                    == #[trigger] long[k] by {
                    if k > 0 {
                        assert(long[k] == pat[k - 1]);
                    }
                }
                assert(stands(query, long, start - 1));
            }
            assert(false);
        }
    }
}

/// A query without a pair for the key has no value for it.
pub proof fn law_no_pair_no_value(query: Seq<char>, key: Seq<char>)
    requires
        !names_key(query, key),
    ensures
        query_value(query, key) is None,
{
    lemma_no_value_from(query, key, 0);
}

/// The value of a key is all that stands between its `=` and the next
/// ampersand, in the first pair that has the key, whatever comes before and
/// behind.
pub proof fn law_first_pair_counts(
    before: Seq<char>,
    key: Seq<char>,
    value: Seq<char>,
    behind: Seq<char>,
)
    requires
        !key.contains('='),
        !key.contains('&'),
        !value.contains('&'),
        !names_key(before, key),
    ensures
        query_value(key + seq!['='] + value, key) == Some(value),
        query_value(key + seq!['='] + value + seq!['&'] + behind, key) == Some(value),
        query_value(before + seq!['&'] + (key + seq!['='] + value), key) == Some(value),
        query_value(before + seq!['&'] + (key + seq!['='] + value) + seq!['&'] + behind, key)
            == Some(value),
{
    let pair = key + seq!['='] + value;
    assert forall|i: int| 0 <= i < pair.len() implies pair[i] != '&' by {
        if i < key.len() {
            assert(key[i] != '&');
        } else if i > key.len() {
            assert(value[i - key.len() - 1] != '&');
        }
    }
    lemma_split_single(pair, '&');
    lemma_pair_splits(key, value);
    let one = seq![pair];
    assert(value_from(one, key, 0) == Some(value));
    lemma_split_concat(pair, behind, '&');
    lemma_value_from_concat(one, split(behind, '&'), key, 0);
    lemma_no_value_from(before, key, 0);
    lemma_split_concat(before, pair, '&');
    lemma_value_from_concat(split(before, '&'), one, key, 0);
    let long = before + seq!['&'] + pair;
    lemma_split_concat(long, behind, '&');
    lemma_value_from_concat(split(long, '&'), split(behind, '&'), key, 0);
}

/// The path form: where the query has no pair for `url`, the target is the path
/// behind its leading slashes, with the whole query behind a question mark.
pub proof fn law_path_form(uri: UriView, slashes: nat, path: Seq<char>)
    requires
        uri.path == Seq::new(slashes, |i: int| '/') + path,
        path.len() > 0,
        path[0] != '/',
        uri.query matches Some(query) ==> !names_key(query, "url"@),
    ensures
        candidate(uri) == match uri.query {
            Some(query) => Ok::<Seq<char>, ErrorView>(path + seq!['?'] + query),
            None => Ok(path),
        },
{
    reveal_strlit("?");
    law_skip_leading(slashes, path, '/');
    if let Some(query) = uri.query {
        law_no_pair_no_value(query, "url"@);
        assert(path + "?"@ + query =~= path + seq!['?'] + query);
    }
}

/// A request that names no target at all is refused.
pub proof fn law_no_target(uri: UriView, slashes: nat)
    requires
        uri.path == Seq::new(slashes, |i: int| '/'),
        uri.query matches Some(query) ==> !names_key(query, "url"@),
    ensures
        candidate(uri) matches Err(err) && err is InvalidUrl,
        extracted(uri) matches Err(err) && err is InvalidUrl,
{
    law_skip_leading(slashes, Seq::empty(), '/');
    assert(uri.path + Seq::<char>::empty() =~= uri.path);
    if let Some(query) = uri.query {
        law_no_pair_no_value(query, "url"@);
    }
}

/// The query form: the value of the first `url` in the query is the target,
/// whatever the path is.
pub proof fn law_query_form(uri: UriView, before: Seq<char>, value: Seq<char>, behind: Seq<char>)
    requires
        !value.contains('&'),
        !names_key(before, "url"@),
        ({
            let pair = "url="@ + value;
            ||| uri.query == Some(pair)
            ||| uri.query == Some(pair + seq!['&'] + behind)
            ||| uri.query == Some(before + seq!['&'] + pair)
            ||| uri.query == Some(before + seq!['&'] + pair + seq!['&'] + behind)
        }),
    ensures
        candidate(uri) == Ok::<Seq<char>, ErrorView>(value),
{
    reveal_strlit("url");
    reveal_strlit("url=");
    assert("url="@ + value =~= "url"@ + seq!['='] + value);
    assert forall|i: int| 0 <= i < "url"@.len() implies "url"@[i] != '=' && "url"@[i] != '&' by {}
    law_first_pair_counts(before, "url"@, value, behind);
}

proof fn lemma_escaped_has_no_ampersand(bytes: Seq<u8>)
    ensures
        !escaped(bytes).contains('&'),
    decreases bytes.len(),
{
    if bytes.len() > 0 {
        let rest = bytes.skip(1);
        lemma_escaped_has_no_ampersand(rest);
        let text = escaped(bytes);
        assert forall|i: int| 0 <= i < text.len() implies text[i] != '&' by {
            if i >= 3 {
                assert(text[i] == escaped(rest)[i - 3]);
            }
        }
    }
}

/// The two forms agree: a target in the path, with its query, and the same text
/// escaped in the query lead to the same place.
pub proof fn law_forms_agree(by_path: UriView, by_query: UriView, slashes: nat, path: Seq<char>)
    requires
        by_path.path == Seq::new(slashes, |i: int| '/') + path,
        path.len() > 0,
        path[0] != '/',
        !path.contains('%'),
        by_path.query matches Some(query) ==> !query.contains('%') && !names_key(query, "url"@),
        by_query.query == Some(
            "url="@ + escaped(
                encode_utf8(
                    match by_path.query {
                        Some(query) => path + seq!['?'] + query,
                        None => path,
                    },
                ),
            ),
        ),
    ensures
        extracted(by_path) == extracted(by_query),
{
    law_path_form(by_path, slashes, path);
    let text = match by_path.query {
        Some(query) => path + seq!['?'] + query,
        None => path,
    };
    assert forall|i: int| 0 <= i < text.len() implies text[i] != '%' by {
        if i < path.len() {
            assert(path[i] != '%');
        } else if i > path.len() {
            assert(by_path.query->Some_0[i - path.len() - 1] != '%');
        }
    }
    law_plain_text_decodes_to_itself(text);
    law_decoding_undoes_escaping(text);
    lemma_escaped_has_no_ampersand(encode_utf8(text));
    reveal_strlit("url");
    let none = Seq::<char>::empty();
    assert(!names_key(none, "url"@));
    law_query_form(by_query, none, escaped(encode_utf8(text)), none);
}

/// A target that names a scheme: with a web scheme, in whatever case, it stays
/// as it is; with any other it is refused.
pub proof fn law_named_schemes(scheme: Seq<char>, rest: Seq<char>)
    requires
        forall|i: int| 0 <= i < scheme.len() ==> !delimits(#[trigger] scheme[i]),
    ensures
        same_but_case(scheme, "http"@) || same_but_case(scheme, "https"@) ==> normalized(
            scheme + "://"@ + rest,
        ) == Ok::<Seq<char>, ErrorView>(scheme + "://"@ + rest),
        !same_but_case(scheme, "http"@) && !same_but_case(scheme, "https"@) ==> (normalized(
            scheme + "://"@ + rest,
        ) matches Err(err) && err is InvalidUrl),
{
    reveal_strlit("http");
    reveal_strlit("https");
    law_scheme_is_named(scheme, rest);
    law_lower_forgets_case(scheme, "http"@);
    law_lower_forgets_case(scheme, "https"@);
    assert(lower("http"@) =~= "http"@);
    assert(lower("https"@) =~= "https"@);
}

/// A target that names no scheme gets `https` exactly where its host ends in
/// port 443, and `http` otherwise, whether a path, a query, a fragment or
/// nothing comes behind the host.
pub proof fn law_implied_schemes(host: Seq<char>, rest: Seq<char>)
    requires
        forall|i: int| 0 <= i < host.len() ==> !delimits(#[trigger] host[i]),
        rest.len() > 0 ==> delimits(rest[0]),
        host.len() > 0 && host.last() == ':' ==> !stands(rest, seq!['/', '/'], 0),
    ensures
        normalized(host + rest) == Ok::<Seq<char>, ErrorView>(
            if stands(host, ":443"@, host.len() - 4) {
                "https"@ + "://"@ + (host + rest)
            } else {
                "http"@ + "://"@ + (host + rest)
            },
        ),
{
    reveal_strlit(":443");
    reveal_strlit("443");
    reveal_strlit("://");
    let raw = host + rest;
    let n = host.len() as int;
    let scheme_mark = "://"@;
    assert(scheme_mark[0] == ':' && scheme_mark[1] == '/' && scheme_mark[2] == '/');
    assert forall|j: int| #[trigger] stands(raw, scheme_mark, j) implies exists|i: int|
        0 <= i < j && delimits(#[trigger] raw[i]) by {
        assert(raw[j + 0] == scheme_mark[0] && raw[j + 1] == scheme_mark[1] && raw[j + 2]
            == scheme_mark[2]);
        if j < n {
            if j + 1 < n {
                assert(delimits(host[j + 1]));
            } else {
                assert(rest[0] == '/' && rest[1] == '/');
                assert(stands(rest, seq!['/', '/'], 0));
            }
            assert(false);
        } else {
            assert(raw[n] == rest[0]);
            assert(j != n);
            assert(delimits(raw[n]));
        }
    }
    law_no_scheme_behind_the_host(raw);
    assert forall|i: int| 0 <= i < n implies host[i] != '/' && host[i] != '?' && host[i] != '#' by {
        assert(!delimits(host[i]));
    }
    assert(raw.take(n) =~= host);
    let a = split(raw, '/')[0];
    lemma_piece_keeps(raw, '/', n);
    let b = split(a, '?')[0];
    lemma_piece_keeps(a, '?', n);
    let c = split(b, '#')[0];
    lemma_piece_keeps(b, '#', n);
    assert(c.len() == n) by {
        if c.len() > n {
            assert(c[n] == b[n] && b[n] == a[n] && a[n] == raw[n] && raw[n] == rest[0]);
        }
    }
    assert(c =~= host);
    assert(host_part(raw) == host);
    law_after_last(host, ':');
    let end = after_last(host, ':');
    if stands(host, ":443"@, n - 4) {
        assert(host[n - 4 + 0] == ":443"@[0]);
        assert(host[n - 4 + 1] == ":443"@[1]);
        assert(host[n - 4 + 2] == ":443"@[2]);
        assert(host[n - 4 + 3] == ":443"@[3]);
        assert(host.contains(':'));
        let t = end->Some_0;
        if t.len() > 3 {
            assert(t[t.len() - 4] == host[n - 4]);
        } else if t.len() < 3 {
            assert(host[n - t.len() - 1] == ':');
        }
        assert(t.len() == 3);
        assert(t =~= "443"@);
    }
    if end == Some("443"@) {
        let t = end->Some_0;
        assert("443"@.len() == 3);
        assert(host.skip(n - 3) == t);
        assert(host[n - 3] == t[0] && host[n - 2] == t[1] && host[n - 1] == t[2]);
        assert(stands(host, ":443"@, n - 4));
    }
}

/// A target is made of a URL exactly where that has a web scheme and a host
/// with an ASCII form. The target has that form, and the explicit port or else
/// 80 for `http` and 443 for `https`; the URL is kept where its host is in that
/// form already, and has it set otherwise.
pub proof fn law_targets(url: UrlView)
    ensures
        url.scheme != "http"@ && url.scheme != "https"@ ==> validated(url) is Err,
        url.host is None ==> validated(url) is Err,
        url.host matches Some(host) ==> {
            &&& host.len() == 0 ==> validated(url) is Err
            &&& idna_ascii(host) is Err ==> validated(url) is Err
            &&& (url.scheme == "http"@ || url.scheme == "https"@) && host.len() > 0 ==> (idna_ascii(
                host,
            ) matches Ok(ascii) ==> {
                &&& ascii == host ==> validated(url) == Ok::<TargetView, ErrorView>(
                    TargetView {
                        url,
                        host: ascii,
                        port: match url.port {
                            Some(port) => port,
                            None => if url.scheme == "http"@ {
                                80
                            } else {
                                443
                            },
                        },
                    },
                )
                &&& ascii != host ==> match url_with_host(url.source, ascii) {
                    Err(_) => validated(url) is Err,
                    Ok(renamed) => {
                        &&& renamed.port matches Some(port) ==> validated(url) == Ok::<
                            TargetView,
                            ErrorView,
                        >(TargetView { url: renamed, host: ascii, port })
                        &&& renamed.port is None && renamed.scheme == "http"@ ==> validated(url)
                            == Ok::<TargetView, ErrorView>(
                            TargetView { url: renamed, host: ascii, port: 80 },
                        )
                        &&& renamed.port is None && renamed.scheme == "https"@ ==> validated(url)
                            == Ok::<TargetView, ErrorView>(
                            TargetView { url: renamed, host: ascii, port: 443 },
                        )
                    },
                }
            })
        },
        validated(url) matches Err(err) ==> err is InvalidUrl,
{
    reveal_strlit("http");
    reveal_strlit("https");
    reveal_strlit("ws");
    reveal_strlit("wss");
    reveal_strlit("ftp");
    assert("http"@.len() == 4 && "https"@.len() == 5 && "ws"@.len() == 2 && "wss"@.len() == 3
        && "ftp"@.len() == 3);
}

/// A URL may be forwarded to exactly where it has a web scheme and a host that
/// is not empty; the refusal tells which is missing.
pub proof fn law_forwardable(url: UrlView)
    ensures
        url.scheme != "http"@ && url.scheme != "https"@ ==> forwardable_host(url) == Err::<
            Seq<char>,
            ErrorView,
        >(ErrorView::InvalidUrl("unsupported scheme `"@ + url.scheme + "`"@)),
        url.scheme == "http"@ || url.scheme == "https"@ ==> match url.host {
            None => forwardable_host(url) == Err::<Seq<char>, ErrorView>(
                ErrorView::InvalidUrl("missing hostname"@),
            ),
            Some(host) => if host.len() == 0 {
                forwardable_host(url) == Err::<Seq<char>, ErrorView>(
                    ErrorView::InvalidUrl("empty hostname"@),
                )
            } else {
                forwardable_host(url) == Ok::<Seq<char>, ErrorView>(host)
            },
        },
{
}

/// A target has the explicit port of its URL, or else the one that its scheme
/// implies, and there is none where neither is known.
pub proof fn law_ports(url: UrlView, host: Seq<char>)
    ensures
        match (url.port, known_port(url.scheme)) {
            (Some(port), _) => with_port(url, host) == Ok::<TargetView, ErrorView>(
                TargetView { url, host, port },
            ),
            (None, Some(port)) => with_port(url, host) == Ok::<TargetView, ErrorView>(
                TargetView { url, host, port },
            ),
            (None, None) => with_port(url, host) matches Err(err) && err is InvalidUrl,
        },
{
}

/// What is extracted from a request is the URL that its target text denotes,
/// decoded and with its scheme, and validated; where one of these steps fails
/// nothing is.
pub proof fn law_extraction(uri: UriView)
    ensures
        extracted(uri) matches Ok(target) ==> {
            &&& candidate(uri) matches Ok(text)
            &&& percent_decoded(text) matches Some(raw)
            &&& normalized(raw) matches Ok(full)
            &&& url_parse(full) matches Ok(url)
            &&& validated(url) == Ok::<TargetView, ErrorView>(target)
        },
        candidate(uri) matches Ok(text) ==> (percent_decoded(text) matches Some(raw) ==> (normalized(
            raw,
        ) matches Ok(full) ==> (url_parse(full) matches Ok(url) ==> extracted(uri) == validated(
            url,
        )))),
        extracted(uri) matches Err(err) ==> err is InvalidUrl,
{
    if let Ok(text) = candidate(uri) {
        if let Some(raw) = percent_decoded(text) {
            if let Ok(full) = normalized(raw) {
                if let Ok(url) = url_parse(full) {
                    law_targets(url);
                }
            }
        }
    }
}

/// The outbound request keeps the scheme of the target, its host with the port
/// in decimal where the URL gives one, and its path with the query, which comes
/// behind a question mark where it is not empty.
pub proof fn law_outbound_request(target: TargetView)
    ensures
        origin_form(target.url) == match target.url.query {
            Some(query) => if query.len() == 0 {
                target.url.path
            } else {
                target.url.path + seq!['?'] + query
            },
            None => target.url.path,
        },
        target.url.port is None ==> authority_of(target) == target.host,
        target.url.port matches Some(port) ==> exists|digits: Seq<char>|
            authority_of(target) == target.host + seq![':'] + digits && #[trigger] number(digits, 10)
                == port,
        match path_and_query(origin_form(target.url)) {
            Ok(form) => match uri_build(target.url.scheme, authority_of(target), form) {
                Ok(uri) => outbound_uri(target) == Ok::<UriView, ErrorView>(uri),
                Err(_) => outbound_uri(target) matches Err(err) && err is InvalidUrl,
            },
            Err(_) => outbound_uri(target) matches Err(err) && err is InvalidUrl,
        },
{
    reveal_strlit("?");
    reveal_strlit(":");
    if let Some(query) = target.url.query {
        assert(target.url.path + "?"@ + query =~= target.url.path + seq!['?'] + query);
    }
    if let Some(port) = target.url.port {
        law_decimal(port as nat);
        assert(target.host + ":"@ + dec(port as nat) =~= target.host + seq![':'] + dec(
            port as nat,
        ));
        assert(number(dec(port as nat), 10) == port);
    }
}

} // verus!
