//! Request targets and URLs, read by the `http`, `url`, `idna` and
//! `percent-encoding` crates and kept here as their plain components.

use vstd::prelude::*;
use vstd::utf8::{
    char_is_scalar, char_u32_cast, decode_utf8, encode_scalar, encode_utf8, encode_utf8_decode_utf8,
    encode_utf8_valid_utf8, is_ascii_chars, is_ascii_chars_encode_utf8, is_scalar, valid_utf8,
};

use crate::text::{
    after_last, digit, has_prefix, lower, same_text, split_once, split_text_once, to_chars,
};

verus! {

/// The target of a request, in its components.
#[derive(Debug)]
pub struct Uri {
    /// The whole text.
    pub text: String,
    /// The scheme.
    pub scheme: Option<String>,
    /// The authority: user information, host and port.
    pub authority: Option<String>,
    /// The host.
    pub host: Option<String>,
    /// The path.
    pub path: String,
    /// The query.
    pub query: Option<String>,
}

/// The mathematical content of a [`Uri`].
pub struct UriView {
    /// The whole text.
    pub text: Seq<char>,
    /// The scheme.
    pub scheme: Option<Seq<char>>,
    /// The authority.
    pub authority: Option<Seq<char>>,
    /// The host.
    pub host: Option<Seq<char>>,
    /// The path.
    pub path: Seq<char>,
    /// The query.
    pub query: Option<Seq<char>>,
}

/// The view of an optional text.
pub open spec fn opt_text(s: Option<String>) -> Option<Seq<char>> {
    match s {
        Some(t) => Some(t@),
        None => None,
    }
}

impl View for Uri {
    type V = UriView;

    open spec fn view(&self) -> UriView {
        UriView {
            text: self.text@,
            scheme: opt_text(self.scheme),
            authority: opt_text(self.authority),
            host: opt_text(self.host),
            path: self.path@,
            query: opt_text(self.query),
        }
    }
}

impl Clone for Uri {
    fn clone(&self) -> (r: Uri)
        ensures
            r@ == self@,
    {
        Uri {
            text: self.text.clone(),
            scheme: self.scheme.clone(),
            authority: self.authority.clone(),
            host: self.host.clone(),
            path: self.path.clone(),
            query: self.query.clone(),
        }
    }
}

/// A URL, in its components.
#[derive(Debug)]
pub struct Url {
    /// The text that the URL was read from.
    pub source: String,
    /// The serialisation of the URL.
    pub text: String,
    /// The scheme, in lower case.
    pub scheme: String,
    /// The host.
    pub host: Option<String>,
    /// The port, where it is not the usual one of the scheme.
    pub port: Option<u16>,
    /// The path.
    pub path: String,
    /// The query.
    pub query: Option<String>,
}

/// The mathematical content of a [`Url`].
pub struct UrlView {
    /// The text that the URL was read from.
    pub source: Seq<char>,
    /// The serialisation of the URL.
    pub text: Seq<char>,
    /// The scheme, in lower case.
    pub scheme: Seq<char>,
    /// The host.
    pub host: Option<Seq<char>>,
    /// The port, where it is not the usual one of the scheme.
    pub port: Option<u16>,
    /// The path.
    pub path: Seq<char>,
    /// The query.
    pub query: Option<Seq<char>>,
}

impl View for Url {
    type V = UrlView;

    open spec fn view(&self) -> UrlView {
        UrlView {
            source: self.source@,
            text: self.text@,
            scheme: self.scheme@,
            host: opt_text(self.host),
            port: self.port,
            path: self.path@,
            query: opt_text(self.query),
        }
    }
}

impl Clone for Url {
    fn clone(&self) -> (r: Url)
        ensures
            r@ == self@,
    {
        Url {
            source: self.source.clone(),
            text: self.text.clone(),
            scheme: self.scheme.clone(),
            host: self.host.clone(),
            port: self.port,
            path: self.path.clone(),
            query: self.query.clone(),
        }
    }
}

/// The view of a URI that was read, or of the report why it was not.
pub open spec fn uri_outcome(r: Result<Uri, String>) -> Result<UriView, Seq<char>> {
    match r {
        Ok(uri) => Ok(uri@),
        Err(report) => Err(report@),
    }
}

/// The view of a URL that was read, or of the report why it was not.
pub open spec fn url_outcome(r: Result<Url, String>) -> Result<UrlView, Seq<char>> {
    match r {
        Ok(url) => Ok(url@),
        Err(report) => Err(report@),
    }
}

/// The view of a text, or of the report why there is none.
pub open spec fn text_outcome(r: Result<String, String>) -> Result<Seq<char>, Seq<char>> {
    match r {
        Ok(text) => Ok(text@),
        Err(report) => Err(report@),
    }
}

/// What the `FromStr` of `http::Uri` reads in a text.
pub uninterp spec fn uri_parse(text: Seq<char>) -> Result<UriView, Seq<char>>;

/// What `http::uri::Builder::build` makes of a scheme, an authority and a path
/// with its query.
pub uninterp spec fn uri_build(
    scheme: Seq<char>,
    authority: Seq<char>,
    path_and_query: Seq<char>,
) -> Result<UriView, Seq<char>>;

/// What `http::uri::PathAndQuery::try_from` reads in a text.
pub uninterp spec fn path_and_query(text: Seq<char>) -> Result<Seq<char>, Seq<char>>;

/// What `url::Url::parse` reads in a text.
pub uninterp spec fn url_parse(text: Seq<char>) -> Result<UrlView, Seq<char>>;

/// What `url::Url::join` makes of the URL read in `base` and a reference.
pub uninterp spec fn url_join(base: Seq<char>, reference: Seq<char>) -> Result<Seq<char>, Seq<char>>;

/// What `url::Url::set_host` makes of the URL read in `source` and a host.
pub uninterp spec fn url_with_host(source: Seq<char>, host: Seq<char>) -> Result<UrlView, Seq<char>>;

/// What `idna::domain_to_ascii_cow` makes of a host.
pub uninterp spec fn idna_ascii(host: Seq<char>) -> Result<Seq<char>, Seq<char>>;

/// The value of a hexadecimal digit, in either case.
pub open spec fn hex_value(b: u8) -> Option<u8> {
    if 48 <= b <= 57 {
        Some((b - 48) as u8)
    } else if 65 <= b <= 70 {
        Some((b - 55) as u8)
    } else if 97 <= b <= 102 {
        Some((b - 87) as u8)
    } else {
        None
    }
}

/// The bytes with every `%` and two hexadecimal digits behind it replaced by
/// the byte that these denote. Any other `%` stands for itself.
pub open spec fn unescaped(bytes: Seq<u8>) -> Seq<u8>
    decreases bytes.len(),
{
    if bytes.len() == 0 {
        Seq::empty()
    } else if bytes[0] == 37 && bytes.len() >= 3 && hex_value(bytes[1]) is Some && hex_value(
        bytes[2],
    ) is Some {
        seq![(hex_value(bytes[1])->Some_0 * 16 + hex_value(bytes[2])->Some_0) as u8] + unescaped(
            bytes.skip(3),
        )
    } else {
        seq![bytes[0]] + unescaped(bytes.skip(1))
    }
}

/// A text with its percent escapes decoded, where the decoded bytes are UTF-8.
pub open spec fn percent_decoded(text: Seq<char>) -> Option<Seq<char>> {
    let bytes = unescaped(encode_utf8(text));
    if valid_utf8(bytes) {
        Some(decode_utf8(bytes))
    } else {
        None
    }
}

/// The URI written in `text`, as the `FromStr` of `http::Uri` reads it, or the
/// text of its error. Only the name of the result is claimed.
#[verifier::external_body]
fn read_uri(text: &str) -> (r: Result<Uri, String>)
    ensures
        uri_outcome(r) == uri_parse(text@),
{
    let uri = text.parse::<http::Uri>().map_err(|err| err.to_string())?;
    Ok(
        Uri {
            text: uri.to_string(),
            scheme: uri.scheme_str().map(|s| s.to_owned()),
            authority: uri.authority().map(|a| a.as_str().to_owned()),
            host: uri.host().map(|h| h.to_owned()),
            path: uri.path().to_owned(),
            query: uri.query().map(|q| q.to_owned()),
        },
    )
}

/// The URI that `http::uri::Builder` builds, or the text of its error. Only
/// the name of the result is claimed.
#[verifier::external_body]
pub(crate) fn build_uri(scheme: &str, authority: &str, target: &str) -> (r: Result<Uri, String>)
    ensures
        uri_outcome(r) == uri_build(scheme@, authority@, target@),
{
    let uri = http::Uri::builder().scheme(scheme).authority(authority).path_and_query(target).build().map_err(
        |err| err.to_string())?;
    Ok(
        Uri {
            text: uri.to_string(),
            scheme: uri.scheme_str().map(|s| s.to_owned()),
            authority: uri.authority().map(|a| a.as_str().to_owned()),
            host: uri.host().map(|h| h.to_owned()),
            path: uri.path().to_owned(),
            query: uri.query().map(|q| q.to_owned()),
        },
    )
}

/// The path and query written in `text`, as `http::uri::PathAndQuery` reads
/// them, or the text of its error. Only the name of the result is claimed.
#[verifier::external_body]
pub(crate) fn read_path_and_query(text: &str) -> (r: Result<String, String>)
    ensures
        text_outcome(r) == path_and_query(text@),
{
    http::uri::PathAndQuery::try_from(text).map(|pq| pq.as_str().to_owned()).map_err(
        |err| err.to_string())
}

/// Whether `host` is there, is not empty, and is in ASCII and lower case.
pub open spec fn names_host(host: Option<Seq<char>>) -> bool {
    host matches Some(name) && name.len() > 0 && is_ascii_chars(name) && lower(name) == name
}

/// What is known of a URL read in `text`: its source is `text`, a text that
/// begins with `http://` or `https://`, in any case, has that scheme, and a
/// URL with one of these schemes has a host, in ASCII and lower case and not
/// empty.
pub open spec fn reads_url(text: Seq<char>, r: Result<Url, String>) -> bool {
    r matches Ok(url) ==> {
        &&& url.source@ == text
        &&& url.scheme@ == "http"@ || url.scheme@ == "https"@ ==> names_host(url@.host)
        &&& has_prefix(lower(text), "http://"@) ==> url.scheme@ == "http"@
        &&& has_prefix(lower(text), "https://"@) ==> url.scheme@ == "https"@
    }
}

/// The URL written in `text`, as `url::Url::parse` reads it, or the text of
/// its error. Beyond the name of the result it is claimed only how the web
/// schemes are read, and that a URL with one of them has a host (see
/// [`reads_url`]).
#[verifier::external_body]
pub(crate) fn read_url(text: &str) -> (r: Result<Url, String>)
    ensures
        url_outcome(r) == url_parse(text@),
        reads_url(text@, r),
{
    let url = url::Url::parse(text).map_err(|err| err.to_string())?;
    Ok(
        Url {
            source: text.to_owned(),
            text: url.as_str().to_owned(),
            scheme: url.scheme().to_owned(),
            host: url.host_str().map(|h| h.to_owned()),
            port: url.port(),
            path: url.path().to_owned(),
            query: url.query().map(|q| q.to_owned()),
        },
    )
}

/// What is known of a URL whose host was set: its scheme and its port are
/// those of the URL that it was before.
pub open spec fn keeps_origin(source: Seq<char>, r: Result<Url, String>) -> bool {
    match (r, url_parse(source)) {
        (Ok(url), Ok(was)) => url@.scheme == was.scheme && url@.port == was.port,
        _ => true,
    }
}

/// Whether `c` stands in a name as resolvers know it: a lower-case letter, a
/// digit, a hyphen, an underscore or a dot.
pub open spec fn is_dns_char(c: char) -> bool {
    'a' <= c <= 'z' || '0' <= c <= '9' || c == '-' || c == '_' || c == '.'
}

/// The label of `host` behind its last dot.
pub open spec fn last_label(host: Seq<char>) -> Seq<char> {
    match after_last(host, '.') {
        Some(label) => label,
        None => host,
    }
}

/// Whether `host` is a name, and no number: its last label begins with a
/// letter.
pub open spec fn dns_name(host: Seq<char>) -> bool {
    &&& forall|i: int| 0 <= i < host.len() ==> is_dns_char(#[trigger] host[i])
    &&& last_label(host).len() > 0
    &&& 'a' <= last_label(host)[0] <= 'z'
}

/// What is known of a web URL whose host was set to a name: it has that host.
pub open spec fn has_host_set(host: Seq<char>, r: Result<Url, String>) -> bool {
    r matches Ok(url) ==> {
        (url@.scheme == "http"@ || url@.scheme == "https"@) && dns_name(host) ==> url@.host == Some(
            host,
        )
    }
}

/// The URL written in `source` with its host set by `url::Url::set_host`, or
/// the text of the error. Beyond the name of the result it is claimed that
/// scheme and port stay, and that the host of a web URL is the one set where
/// that is a name; a number would be read as an IPv4 address.
#[verifier::external_body]
pub(crate) fn set_url_host(source: &str, host: &str) -> (r: Result<Url, String>)
    ensures
        url_outcome(r) == url_with_host(source@, host@),
        keeps_origin(source@, r),
        has_host_set(host@, r),
{
    let mut url = url::Url::parse(source).map_err(|err| err.to_string())?;
    url.set_host(Some(host)).map_err(|err| err.to_string())?;
    Ok(
        Url {
            source: url.as_str().to_owned(),
            text: url.as_str().to_owned(),
            scheme: url.scheme().to_owned(),
            host: url.host_str().map(|h| h.to_owned()),
            port: url.port(),
            path: url.path().to_owned(),
            query: url.query().map(|q| q.to_owned()),
        },
    )
}

/// The serialisation of what `url::Url::join` resolves `reference` to, against
/// the URL written in `base`, or the text of the error. Only the name of the
/// result is claimed.
#[verifier::external_body]
pub(crate) fn join_url(base: &str, reference: &str) -> (r: Result<String, String>)
    ensures
        text_outcome(r) == url_join(base@, reference@),
{
    let url = url::Url::parse(base).map_err(|err| err.to_string())?;
    url.join(reference).map(|joined| joined.as_str().to_owned()).map_err(|err| err.to_string())
}

/// Whether `host` is made of lower-case letters and dots.
pub open spec fn plain_host(host: Seq<char>) -> bool {
    forall|i: int| 0 <= i < host.len() ==> 'a' <= #[trigger] host[i] <= 'z' || host[i] == '.'
}

/// What is known of the ASCII form of a host of lower-case letters and dots:
/// it is the host itself.
pub open spec fn keeps_plain_host(host: Seq<char>, r: Result<String, String>) -> bool {
    plain_host(host) ==> text_outcome(r) == Ok::<Seq<char>, Seq<char>>(host)
}

/// What is known of the ASCII form of a host that is in ASCII already: where
/// there is one, it is the host in lower case.
pub open spec fn lowers_ascii_host(host: Seq<char>, r: Result<String, String>) -> bool {
    is_ascii_chars(host) ==> (r matches Ok(ascii) ==> ascii@ == lower(host))
}

/// What is known of the ASCII form of any host: it is in ASCII.
pub open spec fn gives_ascii(r: Result<String, String>) -> bool {
    r matches Ok(ascii) ==> is_ascii_chars(ascii@)
}

/// The ASCII form of `host`, as `idna::domain_to_ascii_cow` makes it with the
/// deny list for URLs, or the text of its error. Beyond the name of the result
/// it is claimed that the form is in ASCII, that letters in lower case and dots
/// stay as they are, and that of a host in ASCII only the case changes.
#[verifier::external_body]
pub(crate) fn host_to_ascii(host: &str) -> (r: Result<String, String>)
    ensures
        text_outcome(r) == idna_ascii(host@),
        keeps_plain_host(host@, r),
        lowers_ascii_host(host@, r),
        gives_ascii(r),
{
    idna::domain_to_ascii_cow(host.as_bytes(), idna::AsciiDenyList::URL).map(
        |ascii| ascii.into_owned()).map_err(|err| err.to_string())
}

/// `text` with its percent escapes decoded by
/// `percent_encoding::percent_decode_str`: each `%` with two hexadecimal digits
/// behind it is the byte that they denote, everything else stays, and the
/// result is `None` where the bytes are not UTF-8.
#[verifier::external_body]
pub(crate) fn percent_decode(text: &str) -> (r: Option<String>)
    ensures
        opt_text(r) == percent_decoded(text@),
{
    percent_encoding::percent_decode_str(text).decode_utf8().ok().map(|s| s.into_owned())
}

impl Uri {
    /// Reads a URI.
    pub fn parse(text: &str) -> (r: Result<Uri, String>)
        ensures
            uri_outcome(r) == uri_parse(text@),
    {
        read_uri(text)
    }
}

/// The port that a scheme implies.
pub open spec fn known_port(scheme: Seq<char>) -> Option<u16> {
    if scheme == "http"@ || scheme == "ws"@ {
        Some(80)
    } else if scheme == "https"@ || scheme == "wss"@ {
        Some(443)
    } else if scheme == "ftp"@ {
        Some(21)
    } else {
        None
    }
}

impl Url {
    /// Reads a URL.
    pub fn parse(text: &str) -> (r: Result<Url, String>)
        ensures
            url_outcome(r) == url_parse(text@),
            reads_url(text@, r),
    {
        read_url(text)
    }

    /// The scheme, in lower case.
    pub fn scheme(&self) -> (r: &str)
        ensures
            r@ == self@.scheme,
    {
        self.scheme.as_str()
    }

    /// The port of the URL, or else the one that its scheme implies.
    pub fn port_or_known_default(&self) -> (r: Option<u16>)
        ensures
            r == (match self@.port {
                Some(port) => Some(port),
                None => known_port(self@.scheme),
            }),
    {
        match self.port {
            Some(port) => Some(port),
            None => {
                let scheme = self.scheme.as_str();
                if same_text(scheme, "http") || same_text(scheme, "ws") {
                    Some(80)
                } else if same_text(scheme, "https") || same_text(scheme, "wss") {
                    Some(443)
                } else if same_text(scheme, "ftp") {
                    Some(21)
                } else {
                    None
                }
            },
        }
    }
}

/// Whether `s` holds a character with which a path, a query or a fragment
/// begins.
pub open spec fn goes_beyond_host(s: Seq<char>) -> bool {
    s.contains('/') || s.contains('?') || s.contains('#')
}

/// The scheme that `text` names: what stands before its first `://`, unless
/// that is in the path, in the query or in the fragment.
pub open spec fn named_scheme(text: Seq<char>) -> Option<Seq<char>> {
    match split_once(text, "://"@) {
        Some((scheme, _)) => if goes_beyond_host(scheme) {
            None
        } else {
            Some(scheme)
        },
        None => None,
    }
}

/// Whether `s` holds a character with which a path, a query or a fragment
/// begins.
fn holds_delimiter(s: &str) -> (r: bool)
    ensures
        r == goes_beyond_host(s@),
{
    let chars = to_chars(s);
    let mut i: usize = 0;
    while i < chars.len()
        invariant
            i <= chars@.len(),
            chars@ == s@,
            forall|k: int|
                0 <= k < i ==> #[trigger] chars@[k] != '/' && chars@[k] != '?' && chars@[k] != '#',
        decreases chars@.len() - i,
    {
        let c = chars[i];
        if c == '/' || c == '?' || c == '#' {
            assert(s@[i as int] == c);
            return true;
        }
        i += 1;
    }
    false
}

/// The scheme that `text` names, as it is written there.
pub fn scheme_named(text: &str) -> (r: Option<String>)
    ensures
        opt_text(r) == named_scheme(text@),
{
    match split_text_once(text, "://") {
        Some((scheme, _)) => if holds_delimiter(scheme.as_str()) {
            None
        } else {
            Some(scheme)
        },
        None => None,
    }
}

/// Bytes without `%` have no escapes.
proof fn lemma_nothing_escaped(bytes: Seq<u8>)
    requires
        !bytes.contains(37),
    ensures
        unescaped(bytes) == bytes,
    decreases bytes.len(),
{
    if bytes.len() > 0 {
        assert(bytes[0] != 37);
        assert forall|i: int| 0 <= i < bytes.skip(1).len() implies bytes.skip(1)[i] != 37 by {
            assert(bytes[i + 1] != 37);
        }
        lemma_nothing_escaped(bytes.skip(1));
        assert(seq![bytes[0]] + bytes.skip(1) =~= bytes);
    } else {
        assert(bytes =~= Seq::<u8>::empty());
    }
}

/// Only `%` has the byte of `%` in its encoding.
proof fn lemma_scalar_bytes(v: u32, i: int)
    requires
        is_scalar(v),
        v != 37,
        0 <= i < encode_scalar(v).len(),
    ensures
        encode_scalar(v)[i] != 37,
{
    assert(v <= 0x7f ==> (v & 0x7f) as u8 == v) by (bit_vector);
    assert(0xC0u8 | ((v >> 6) & 0x1F) as u8 >= 0x80) by (bit_vector);
    assert(0xE0u8 | ((v >> 12) & 0x0F) as u8 >= 0x80) by (bit_vector);
    assert(0xF0u8 | ((v >> 18) & 0x7) as u8 >= 0x80) by (bit_vector);
    assert(0x80u8 | (v & 0x3F) as u8 >= 0x80) by (bit_vector);
    assert(0x80u8 | ((v >> 6) & 0x3F) as u8 >= 0x80) by (bit_vector);
    assert(0x80u8 | ((v >> 12) & 0x3F) as u8 >= 0x80) by (bit_vector);
}

/// A text without `%` has no such byte in its encoding.
proof fn lemma_no_percent(text: Seq<char>)
    requires
        !text.contains('%'),
    ensures
        !encode_utf8(text).contains(37),
    decreases text.len(),
{
    if text.len() > 0 {
        let rest = text.drop_first();
        assert forall|i: int| 0 <= i < rest.len() implies rest[i] != '%' by {
            assert(text[i + 1] != '%');
        }
        lemma_no_percent(rest);
        assert(text[0] != '%');
        char_is_scalar(text[0]);
        if text[0] as u32 == 37 {
            char_u32_cast(text[0], 37u32);
            assert(37u32 as char == '%');
        }
        let head = encode_scalar(text[0] as u32);
        let all = encode_utf8(text);
        assert forall|i: int| 0 <= i < all.len() implies all[i] != 37 by {
            if i < head.len() {
                lemma_scalar_bytes(text[0] as u32, i);
            } else {
                assert(all[i] == encode_utf8(rest)[i - head.len()]);
            }
        }
    }
}

/// A text without `%` is its own decoding.
pub proof fn law_plain_text_decodes_to_itself(text: Seq<char>)
    requires
        !text.contains('%'),
    ensures
        percent_decoded(text) == Some(text),
{
    lemma_no_percent(text);
    lemma_nothing_escaped(encode_utf8(text));
    encode_utf8_valid_utf8(text);
    encode_utf8_decode_utf8(text);
}

/// Bytes with every one of them escaped, by `%` and two digits in lower case.
pub open spec fn escaped(bytes: Seq<u8>) -> Seq<char>
    decreases bytes.len(),
{
    if bytes.len() == 0 {
        Seq::empty()
    } else {
        seq!['%', digit((bytes[0] / 16) as nat), digit((bytes[0] % 16) as nat)] + escaped(
            bytes.skip(1),
        )
    }
}

proof fn lemma_escaped(bytes: Seq<u8>)
    ensures
        is_ascii_chars(escaped(bytes)),
        unescaped(encode_utf8(escaped(bytes))) == bytes,
    decreases bytes.len(),
{
    if bytes.len() > 0 {
        let rest = bytes.skip(1);
        lemma_escaped(rest);
        let text = escaped(bytes);
        let hi = digit((bytes[0] / 16) as nat);
        let lo = digit((bytes[0] % 16) as nat);
        assert forall|i: int| 0 <= i < text.len() implies '\0' <= #[trigger] text[i] <= '\u{7f}' by {
            if i >= 3 {
                assert(text[i] == escaped(rest)[i - 3]);
            }
        }
        is_ascii_chars_encode_utf8(text);
        is_ascii_chars_encode_utf8(escaped(rest));
        let code = encode_utf8(text);
        assert(text[0] == '%' && text[1] == hi && text[2] == lo);
        assert(code.skip(3) =~= encode_utf8(escaped(rest))) by {
            assert forall|i: int| 0 <= i < code.skip(3).len() implies code.skip(3)[i]
                == encode_utf8(escaped(rest))[i] by {
                assert(code[i + 3] == text[i + 3] as u8);
                assert(text[i + 3] == escaped(rest)[i]);
            }
        }
        assert(code[0] == 37);
        assert(hex_value(code[1]) == Some((bytes[0] / 16) as u8));
        assert(hex_value(code[2]) == Some((bytes[0] % 16) as u8));
        assert(unescaped(code) =~= seq![bytes[0]] + rest);
        assert(seq![bytes[0]] + rest =~= bytes);
    } else {
        assert(bytes =~= Seq::<u8>::empty());
    }
}

/// What is escaped decodes to what it was: a target can be given in the query
/// whatever characters it holds.
pub proof fn law_decoding_undoes_escaping(text: Seq<char>)
    ensures
        percent_decoded(escaped(encode_utf8(text))) == Some(text),
{
    lemma_escaped(encode_utf8(text));
    encode_utf8_valid_utf8(text);
    encode_utf8_decode_utf8(text);
}

} // verus!
