//! Header names, header values and header maps.
//!
//! The maps are those of the `http` crate. Their contents are spoken of as a
//! mathematical map from lower-case names to the values under each name.

use vstd::prelude::*;
use vstd::utf8::{encode_utf8, is_ascii_chars, is_ascii_chars_encode_utf8};

use crate::text::{dec, join, lower, texts};

verus! {

/// The header map of the `http` crate.
#[verifier::external_type_specification]
#[verifier::external_body]
#[verifier::reject_recursive_types(T)]
pub struct ExHeaderMap<T>(http::HeaderMap<T>);

/// The header value of the `http` crate.
#[verifier::external_type_specification]
#[verifier::external_body]
pub struct ExHeaderValue(http::HeaderValue);

/// Every character is printable ASCII or a tab.
pub open spec fn plain_ascii(s: Seq<char>) -> bool {
    forall|i: int| 0 <= i < s.len() ==> (' ' <= #[trigger] s[i] && s[i] <= '~') || s[i] == '\t'
}

/// Whether `c` may stand in a header name.
pub open spec fn is_token(c: char) -> bool {
    ||| 'a' <= c <= 'z'
    ||| 'A' <= c <= 'Z'
    ||| '0' <= c <= '9'
    ||| c == '!'
    ||| c == '#'
    ||| c == '$'
    ||| c == '%'
    ||| c == '&'
    ||| c == '\''
    ||| c == '*'
    ||| c == '+'
    ||| c == '-'
    ||| c == '.'
    ||| c == '^'
    ||| c == '_'
    ||| c == '`'
    ||| c == '|'
    ||| c == '~'
}

/// Whether `s` is a header name: 1 to 65535 token characters.
pub open spec fn valid_name(s: Seq<char>) -> bool {
    &&& 1 <= s.len() <= 65535
    &&& forall|i: int| 0 <= i < s.len() ==> is_token(#[trigger] s[i])
}

/// Whether `s` is a header name in lower case.
pub open spec fn canonical_name(s: Seq<char>) -> bool {
    valid_name(s) && lower(s) == s
}

/// Whether `b` may stand in a header value: anything but control characters,
/// of which the tab is allowed.
pub open spec fn is_value_byte(b: u8) -> bool {
    (b >= 32 && b != 127) || b == 9
}

/// Whether `v` is a header value.
pub open spec fn valid_value(v: Seq<u8>) -> bool {
    forall|i: int| 0 <= i < v.len() ==> is_value_byte(#[trigger] v[i])
}

/// Whether `b` is printable ASCII or a tab.
pub open spec fn is_visible(b: u8) -> bool {
    32 <= b <= 126 || b == 9
}

/// Whether `v` can be read as text: printable ASCII and tabs only.
pub open spec fn visible(v: Seq<u8>) -> bool {
    forall|i: int| 0 <= i < v.len() ==> is_visible(#[trigger] v[i])
}

/// The text of ASCII bytes.
pub open spec fn ascii_text(v: Seq<u8>) -> Seq<char> {
    v.map_values(|b: u8| b as char)
}

/// What a header map holds: under each lower-case name its values, in order.
pub uninterp spec fn header_contents(map: http::HeaderMap<http::HeaderValue>) -> Map<
    Seq<char>,
    Seq<Seq<u8>>,
>;

/// How many names a map may hold for one more insertion to be safe: a map of
/// the `http` crate with so few names never reaches its size limit.
pub const ROOMY: usize = 6553;

/// Whether the map has room for `n` more names.
pub open spec fn has_room(map: http::HeaderMap<http::HeaderValue>, n: int) -> bool {
    header_contents(map).dom().finite() && header_contents(map).dom().len() + n <= ROOMY + 1
}

/// How many more names the map has room for.
pub open spec fn room_left(map: http::HeaderMap<http::HeaderValue>) -> int {
    ROOMY + 1 - header_contents(map).dom().len()
}

/// The first value under `name`.
pub open spec fn first(h: Map<Seq<char>, Seq<Seq<u8>>>, name: Seq<char>) -> Option<Seq<u8>> {
    if h.dom().contains(name) {
        Some(h[name][0])
    } else {
        None
    }
}

/// The values under `name`, in order.
pub open spec fn under(h: Map<Seq<char>, Seq<Seq<u8>>>, name: Seq<char>) -> Seq<Seq<u8>> {
    if h.dom().contains(name) {
        h[name]
    } else {
        Seq::empty()
    }
}

/// The views of a list of values.
pub open spec fn value_views(values: Seq<Vec<u8>>) -> Seq<Seq<u8>> {
    values.map_values(|v: Vec<u8>| v@)
}

/// Whether all of `values` are header values.
pub open spec fn all_valid(values: Seq<Seq<u8>>) -> bool {
    forall|i: int| 0 <= i < values.len() ==> valid_value(#[trigger] values[i])
}

/// The texts of those of `values` that can be read as text, in order.
pub open spec fn readable_texts(values: Seq<Seq<u8>>) -> Seq<Seq<char>>
    decreases values.len(),
{
    if values.len() == 0 {
        Seq::empty()
    } else if visible(values.last()) {
        readable_texts(values.drop_last()).push(ascii_text(values.last()))
    } else {
        readable_texts(values.drop_last())
    }
}

/// The values under `name` as one comma-separated text. What cannot be read as
/// text is passed over.
pub open spec fn combined(h: Map<Seq<char>, Seq<Seq<u8>>>, name: Seq<char>) -> Seq<char> {
    join(readable_texts(under(h, name)), ", "@)
}

/// `h` with `value` as the one value under `name`.
pub open spec fn put(
    h: Map<Seq<char>, Seq<Seq<u8>>>,
    name: Seq<char>,
    value: Seq<u8>,
) -> Map<Seq<char>, Seq<Seq<u8>>> {
    h.insert(name, seq![value])
}

/// The contents of a map without names.
pub open spec fn no_headers() -> Map<Seq<char>, Seq<Seq<u8>>> {
    Map::empty()
}

/// Whether `n` is the number of names in `h`.
pub open spec fn counts(h: Map<Seq<char>, Seq<Seq<u8>>>, n: usize) -> bool {
    h.dom().finite() && h.dom().len() == n
}

/// `http::HeaderMap::new`: a map without names.
#[verifier::external_body]
pub(crate) fn empty_headers() -> (r: http::HeaderMap)
    ensures
        header_contents(r) == no_headers(),
{
    http::HeaderMap::new()
}

/// `http::HeaderMap::get`: the first value under a name, or `None` where the
/// map lacks the name. What it holds is a header value.
#[verifier::external_body]
pub(crate) fn get_value(map: &http::HeaderMap, name: &str) -> (r: Option<Vec<u8>>)
    requires
        canonical_name(name@),
    ensures
        r is Some <==> header_contents(*map).dom().contains(name@),
        r matches Some(v) ==> first(header_contents(*map), name@) == Some(v@) && valid_value(v@),
{
    map.get(name).map(|value| value.as_bytes().to_vec())
}

/// `http::HeaderMap::get_all`: every value under a name, in order, and none
/// where the map lacks the name. Each is a header value.
#[verifier::external_body]
pub(crate) fn all_values(map: &http::HeaderMap, name: &str) -> (r: Vec<Vec<u8>>)
    requires
        canonical_name(name@),
    ensures
        value_views(r@) == under(header_contents(*map), name@),
        all_valid(value_views(r@)),
{
    map.get_all(name).iter().map(|value| value.as_bytes().to_vec()).collect()
}

/// `http::HeaderMap::contains_key`: whether the map holds the name.
#[verifier::external_body]
pub(crate) fn has_name(map: &http::HeaderMap, name: &str) -> (r: bool)
    requires
        canonical_name(name@),
    ensures
        r == header_contents(*map).dom().contains(name@),
{
    map.contains_key(name)
}

/// `http::HeaderMap::insert`: the name gets this one value, whatever it had.
/// The map must have room, since past its size limit the call panics.
#[verifier::external_body]
pub(crate) fn set_value(map: &mut http::HeaderMap, name: &str, value: &Vec<u8>)
    requires
        canonical_name(name@),
        valid_value(value@),
        has_room(*old(map), 1),
    ensures
        header_contents(*final(map)) == put(header_contents(*old(map)), name@, value@),
{
    let key = http::HeaderName::from_bytes(name.as_bytes()).unwrap();
    map.insert(key, http::HeaderValue::from_bytes(value).unwrap());
}

/// `http::HeaderMap::remove`: the name and all its values leave the map.
#[verifier::external_body]
pub(crate) fn remove_name(map: &mut http::HeaderMap, name: &str)
    requires
        canonical_name(name@),
    ensures
        header_contents(*final(map)) == header_contents(*old(map)).remove(name@),
{
    map.remove(name);
}

/// `http::HeaderMap::clone`: a map with the same contents.
#[verifier::external_body]
pub(crate) fn clone_headers(map: &http::HeaderMap) -> (r: http::HeaderMap)
    ensures
        header_contents(r) == header_contents(*map),
{
    map.clone()
}

/// `http::HeaderMap::keys_len`: the number of names in the map.
#[verifier::external_body]
pub(crate) fn count_names(map: &http::HeaderMap) -> (r: usize)
    ensures
        counts(header_contents(*map), r),
{
    map.keys_len()
}

/// The `FromStr` of `http::HeaderName`: a text of token characters is a name,
/// which is put in lower case; any other text is an error.
#[verifier::external_body]
pub(crate) fn parse_name(text: &str) -> (r: Option<String>)
    ensures
        r is Some <==> valid_name(text@),
        r matches Some(name) ==> name@ == lower(text@),
{
    text.parse::<http::HeaderName>().ok().map(|name| name.as_str().to_owned())
}

/// `http::HeaderValue::from_str`: the UTF-8 bytes of the text, or an error
/// where they are no header value.
#[verifier::external_body]
pub(crate) fn value_from_str(text: &str) -> (r: Option<Vec<u8>>)
    ensures
        r is Some <==> valid_value(encode_utf8(text@)),
        r matches Some(value) ==> value@ == encode_utf8(text@),
{
    http::HeaderValue::from_str(text).ok().map(|value| value.as_bytes().to_vec())
}

/// `http::HeaderValue::to_str`: the text of a value of printable ASCII and
/// tabs, or an error for any other value.
#[verifier::external_body]
pub(crate) fn value_to_str(value: &Vec<u8>) -> (r: Option<String>)
    requires
        valid_value(value@),
    ensures
        r is Some <==> visible(value@),
        r matches Some(text) ==> text@ == ascii_text(value@),
{
    http::HeaderValue::from_bytes(value).unwrap().to_str().ok().map(|text| text.to_owned())
}

/// The texts of the values under `name` that can be read as text, in order.
pub(crate) fn texts_under(map: &http::HeaderMap, name: &str) -> (r: Vec<String>)
    requires
        canonical_name(name@),
    ensures
        texts(r@) == readable_texts(under(header_contents(*map), name@)),
{
    let values = all_values(map, name);
    let ghost all = value_views(values@);
    let mut out: Vec<String> = Vec::new();
    let mut i: usize = 0;
    while i < values.len()
        invariant
            i <= values@.len(),
            all == value_views(values@),
            all_valid(all),
            texts(out@) == readable_texts(all.take(i as int)),
        decreases values@.len() - i,
    {
        let ghost before = out@;
        proof {
            assert(all[i as int] == values@[i as int]@);
            assert(all.take(i + 1).drop_last() == all.take(i as int));
            assert(all.take(i + 1).last() == all[i as int]);
        }
        if let Some(text) = value_to_str(&values[i]) {
            out.push(text);
            proof {
                assert(texts(out@) =~= texts(before).push(text@));
            }
        }
        i += 1;
    }
    proof {
        assert(all.take(i as int) == all);
    }
    out
}

/// The text of every value that can be read is among the texts.
pub proof fn lemma_readable(values: Seq<Seq<u8>>, k: int) -> (m: int)
    requires
        0 <= k < values.len(),
        visible(values[k]),
    ensures
        0 <= m < readable_texts(values).len(),
        readable_texts(values)[m] == ascii_text(values[k]),
    decreases values.len(),
{
    if k == values.len() - 1 {
        readable_texts(values.drop_last()).len() as int
    } else {
        lemma_readable(values.drop_last(), k)
    }
}

/// The lower case of a header name is a header name in lower case.
pub proof fn lemma_lower_name(s: Seq<char>)
    requires
        valid_name(s),
    ensures
        canonical_name(lower(s)),
{
    assert forall|i: int| 0 <= i < lower(s).len() implies is_token(#[trigger] lower(s)[i]) by {
        assert(is_token(s[i]));
    }
    assert(lower(lower(s)) =~= lower(s));
}

/// A text of printable ASCII and tabs is a header value that can be read back.
pub proof fn lemma_plain_value(s: Seq<char>)
    requires
        plain_ascii(s),
    ensures
        valid_value(encode_utf8(s)),
        visible(encode_utf8(s)),
        ascii_text(encode_utf8(s)) == s,
{
    assert(is_ascii_chars(s));
    is_ascii_chars_encode_utf8(s);
    let v = encode_utf8(s);
    assert forall|i: int| 0 <= i < v.len() implies is_visible(#[trigger] v[i]) && is_value_byte(
        v[i],
    ) && v[i] as char == s[i] by {
        assert(s[i] as u8 == v[i]);
    }
    assert(ascii_text(v) =~= s);
}

/// A header value that can be read as text is what that text encodes to.
pub proof fn lemma_visible_value(v: Seq<u8>)
    requires
        visible(v),
    ensures
        plain_ascii(ascii_text(v)),
        encode_utf8(ascii_text(v)) == v,
        valid_value(v),
{
    let s = ascii_text(v);
    assert forall|i: int| 0 <= i < s.len() implies ((' ' <= #[trigger] s[i] && s[i] <= '~') || s[i]
        == '\t') && s[i] as u8 == v[i] by {
        assert(is_visible(v[i]));
    }
    assert forall|i: int| 0 <= i < v.len() implies is_value_byte(#[trigger] v[i]) by {
        assert(is_visible(v[i]));
    }
    assert(is_ascii_chars(s));
    is_ascii_chars_encode_utf8(s);
    assert(encode_utf8(s) =~= v);
}

/// Decimal notation is printable.
pub proof fn lemma_dec_plain(n: nat)
    ensures
        plain_ascii(dec(n)),
        dec(n).len() > 0,
    decreases n,
{
    if n >= 10 {
        lemma_dec_plain(n / 10);
    }
}

/// Putting one value in takes the room of at most one name.
pub proof fn lemma_put_room(
    before: http::HeaderMap<http::HeaderValue>,
    after: http::HeaderMap<http::HeaderValue>,
    name: Seq<char>,
    value: Seq<u8>,
    n: int,
)
    requires
        has_room(before, n),
        header_contents(after) == put(header_contents(before), name, value),
    ensures
        has_room(after, n - 1),
{
    let h = header_contents(before);
    assert(put(h, name, value).dom() =~= h.dom().insert(name));
}

/// Whether the map has room for `n` more names.
pub fn roomy(map: &http::HeaderMap, n: usize) -> (r: bool)
    requires
        n <= ROOMY,
    ensures
        r == has_room(*map, n as int),
{
    count_names(map) <= ROOMY + 1 - n
}

} // verus!
