//! Header filtering applied to inbound requests and outbound responses.
//!
//! Both directions share one algorithm: strip the names that the `Connection`
//! headers list, strip the hop-by-hop names, strip the operator's deny list.
//! Callers hold one [`HeaderFilter`] for each direction.

use vstd::prelude::*;

use crate::header::{
    ascii_text, canonical_name, combined, header_contents, lemma_lower_name, lemma_readable,
    parse_name, readable_texts, remove_name, texts_under, under, valid_name, visible,
};
use crate::text::{items, join_texts, lemma_items_join, list_items, lower, texts};

verus! {

/// The header names that never cross a proxy.
pub open spec fn hop_by_hop() -> Seq<&'static str> {
    seq![
        "connection",
        "keep-alive",
        "proxy-authenticate",
        "proxy-authorization",
        "te",
        "trailer",
        "transfer-encoding",
        "upgrade",
        "proxy-connection",
    ]
}

/// The names that `raw` denotes, in lower case and in order; what is no header
/// name is passed over.
pub open spec fn names_in(raw: Seq<Seq<char>>) -> Seq<Seq<char>>
    decreases raw.len(),
{
    if raw.len() == 0 {
        Seq::empty()
    } else if valid_name(raw.last()) {
        names_in(raw.drop_last()).push(lower(raw.last()))
    } else {
        names_in(raw.drop_last())
    }
}

/// The names that the `Connection` headers of `h` list, those of all values
/// together. A value that cannot be read as text lists none.
pub open spec fn connection_listed(h: Map<Seq<char>, Seq<Seq<u8>>>) -> Seq<Seq<char>> {
    names_in(items(combined(h, "connection"@)))
}

/// Whether the filter with deny list `deny` strips `name` from headers `h`.
pub open spec fn strips(
    h: Map<Seq<char>, Seq<Seq<u8>>>,
    deny: Seq<Seq<char>>,
    name: Seq<char>,
) -> bool {
    ||| connection_listed(h).contains(name)
    ||| views(hop_by_hop()).contains(name)
    ||| deny.contains(name)
}

/// `h` without the names in `names`.
pub open spec fn without(
    h: Map<Seq<char>, Seq<Seq<u8>>>,
    names: Seq<Seq<char>>,
) -> Map<Seq<char>, Seq<Seq<u8>>> {
    h.remove_keys(Set::new(|name: Seq<char>| names.contains(name)))
}

/// What is left of headers `h` behind the filter with deny list `deny`.
pub open spec fn filtered(
    h: Map<Seq<char>, Seq<Seq<u8>>>,
    deny: Seq<Seq<char>>,
) -> Map<Seq<char>, Seq<Seq<u8>>> {
    h.remove_keys(Set::new(|name: Seq<char>| strips(h, deny, name)))
}

/// Every text is a header name in lower case.
pub open spec fn all_canonical(names: Seq<Seq<char>>) -> bool {
    forall|i: int| 0 <= i < names.len() ==> canonical_name(#[trigger] names[i])
}

/// The names denoted are in lower case.
proof fn lemma_names_canonical(raw: Seq<Seq<char>>)
    ensures
        all_canonical(names_in(raw)),
    decreases raw.len(),
{
    if raw.len() > 0 {
        lemma_names_canonical(raw.drop_last());
        if valid_name(raw.last()) {
            lemma_lower_name(raw.last());
        }
    }
}

/// The hop-by-hop names are header names in lower case.
proof fn lemma_hop_by_hop()
    ensures
        all_canonical(views(hop_by_hop())),
{
    reveal_strlit("connection");
    reveal_strlit("keep-alive");
    reveal_strlit("proxy-authenticate");
    reveal_strlit("proxy-authorization");
    reveal_strlit("te");
    reveal_strlit("trailer");
    reveal_strlit("transfer-encoding");
    reveal_strlit("upgrade");
    reveal_strlit("proxy-connection");
    assert forall|i: int| 0 <= i < hop_by_hop().len() implies canonical_name(
        #[trigger] views(hop_by_hop())[i],
    ) by {
        let s = hop_by_hop()[i]@;
        assert(valid_name(s));
        assert(lower(s) =~= s);
    }
}

/// Removes every name of `names`.
fn remove_all(headers: &mut http::HeaderMap, names: &Vec<String>)
    requires
        all_canonical(texts(names@)),
    ensures
        header_contents(*final(headers)) == without(
            header_contents(*old(headers)),
            texts(names@),
        ),
{
    let ghost h = header_contents(*headers);
    let ghost all = texts(names@);
    proof {
        assert(without(h, all.take(0)) =~= h);
    }
    let mut i: usize = 0;
    while i < names.len()
        invariant
            i <= names@.len(),
            all == texts(names@),
            all_canonical(all),
            header_contents(*headers) == without(h, all.take(i as int)),
        decreases names@.len() - i,
    {
        assert(all[i as int] == names@[i as int]@);
        remove_name(headers, names[i].as_str());
        proof {
            lemma_without_one_more(h, all, i as int);
        }
        i += 1;
    }
    proof {
        assert(all.take(i as int) == all);
    }
}

proof fn lemma_without_one_more(h: Map<Seq<char>, Seq<Seq<u8>>>, all: Seq<Seq<char>>, i: int)
    requires
        0 <= i < all.len(),
    ensures
        without(h, all.take(i)).remove(all[i]) == without(h, all.take(i + 1)),
{
    let now = all.take(i);
    let next = all.take(i + 1);
    assert forall|name: Seq<char>| #[trigger] next.contains(name) <==> (now.contains(name) || name
        == all[i]) by {
        if now.contains(name) {
            let k = choose|k: int| 0 <= k < now.len() && now[k] == name;
            assert(next[k] == name);
        }
        if name == all[i] {
            assert(next[i] == name);
        }
        if next.contains(name) && name != all[i] {
            let k = choose|k: int| 0 <= k < next.len() && next[k] == name;
            assert(now[k] == name);
        }
    }
    assert(without(h, now).remove(all[i]) =~= without(h, next));
}

/// The views of a sequence of fixed texts.
pub open spec fn views(names: Seq<&'static str>) -> Seq<Seq<char>> {
    names.map_values(|s: &'static str| s@)
}

/// Removes every name of `names`.
pub(crate) fn remove_each(headers: &mut http::HeaderMap, names: &Vec<&'static str>)
    requires
        all_canonical(views(names@)),
    ensures
        header_contents(*final(headers)) == without(
            header_contents(*old(headers)),
            views(names@),
        ),
{
    let ghost h = header_contents(*headers);
    let ghost all = views(names@);
    proof {
        assert(without(h, all.take(0)) =~= h);
    }
    let mut i: usize = 0;
    while i < names.len()
        invariant
            i <= names@.len(),
            all == views(names@),
            all_canonical(all),
            header_contents(*headers) == without(h, all.take(i as int)),
        decreases names@.len() - i,
    {
        assert(all[i as int] == names@[i as int]@);
        remove_name(headers, names[i]);
        proof {
            lemma_without_one_more(h, all, i as int);
        }
        i += 1;
    }
    proof {
        assert(all.take(i as int) == all);
    }
}

/// Removes the hop-by-hop names.
fn remove_hop_by_hop(headers: &mut http::HeaderMap)
    ensures
        header_contents(*final(headers)) == without(
            header_contents(*old(headers)),
            views(hop_by_hop()),
        ),
{
    let names: Vec<&'static str> = vec![
        "connection",
        "keep-alive",
        "proxy-authenticate",
        "proxy-authorization",
        "te",
        "trailer",
        "transfer-encoding",
        "upgrade",
        "proxy-connection",
    ];
    proof {
        lemma_hop_by_hop();
        assert(names@ =~= hop_by_hop());
    }
    remove_each(headers, &names);
}

/// The header names among `raw`, in lower case.
fn collect_names(raw: &[String]) -> (r: Vec<String>)
    ensures
        texts(r@) == names_in(texts(raw@)),
        all_canonical(texts(r@)),
{
    let mut out: Vec<String> = Vec::new();
    let ghost all = texts(raw@);
    let mut i: usize = 0;
    while i < raw.len()
        invariant
            i <= raw@.len(),
            all == texts(raw@),
            texts(out@) == names_in(all.take(i as int)),
        decreases raw@.len() - i,
    {
        proof {
            assert(all.take(i + 1).drop_last() == all.take(i as int));
            assert(all.take(i + 1).last() == raw@[i as int]@);
        }
        let ghost before = out@;
        if let Some(name) = parse_name(raw[i].as_str()) {
            out.push(name);
            proof {
                assert(texts(out@) =~= texts(before).push(name@));
            }
        }
        i += 1;
    }
    proof {
        assert(all.take(i as int) == all);
        lemma_names_canonical(all);
    }
    out
}

/// Removes the names that the `Connection` headers list.
pub fn strip_connection_listed(headers: &mut http::HeaderMap)
    ensures
        header_contents(*final(headers)) == without(
            header_contents(*old(headers)),
            connection_listed(header_contents(*old(headers))),
        ),
{
    proof {
        lemma_hop_by_hop();
        assert(views(hop_by_hop())[0] == "connection"@);
    }
    let values = texts_under(headers, "connection");
    let text = join_texts(&values, ", ");
    let listed = list_items(text.as_str());
    let names = collect_names(listed.as_slice());
    remove_all(headers, &names);
}

/// Compiled header filter.
#[derive(Debug)]
pub struct HeaderFilter {
    extra_deny: Vec<String>,
}

impl View for HeaderFilter {
    type V = Seq<Seq<char>>;

    closed spec fn view(&self) -> Seq<Seq<char>> {
        texts(self.extra_deny@)
    }
}

impl Clone for HeaderFilter {
    fn clone(&self) -> (r: HeaderFilter)
        ensures
            r@ == self@,
    {
        proof {
            use_type_invariant(self);
        }
        let extra_deny = self.extra_deny.clone();
        proof {
            assert(texts(extra_deny@) =~= texts(self.extra_deny@));
        }
        HeaderFilter { extra_deny }
    }
}

impl HeaderFilter {
    #[verifier::type_invariant]
    spec fn inv(self) -> bool {
        all_canonical(self@)
    }

    /// Compiles a filter from the configured header names. A text that is no
    /// header name is dropped, so that a typo cannot wedge the proxy.
    pub fn new(extra_deny: &[String]) -> (r: HeaderFilter)
        ensures
            r@ == names_in(texts(extra_deny@)),
    {
        HeaderFilter { extra_deny: collect_names(extra_deny) }
    }

    /// Strips every header that must not survive a proxy hop: every name that a
    /// `Connection` header lists, the hop-by-hop names, and the deny list. All other
    /// headers stay as they are.
    pub fn apply(&self, headers: &mut http::HeaderMap)
        ensures
            header_contents(*final(headers)) == filtered(header_contents(*old(headers)), self@),
    {
        proof {
            use_type_invariant(self);
        }
        let ghost h = header_contents(*headers);
        strip_connection_listed(headers);
        remove_hop_by_hop(headers);
        remove_all(headers, &self.extra_deny);
        proof {
            let hops = views(hop_by_hop());
            assert(without(without(without(h, connection_listed(h)), hops), self@) =~= filtered(
                h,
                self@,
            ));
        }
    }
}

/// What must not cross the proxy never does: no stripped name is left.
pub proof fn law_stripped_names_gone(
    h: Map<Seq<char>, Seq<Seq<u8>>>,
    deny: Seq<Seq<char>>,
    name: Seq<char>,
)
    requires
        strips(h, deny, name),
    ensures
        !filtered(h, deny).dom().contains(name),
{
}

/// What is not stripped passes unchanged, and nothing is added.
pub proof fn law_other_names_kept(
    h: Map<Seq<char>, Seq<Seq<u8>>>,
    deny: Seq<Seq<char>>,
    name: Seq<char>,
)
    requires
        !strips(h, deny, name),
    ensures
        filtered(h, deny).dom().contains(name) <==> h.dom().contains(name),
        h.dom().contains(name) ==> filtered(h, deny)[name] == h[name],
{
}

/// Filtering filtered headers changes nothing.
pub proof fn law_filter_idempotent(h: Map<Seq<char>, Seq<Seq<u8>>>, deny: Seq<Seq<char>>)
    ensures
        filtered(filtered(h, deny), deny) == filtered(h, deny),
{
    let once = filtered(h, deny);
    assert(views(hop_by_hop())[0] == "connection"@);
    assert(strips(h, deny, "connection"@));
    assert(!once.dom().contains("connection"@));
    assert(connection_listed(once) == Seq::<Seq<char>>::empty()) by {
        let pieces = items(combined(once, "connection"@));
        assert(pieces =~= seq![Seq::<char>::empty()]);
        assert(pieces.drop_last() =~= Seq::<Seq<char>>::empty());
        reveal_with_fuel(names_in, 2);
    }
    assert(filtered(once, deny) =~= once);
}

/// A header name among the texts is among the names that they denote.
pub(crate) proof fn lemma_names_in(raw: Seq<Seq<char>>, i: int)
    requires
        0 <= i < raw.len(),
        valid_name(raw[i]),
    ensures
        names_in(raw).contains(lower(raw[i])),
    decreases raw.len(),
{
    let before = names_in(raw.drop_last());
    if i == raw.len() - 1 {
        assert(names_in(raw)[before.len() as int] == lower(raw[i]));
    } else {
        lemma_names_in(raw.drop_last(), i);
        let k = choose|k: int| 0 <= k < before.len() && before[k] == lower(raw[i]);
        assert(names_in(raw)[k] == lower(raw[i]));
    }
}

/// Every name that a `Connection` header lists is stripped, whichever of the
/// values under `Connection` lists it.
pub proof fn law_every_connection_value_counts(
    h: Map<Seq<char>, Seq<Seq<u8>>>,
    deny: Seq<Seq<char>>,
    k: int,
    j: int,
)
    requires
        0 <= k < under(h, "connection"@).len(),
        visible(under(h, "connection"@)[k]),
        0 <= j < items(ascii_text(under(h, "connection"@)[k])).len(),
        valid_name(items(ascii_text(under(h, "connection"@)[k]))[j]),
    ensures
        strips(h, deny, lower(items(ascii_text(under(h, "connection"@)[k]))[j])),
{
    let values = under(h, "connection"@);
    let item = items(ascii_text(values[k]))[j];
    let m = lemma_readable(values, k);
    lemma_items_join(readable_texts(values), m, j);
    let all = items(combined(h, "connection"@));
    let i = choose|i: int| 0 <= i < all.len() && all[i] == item;
    lemma_names_in(all, i);
}

} // verus!
