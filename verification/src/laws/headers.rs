//! Laws of the header filter.

use vstd::prelude::*;

use crate::header::{ascii_text, combined, lemma_readable, readable_texts, under, valid_name, visible};
use crate::laws::redirect::same_under;
use crate::proxy::headers::{
    connection_listed, filtered, hop_by_hop, lemma_names_in, names_in, views, without,
};
use crate::text::{items, join, lemma_items_concat, lemma_items_join, lower};

verus! {

/// Whether a header never crosses a proxy.
pub open spec fn belongs_to_one_hop(name: Seq<char>) -> bool {
    ||| name == "connection"@
    ||| name == "keep-alive"@
    ||| name == "proxy-authenticate"@
    ||| name == "proxy-authorization"@
    ||| name == "te"@
    ||| name == "trailer"@
    ||| name == "transfer-encoding"@
    ||| name == "upgrade"@
    ||| name == "proxy-connection"@
}

/// Whether `name` is the lower case of a header name among `raw`.
pub open spec fn denoted(raw: Seq<Seq<char>>, name: Seq<char>) -> bool {
    exists|i: int| 0 <= i < raw.len() && valid_name(#[trigger] raw[i]) && lower(raw[i]) == name
}

/// Whether an item of some readable `connection` value is the header `name`.
pub open spec fn listed_by_connection(h: Map<Seq<char>, Seq<Seq<u8>>>, name: Seq<char>) -> bool {
    exists|k: int|
        0 <= k < under(h, "connection"@).len() && visible(#[trigger] under(h, "connection"@)[k])
            && denoted(items(ascii_text(under(h, "connection"@)[k])), name)
}

proof fn lemma_one_hop(name: Seq<char>)
    ensures
        views(hop_by_hop()).contains(name) <==> belongs_to_one_hop(name),
{
    let all = views(hop_by_hop());
    assert(all.len() == 9);
    assert(all[0] == "connection"@);
    assert(all[1] == "keep-alive"@);
    assert(all[2] == "proxy-authenticate"@);
    assert(all[3] == "proxy-authorization"@);
    assert(all[4] == "te"@);
    assert(all[5] == "trailer"@);
    assert(all[6] == "transfer-encoding"@);
    assert(all[7] == "upgrade"@);
    assert(all[8] == "proxy-connection"@);
    if all.contains(name) {
        let i = choose|i: int| 0 <= i < all.len() && all[i] == name;
        assert(i == 0 || i == 1 || i == 2 || i == 3 || i == 4 || i == 5 || i == 6 || i == 7 || i == 8);
    }
}

/// A list of names holds exactly the lower case of what is a header name in it.
pub proof fn law_names(raw: Seq<Seq<char>>, name: Seq<char>)
    ensures
        names_in(raw).contains(name) <==> denoted(raw, name),
    decreases raw.len(),
{
    if denoted(raw, name) {
        let i = choose|i: int|
            0 <= i < raw.len() && valid_name(#[trigger] raw[i]) && lower(raw[i]) == name;
        lemma_names_in(raw, i);
    }
    if raw.len() > 0 && names_in(raw).contains(name) {
        let rest = raw.drop_last();
        law_names(rest, name);
        let k = choose|k: int| 0 <= k < names_in(raw).len() && names_in(raw)[k] == name;
        if k < names_in(rest).len() {
            assert(names_in(rest)[k] == name);
            let i = choose|i: int|
                0 <= i < rest.len() && valid_name(#[trigger] rest[i]) && lower(rest[i]) == name;
            assert(raw[i] == rest[i]);
        } else {
            assert(valid_name(raw[raw.len() - 1]));
        }
    }
}

proof fn lemma_item_of_part(parts: Seq<Seq<char>>, i: int) -> (place: (int, int))
    requires
        parts.len() > 0,
        0 <= i < items(join(parts, ", "@)).len(),
    ensures
        0 <= place.0 < parts.len(),
        0 <= place.1 < items(parts[place.0]).len(),
        items(parts[place.0])[place.1] == items(join(parts, ", "@))[i],
    decreases parts.len(),
{
    if parts.len() == 1 {
        (0, i)
    } else {
        let before = join(parts.drop_last(), ", "@);
        lemma_items_concat(before, parts.last());
        if i < items(before).len() {
            lemma_item_of_part(parts.drop_last(), i)
        } else {
            (parts.len() - 1, i - items(before).len())
        }
    }
}

proof fn lemma_text_of_value(values: Seq<Seq<u8>>, m: int) -> (k: int)
    requires
        0 <= m < readable_texts(values).len(),
    ensures
        0 <= k < values.len(),
        visible(values[k]),
        ascii_text(values[k]) == readable_texts(values)[m],
    decreases values.len(),
{
    let rest = values.drop_last();
    if m < readable_texts(rest).len() {
        lemma_text_of_value(rest, m)
    } else {
        values.len() - 1
    }
}

/// What the `connection` headers list is every header name among the items of
/// every readable value, in lower case, and nothing else.
pub proof fn law_connection_lists(h: Map<Seq<char>, Seq<Seq<u8>>>, name: Seq<char>)
    ensures
        connection_listed(h).contains(name) <==> listed_by_connection(h, name),
        without(h, connection_listed(h)).dom().contains(name) <==> (h.dom().contains(name)
            && !listed_by_connection(h, name)),
{
    let values = under(h, "connection"@);
    let parts = readable_texts(values);
    let all = items(combined(h, "connection"@));
    law_names(all, name);
    if listed_by_connection(h, name) {
        let k = choose|k: int|
            0 <= k < values.len() && visible(#[trigger] values[k]) && denoted(
                items(ascii_text(values[k])),
                name,
            );
        let own = items(ascii_text(values[k]));
        let j = choose|j: int|
            0 <= j < own.len() && valid_name(#[trigger] own[j]) && lower(own[j]) == name;
        let m = lemma_readable(values, k);
        lemma_items_join(parts, m, j);
        let i = choose|i: int| 0 <= i < all.len() && all[i] == own[j];
        assert(valid_name(all[i]));
    }
    if denoted(all, name) {
        let i = choose|i: int|
            0 <= i < all.len() && valid_name(#[trigger] all[i]) && lower(all[i]) == name;
        if parts.len() == 0 {
            let none = Seq::<char>::empty();
            assert(combined(h, "connection"@) =~= none);
            assert(items(none) =~= seq![none]);
            assert(all[i].len() == 0);
        } else {
            let place = lemma_item_of_part(parts, i);
            let k = lemma_text_of_value(values, place.0);
            let own = items(ascii_text(values[k]));
            assert(valid_name(own[place.1]));
            assert(denoted(own, name));
        }
    }
}

/// The filter takes away the nine headers that belong to one hop, what the
/// `connection` headers list, and what the operator denies, in whatever case;
/// every other header passes as it is, and none is added.
pub proof fn law_filter(
    h: Map<Seq<char>, Seq<Seq<u8>>>,
    denied: Seq<Seq<char>>,
    name: Seq<char>,
)
    ensures
        ({
            let stripped = belongs_to_one_hop(name) || listed_by_connection(h, name) || denoted(
                denied,
                name,
            );
            let out = filtered(h, names_in(denied));
            &&& stripped ==> !out.dom().contains(name)
            &&& !stripped ==> same_under(out, h, name)
        }),
{
    lemma_one_hop(name);
    law_connection_lists(h, name);
    law_names(denied, name);
}

/// The values that can be read as text.
pub open spec fn can_be_read() -> spec_fn(Seq<u8>) -> bool {
    |v: Seq<u8>| visible(v)
}

/// The text of a value.
pub open spec fn its_text() -> spec_fn(Seq<u8>) -> Seq<char> {
    |v: Seq<u8>| ascii_text(v)
}

/// What is read of the values of a header is the text of every one that can be
/// read, in order, with a comma and a space between neighbours.
pub proof fn law_what_is_read(h: Map<Seq<char>, Seq<Seq<u8>>>, name: Seq<char>)
    ensures
        readable_texts(under(h, name)) == under(h, name).filter(can_be_read()).map_values(
            its_text(),
        ),
        combined(h, name) == join(
            under(h, name).filter(can_be_read()).map_values(its_text()),
            seq![',', ' '],
        ),
{
    reveal_strlit(", ");
    assert(", "@ =~= seq![',', ' ']);
    lemma_readable_is_filter(under(h, name));
}

proof fn lemma_readable_is_filter(values: Seq<Seq<u8>>)
    ensures
        readable_texts(values) == values.filter(can_be_read()).map_values(its_text()),
    decreases values.len(),
{
    reveal(Seq::filter);
    if values.len() > 0 {
        let rest = values.drop_last();
        lemma_readable_is_filter(rest);
        let kept = rest.filter(can_be_read());
        if visible(values.last()) {
            assert(kept.push(values.last()).map_values(its_text()) =~= kept.map_values(
                its_text(),
            ).push(ascii_text(values.last())));
        }
    } else {
        assert(readable_texts(values) =~= values.filter(can_be_read()).map_values(its_text()));
    }
}

} // verus!
