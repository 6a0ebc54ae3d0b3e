//! Laws of the CORS policy.

use vstd::prelude::*;
use vstd::utf8::{encode_utf8, is_ascii_chars, is_ascii_chars_encode_utf8};

use crate::config::cors::CorsPolicyKind;
use crate::header::{
    ascii_text, first, lemma_dec_plain, lemma_plain_value, lemma_visible_value, no_headers,
    plain_ascii, put, under, valid_value, visible,
};
use crate::laws::redirect::same_under;
use crate::laws::text::{law_decimal, law_lower_forgets_case, law_trim, number, same_but_case};
use crate::message::MethodView;
use crate::proxy::cors::{
    cors_headers, exposed_with, law_other_headers_untouched, law_policy_replaces_upstream,
    law_preflight_says_the_policy, law_response_varies_by_origin, lemma_preflight_names,
    lemma_protocol_names, either, lists_token, made_from, names_header, preflight, preflight_headers, put_opt, with_cors, with_name,
    with_response_cors, with_vary, CorsConfig, CorsPolicyView,
};
use crate::proxy::headers::{views, without};
use crate::text::{
    dec, items, join, lemma_split_append, lemma_split_single, lower, split, texts, trim,
};

verus! {

/// Whether `cfg` lists the origin with this text.
pub open spec fn lists_origin(cfg: CorsConfig, text: Seq<char>) -> bool {
    exists|i: int| 0 <= i < cfg.origins@.len() && (#[trigger] cfg.origins@[i])@ == text
}

/// Whether `cfg` lets in the origin with this text: every one where all are
/// covered, or reflected without a list; one that is listed otherwise.
pub open spec fn lets_in(cfg: CorsConfig, text: Seq<char>) -> bool {
    match cfg.policy {
        CorsPolicyKind::Wildcard => true,
        CorsPolicyKind::Reflect => lists_origin(cfg, text) || (cfg.allow_any_origin
            && cfg.origins@.len() == 0),
        CorsPolicyKind::Explicit => lists_origin(cfg, text),
    }
}

/// The origin that a response names: `*` where all are covered without
/// credentials; the very value of a readable origin that is let in; none
/// otherwise.
pub open spec fn named_origin(cfg: CorsConfig, origin: Option<Seq<u8>>) -> Option<Seq<u8>> {
    if cfg.policy == CorsPolicyKind::Wildcard && !cfg.allow_credentials {
        Some(seq![42u8])
    } else {
        match origin {
            Some(value) => if visible(value) && lets_in(cfg, ascii_text(value)) {
                Some(value)
            } else {
                None
            },
            None => None,
        }
    }
}

proof fn lemma_star()
    ensures
        encode_utf8("*"@) == seq![42u8],
        encode_utf8("true"@) == seq![116u8, 114, 117, 101],
{
    reveal_strlit("*");
    reveal_strlit("true");
    assert(is_ascii_chars("*"@));
    is_ascii_chars_encode_utf8("*"@);
    assert(encode_utf8("*"@)[0] == '*' as u8);
    assert(encode_utf8("*"@) =~= seq![42u8]);
    assert(is_ascii_chars("true"@));
    is_ascii_chars_encode_utf8("true"@);
    assert(encode_utf8("true"@) =~= seq![116u8, 114, 117, 101]);
}

/// Every origin that the configuration lists is let in, under the reflecting
/// and under the explicit policy: the answer names its very value.
pub proof fn law_listed_origins_are_let_in(cfg: CorsConfig, value: Seq<u8>, i: int)
    requires
        cfg.policy == CorsPolicyKind::Reflect || cfg.policy == CorsPolicyKind::Explicit,
        visible(value),
        0 <= i < cfg.origins@.len(),
        cfg.origins@[i]@ == ascii_text(value),
    ensures
        CorsPolicyView::of(cfg).allow_origin(Some(value)) == Some(value),
{
    law_named_origin(cfg, Some(value));
}

/// The answer to a request names its origin exactly as the configuration says.
pub proof fn law_named_origin(cfg: CorsConfig, origin: Option<Seq<u8>>)
    ensures
        CorsPolicyView::of(cfg).allow_origin(origin) == named_origin(cfg, origin),
{
    lemma_star();
    if let Some(value) = origin {
        let text = ascii_text(value);
        let all = texts(cfg.origins@);
        if lists_origin(cfg, text) {
            let i = choose|i: int| 0 <= i < cfg.origins@.len() && (#[trigger] cfg.origins@[i])@ == text;
            assert(all[i] == text);
            assert(all.to_set().contains(text));
        }
        if all.to_set().contains(text) {
            let i = choose|i: int| 0 <= i < all.len() && all[i] == text;
            assert(cfg.origins@[i]@ == text);
        }
    }
}

/// The value of a header that lists `values`, with a comma and a space between
/// neighbours; none where nothing is listed or the list is no header value.
pub open spec fn listing(values: Seq<Seq<char>>) -> Option<Seq<u8>> {
    if values.len() > 0 && valid_value(encode_utf8(join(values, seq![',', ' ']))) {
        Some(encode_utf8(join(values, seq![',', ' '])))
    } else {
        None
    }
}

proof fn lemma_comma()
    ensures
        ", "@ == seq![',', ' '],
{
    reveal_strlit(", ");
    assert(", "@ =~= seq![',', ' ']);
}

/// What a real response says of CORS, whatever the upstream sent: the named
/// origin; the credentials flag exactly where an origin is named and
/// credentials are allowed; the exposed headers; and nothing of preflights.
pub proof fn law_response_headers(
    h: Map<Seq<char>, Seq<Seq<u8>>>,
    req: Map<Seq<char>, Seq<Seq<u8>>>,
    cfg: CorsConfig,
)
    ensures
        ({
            let out = with_response_cors(h, req, CorsPolicyView::of(cfg));
            let origin = named_origin(cfg, first(req, "origin"@));
            &&& origin matches Some(value) ==> under(out, "access-control-allow-origin"@) == seq![
                value,
            ]
            &&& origin is None ==> !out.dom().contains("access-control-allow-origin"@)
            &&& origin is Some && cfg.allow_credentials ==> under(
                out,
                "access-control-allow-credentials"@,
            ) == seq![seq![116u8, 114, 117, 101]]
            &&& origin is None || !cfg.allow_credentials ==> !out.dom().contains(
                "access-control-allow-credentials"@,
            )
            &&& listing(texts(cfg.exposed_headers@)) matches Some(value) ==> under(
                out,
                "access-control-expose-headers"@,
            ) == seq![value]
            &&& listing(texts(cfg.exposed_headers@)) is None ==> !out.dom().contains(
                "access-control-expose-headers"@,
            )
            &&& !out.dom().contains("access-control-allow-methods"@)
            &&& !out.dom().contains("access-control-allow-headers"@)
            &&& !out.dom().contains("access-control-max-age"@)
            &&& !out.dom().contains("access-control-allow-private-network"@)
        }),
{
    let policy = CorsPolicyView::of(cfg);
    law_named_origin(cfg, first(req, "origin"@));
    law_policy_replaces_upstream(h, req, policy);
    lemma_star();
    lemma_comma();
    lemma_protocol_names();
    let names = views(cors_headers());
    assert(names[0] == "access-control-allow-origin"@);
    assert(names[1] == "access-control-allow-credentials"@);
    assert(names[2] == "access-control-expose-headers"@);
    let bare = without(h, names);
    assert forall|i: int| 0 <= i < names.len() implies !bare.dom().contains(#[trigger] names[i])
        && names[i] != "vary"@ by {}
}

/// Every other header of a real response stays as the upstream sent it.
pub proof fn law_response_keeps_the_rest(
    h: Map<Seq<char>, Seq<Seq<u8>>>,
    req: Map<Seq<char>, Seq<Seq<u8>>>,
    policy: CorsPolicyView,
    name: Seq<char>,
)
    requires
        name != "vary"@,
        name != "access-control-allow-origin"@,
        name != "access-control-allow-credentials"@,
        name != "access-control-expose-headers"@,
        name != "access-control-allow-methods"@,
        name != "access-control-allow-headers"@,
        name != "access-control-max-age"@,
        name != "access-control-allow-private-network"@,
    ensures
        same_under(with_response_cors(h, req, policy), h, name),
{
    let names = views(cors_headers());
    assert(names[0] == "access-control-allow-origin"@);
    assert(names[1] == "access-control-allow-credentials"@);
    assert(names[2] == "access-control-expose-headers"@);
    assert(names[3] == "access-control-allow-methods"@);
    assert(names[4] == "access-control-allow-headers"@);
    assert(names[5] == "access-control-max-age"@);
    assert(names[6] == "access-control-allow-private-network"@);
    if names.contains(name) {
        let i = choose|i: int| 0 <= i < names.len() && names[i] == name;
        assert(i == 0 || i == 1 || i == 2 || i == 3 || i == 4 || i == 5 || i == 6);
    }
    law_other_headers_untouched(h, req, policy, name);
}

/// Whether a comma-separated text has `token` among its items, in whatever
/// case.
pub open spec fn has_item(text: Seq<char>, token: Seq<char>) -> bool {
    exists|i: int| 0 <= i < items(text).len() && same_but_case(#[trigger] items(text)[i], token)
}

proof fn lemma_has_item(text: Seq<char>, token: Seq<char>)
    ensures
        lists_token(text, token) <==> has_item(text, token),
{
    let pieces = split(text, ',');
    assert(items(text).len() == pieces.len());
    if lists_token(text, token) {
        let i = choose|i: int|
            0 <= i < pieces.len() && lower(trim(#[trigger] pieces[i]))
                == lower(token);
        law_lower_forgets_case(trim(pieces[i]), token);
        assert(same_but_case(items(text)[i], token));
    }
    if has_item(text, token) {
        let i = choose|i: int| 0 <= i < items(text).len() && same_but_case(
            #[trigger] items(text)[i],
            token,
        );
        law_lower_forgets_case(trim(pieces[i]), token);
        assert(lower(trim(pieces[i])) == lower(token));
    }
}

/// Adding a name to `vary`: where there is no `vary`, the name is its value;
/// where it can be read and lacks the name, in whatever case, the name comes
/// behind what it says; otherwise nothing changes. No other header does.
pub proof fn law_vary(h: Map<Seq<char>, Seq<Seq<u8>>>, token: Seq<char>, name: Seq<char>)
    requires
        plain_ascii(token),
    ensures
        ({
            let out = with_vary(h, token);
            &&& name != "vary"@ ==> same_under(out, h, name)
            &&& match first(h, "vary"@) {
                None => under(out, "vary"@) == seq![encode_utf8(token)],
                Some(v) => if visible(v) && !has_item(ascii_text(v), token) {
                    &&& under(out, "vary"@).len() == 1
                    &&& visible(under(out, "vary"@)[0])
                    &&& ascii_text(under(out, "vary"@)[0]) == ascii_text(v) + seq![',', ' '] + token
                } else {
                    out == h
                },
            }
        }),
{
    lemma_comma();
    if let Some(v) = first(h, "vary"@) {
        lemma_has_item(ascii_text(v), token);
        if visible(v) {
            lemma_visible_value(v);
            let combined = ascii_text(v) + ", "@ + token;
            assert(plain_ascii(combined)) by {
                assert forall|i: int| 0 <= i < combined.len() implies (' ' <= #[trigger] combined[i]
                    && combined[i] <= '~') || combined[i] == '\t' by {
                    if i < ascii_text(v).len() {
                        assert(combined[i] == ascii_text(v)[i]);
                    } else if i >= ascii_text(v).len() + 2 {
                        assert(combined[i] == token[i - ascii_text(v).len() - 2]);
                    }
                }
            }
            lemma_plain_value(combined);
        }
    }
}

/// Every answer, to a preflight or not, says that it varies by origin, unless a
/// `vary` of the upstream cannot be read.
pub proof fn law_answers_vary_by_origin(
    h: Map<Seq<char>, Seq<Seq<u8>>>,
    req: Map<Seq<char>, Seq<Seq<u8>>>,
    policy: CorsPolicyView,
)
    requires
        first(h, "vary"@) matches Some(v) ==> visible(v),
    ensures
        first(with_response_cors(h, req, policy), "vary"@) matches Some(v) && visible(v) && has_item(
            ascii_text(v),
            "origin"@,
        ),
{
    law_response_varies_by_origin(h, req, policy);
    let v = first(with_response_cors(h, req, policy), "vary"@)->Some_0;
    lemma_has_item(ascii_text(v), "origin"@);
}

/// What the answer to a preflight says: the named origin, and credentials with
/// it where they are allowed; the methods and the headers that are listed, or
/// else those asked for; the whole seconds for which it may be cached; the
/// private network exactly where it is switched on and asked for; and nothing
/// else but what it varies by.
pub proof fn law_preflight_headers(
    req: Map<Seq<char>, Seq<Seq<u8>>>,
    cfg: CorsConfig,
    name: Seq<char>,
)
    ensures
        ({
            let out = preflight_headers(req, CorsPolicyView::of(cfg));
            let origin = named_origin(cfg, first(req, "origin"@));
            &&& first(out, "access-control-allow-origin"@) == origin
            &&& first(out, "access-control-allow-credentials"@) == if origin is Some
                && cfg.allow_credentials {
                Some(seq![116u8, 114, 117, 101])
            } else {
                None
            }
            &&& first(out, "access-control-allow-methods"@) == match listing(
                texts(cfg.allowed_methods@),
            ) {
                Some(value) => Some(value),
                None => first(req, "access-control-request-method"@),
            }
            &&& first(out, "access-control-allow-headers"@) == match listing(
                texts(cfg.allowed_headers@),
            ) {
                Some(value) => Some(value),
                None => first(req, "access-control-request-headers"@),
            }
            &&& first(out, "access-control-allow-private-network"@) == if cfg.allow_private_network
                && req.dom().contains("access-control-request-private-network"@) {
                Some(seq![116u8, 114, 117, 101])
            } else {
                None
            }
            &&& first(out, "access-control-max-age"@) matches Some(v) && visible(v) && {
                let secs = number(ascii_text(v), 10);
                secs * 1_000_000_000 <= cfg.max_age.spec_nanos() < (secs + 1) * 1_000_000_000
            }
            &&& name != "vary"@ && name != "access-control-allow-origin"@ && name
                != "access-control-allow-credentials"@ && name != "access-control-allow-methods"@
                && name != "access-control-allow-headers"@ && name != "access-control-max-age"@
                && name != "access-control-allow-private-network"@ ==> !out.dom().contains(name)
        }),
{
    let policy = CorsPolicyView::of(cfg);
    law_named_origin(cfg, first(req, "origin"@));
    law_preflight_says_the_policy(req, policy);
    lemma_star();
    lemma_comma();
    lemma_preflight_names();
    let names = seq![
        "vary"@,
        "access-control-allow-origin"@,
        "access-control-allow-credentials"@,
        "access-control-allow-methods"@,
        "access-control-allow-headers"@,
        "access-control-max-age"@,
        "access-control-allow-private-network"@,
    ];
    assert forall|i: int, j: int| 0 <= i < 7 && 0 <= j < 7 && i != j implies #[trigger] names[i]
        != #[trigger] names[j] by {}
    assert(names[0] == "vary"@ && names[1] == "access-control-allow-origin"@ && names[2]
        == "access-control-allow-credentials"@ && names[3] == "access-control-allow-methods"@
        && names[4] == "access-control-allow-headers"@ && names[5] == "access-control-max-age"@
        && names[6] == "access-control-allow-private-network"@);
    let secs = cfg.max_age.spec_secs();
    law_decimal(secs);
    lemma_dec_plain(secs);
    lemma_plain_value(dec(secs));
}

/// One item, or two with a comma and a space between them, are no longer than
/// they are written.
proof fn lemma_two_items(a: Seq<char>, b: Seq<char>)
    requires
        !a.contains(','),
        !b.contains(','),
    ensures
        items(a).len() == 1,
        items(a)[0].len() <= a.len(),
        items(a + seq![',', ' '] + b).len() == 2,
        items(a + seq![',', ' '] + b)[0].len() <= a.len(),
        items(a + seq![',', ' '] + b)[1].len() <= b.len(),
{
    let piece = seq![' '] + b;
    assert forall|i: int| 0 <= i < piece.len() implies piece[i] != ',' by {
        if i > 0 {
            assert(piece[i] == b[i - 1]);
        }
    }
    lemma_split_single(a, ',');
    lemma_split_append(a, piece, ',');
    let text = a + seq![',', ' '] + b;
    assert(text =~= a + seq![','] + piece);
    let cut = law_trim(a);
    let cut2 = law_trim(piece);
    if trim(piece).len() == piece.len() {
        assert(trim(piece)[0] == ' ');
        assert(false);
    }
}

/// The items of the text that a preflight answer varies by.
proof fn lemma_vary_items()
    ensures
        !has_item("origin"@, "access-control-request-method"@),
        !has_item(
            "origin"@ + seq![',', ' '] + "access-control-request-method"@,
            "access-control-request-headers"@,
        ),
        plain_ascii("origin"@),
        plain_ascii("access-control-request-method"@),
        plain_ascii("access-control-request-headers"@),
{
    reveal_strlit("origin");
    reveal_strlit("access-control-request-method");
    reveal_strlit("access-control-request-headers");
    lemma_two_items("origin"@, "access-control-request-method"@);
}

/// The answer to a preflight varies by the origin, and by the method and the
/// headers asked for.
pub proof fn law_preflight_varies(req: Map<Seq<char>, Seq<Seq<u8>>>, policy: CorsPolicyView)
    ensures
        first(preflight_headers(req, policy), "vary"@) matches Some(v) && visible(v) && ascii_text(v)
            == "origin"@ + seq![',', ' '] + "access-control-request-method"@ + seq![',', ' ']
            + "access-control-request-headers"@,
{
    lemma_preflight_names();
    lemma_vary_items();
    let names = seq![
        "vary"@,
        "access-control-allow-origin"@,
        "access-control-allow-credentials"@,
        "access-control-allow-methods"@,
        "access-control-allow-headers"@,
        "access-control-max-age"@,
        "access-control-allow-private-network"@,
    ];
    assert forall|i: int, j: int| 0 <= i < 7 && 0 <= j < 7 && i != j implies #[trigger] names[i]
        != #[trigger] names[j] by {}
    assert(names[0] == "vary"@ && names[1] == "access-control-allow-origin"@ && names[2]
        == "access-control-allow-credentials"@ && names[3] == "access-control-allow-methods"@
        && names[4] == "access-control-allow-headers"@ && names[5] == "access-control-max-age"@
        && names[6] == "access-control-allow-private-network"@);
    let base = with_cors(no_headers(), req, policy);
    lemma_plain_value("origin"@);
    assert(first(base, "vary"@) == Some(encode_utf8("origin"@)));
    let methods = put_opt(
        base,
        "access-control-allow-methods"@,
        either(policy.allowed_methods, first(req, "access-control-request-method"@)),
    );
    let headers = put_opt(
        methods,
        "access-control-allow-headers"@,
        either(policy.allowed_headers, first(req, "access-control-request-headers"@)),
    );
    let aged = put_opt(headers, "access-control-max-age"@, policy.max_age_value);
    let private = if policy.allow_private_network && req.dom().contains(
        "access-control-request-private-network"@,
    ) {
        put(aged, "access-control-allow-private-network"@, encode_utf8("true"@))
    } else {
        aged
    };
    assert(first(private, "vary"@) == first(base, "vary"@));
    law_vary(private, "access-control-request-method"@, "vary"@);
    let once = with_vary(private, "access-control-request-method"@);
    law_vary(once, "access-control-request-headers"@, "vary"@);
}

/// The headers that scripts may read: those that the operator lists, and behind
/// them the error status and the request identifier, each unless it is listed in
/// whatever case.
pub proof fn law_exposed_headers(names: Seq<Seq<char>>)
    ensures
        ({
            let status_listed = exists|i: int|
                0 <= i < names.len() && same_but_case(#[trigger] names[i], "x-corx-status"@);
            let id_listed = exists|i: int|
                0 <= i < names.len() && same_but_case(#[trigger] names[i], "x-request-id"@);
            exposed_with(names) == names + (if status_listed {
                Seq::empty()
            } else {
                seq!["x-corx-status"@]
            }) + (if id_listed {
                Seq::empty()
            } else {
                seq!["x-request-id"@]
            })
        }),
{
    reveal_strlit("x-corx-status");
    reveal_strlit("x-request-id");
    let status = "x-corx-status"@;
    let id = "x-request-id"@;
    assert(status.len() == 13 && id.len() == 12);
    lemma_names_header(names, status);
    lemma_names_header(names, id);
    let one = with_name(names, status);
    lemma_names_header(one, id);
    if exists|i: int| 0 <= i < names.len() && same_but_case(#[trigger] names[i], id) {
        let i = choose|i: int| 0 <= i < names.len() && same_but_case(#[trigger] names[i], id);
        assert(one[i] == names[i]);
        assert(names_header(one, id));
    }
    if names_header(one, id) {
        let i = choose|i: int| 0 <= i < one.len() && same_but_case(#[trigger] one[i], id);
        if i == names.len() {
            assert(one[i].len() == 13);
        }
        assert(same_but_case(names[i], id));
    }
    let status_listed = exists|i: int|
        0 <= i < names.len() && same_but_case(#[trigger] names[i], status);
    let id_listed = exists|i: int| 0 <= i < names.len() && same_but_case(#[trigger] names[i], id);
    assert(exposed_with(names) =~= names + (if status_listed {
        Seq::empty()
    } else {
        seq![status]
    }) + (if id_listed {
        Seq::empty()
    } else {
        seq![id]
    }));
}

proof fn lemma_names_header(names: Seq<Seq<char>>, name: Seq<char>)
    ensures
        names_header(names, name) <==> exists|i: int|
            0 <= i < names.len() && same_but_case(#[trigger] names[i], name),
{
    if names_header(names, name) {
        let i = choose|i: int| 0 <= i < names.len() && lower(#[trigger] names[i]) == lower(name);
        law_lower_forgets_case(names[i], name);
        assert(same_but_case(names[i], name));
    }
    if exists|i: int| 0 <= i < names.len() && same_but_case(#[trigger] names[i], name) {
        let i = choose|i: int| 0 <= i < names.len() && same_but_case(#[trigger] names[i], name);
        law_lower_forgets_case(names[i], name);
        assert(lower(names[i]) == lower(name));
    }
}

/// Whether one of `list` is `text`.
pub open spec fn is_listed(list: Seq<String>, text: Seq<char>) -> bool {
    exists|i: int| 0 <= i < list.len() && (#[trigger] list[i])@ == text
}

proof fn lemma_same_lists(a: Seq<String>, b: Seq<String>, text: Seq<char>)
    requires
        texts(a) == texts(b),
    ensures
        a.len() == b.len(),
        is_listed(a, text) ==> is_listed(b, text),
{
    assert(texts(a).len() == a.len() && texts(b).len() == b.len());
    if is_listed(a, text) {
        let i = choose|i: int| 0 <= i < a.len() && (#[trigger] a[i])@ == text;
        assert(texts(a)[i] == a[i]@ && texts(b)[i] == b[i]@);
        assert(b[i]@ == text);
    }
}

/// Which origins the configuration file lets in: under the reflecting policy
/// those of its allow list, or any readable one where that is empty; under the
/// explicit policy those that it lists, and no other.
pub proof fn law_configured_origins(
    made: CorsConfig,
    cfg: crate::config::cors::CorsConfig,
    value: Seq<u8>,
)
    requires
        made_from(made, cfg),
        visible(value),
    ensures
        cfg.policy == CorsPolicyKind::Reflect ==> CorsPolicyView::of(made).allow_origin(Some(value))
            == if is_listed(cfg.allowlist@, ascii_text(value)) || cfg.allowlist@.len() == 0 {
            Some(value)
        } else {
            None
        },
        cfg.policy == CorsPolicyKind::Explicit ==> CorsPolicyView::of(made).allow_origin(Some(value))
            == if is_listed(cfg.explicit@, ascii_text(value)) {
            Some(value)
        } else {
            None
        },
{
    law_named_origin(made, Some(value));
    let text = ascii_text(value);
    assert(lists_origin(made, text) <==> is_listed(made.origins@, text));
    if cfg.policy == CorsPolicyKind::Reflect {
        lemma_same_lists(made.origins@, cfg.allowlist@, text);
        lemma_same_lists(cfg.allowlist@, made.origins@, text);
    }
    if cfg.policy == CorsPolicyKind::Explicit {
        lemma_same_lists(made.origins@, cfg.explicit@, text);
        lemma_same_lists(cfg.explicit@, made.origins@, text);
    }
}

/// What the configuration file says of credentials, of the private network, of
/// caching and of the lists reaches the responses.
pub proof fn law_configured_answers(
    made: CorsConfig,
    cfg: crate::config::cors::CorsConfig,
    h: Map<Seq<char>, Seq<Seq<u8>>>,
    req: Map<Seq<char>, Seq<Seq<u8>>>,
)
    requires
        made_from(made, cfg),
    ensures
        made.policy == cfg.policy,
        made.allow_credentials == cfg.allow_credentials,
        made.allow_private_network == cfg.allow_private_network,
        made.max_age == cfg.max_age,
        listing(texts(cfg.allowed_methods@)) matches Some(value) ==> first(
            preflight_headers(req, CorsPolicyView::of(made)),
            "access-control-allow-methods"@,
        ) == Some(value),
        listing(texts(cfg.allowed_headers@)) matches Some(value) ==> first(
            preflight_headers(req, CorsPolicyView::of(made)),
            "access-control-allow-headers"@,
        ) == Some(value),
        listing(exposed_with(texts(cfg.exposed_headers@))) matches Some(value) ==> under(
            with_response_cors(h, req, CorsPolicyView::of(made)),
            "access-control-expose-headers"@,
        ) == seq![value],
{
    law_preflight_headers(req, made, "vary"@);
    law_response_headers(h, req, made);
}

/// A request is a preflight exactly where it is an `OPTIONS` request that names
/// an origin and asks for a method.
pub proof fn law_preflights(method: MethodView, h: Map<Seq<char>, Seq<Seq<u8>>>)
    ensures
        preflight(method, h) <==> method == MethodView::Options && first(h, "origin"@) is Some
            && first(h, "access-control-request-method"@) is Some,
{
}

} // verus!
