//! Laws of schemes and ports.

use vstd::prelude::*;

use crate::laws::text::{law_split_once, stands};
use crate::text::split_once;
use crate::uri::{known_port, named_scheme};

verus! {

/// Whether a path, a query or a fragment begins with `c`.
pub open spec fn delimits(c: char) -> bool {
    c == '/' || c == '?' || c == '#'
}

/// A text names the scheme that it is written with, as long as nothing in front
/// of `://` begins a path, a query or a fragment.
pub proof fn law_scheme_is_named(scheme: Seq<char>, rest: Seq<char>)
    requires
        forall|i: int| 0 <= i < scheme.len() ==> !delimits(#[trigger] scheme[i]),
    ensures
        named_scheme(scheme + "://"@ + rest) == Some(scheme),
{
    reveal_strlit("://");
    let text = scheme + "://"@ + rest;
    law_split_once(text, "://"@);
    assert(stands(text, "://"@, scheme.len() as int));
    let (before, behind) = split_once(text, "://"@)->Some_0;
    if before.len() < scheme.len() {
        let j = before.len() as int;
        assert(stands(text, "://"@, j));
        assert("://"@[0] == ':' && "://"@[1] == '/');
        assert(text[j + 1] == '/');
        if j + 1 < scheme.len() {
            assert(delimits(scheme[j + 1]));
        } else {
            assert(text[j + 1] == ':');
        }
        assert(false);
    }
    assert(before.len() == scheme.len());
    assert forall|i: int| 0 <= i < before.len() implies before[i] == scheme[i] by {
        assert((before + "://"@ + behind)[i] == before[i]);
        assert(text[i] == scheme[i]);
    }
    assert(before =~= scheme);
    assert forall|i: int| 0 <= i < before.len() implies before[i] != '/' && before[i] != '?'
        && before[i] != '#' by {
        assert(!delimits(scheme[i]));
    }
}

/// A text in which every `://` has a path, a query or a fragment in front of it
/// names no scheme.
pub proof fn law_no_scheme_behind_the_host(text: Seq<char>)
    requires
        forall|j: int| #[trigger]
            stands(text, "://"@, j) ==> exists|i: int| 0 <= i < j && delimits(#[trigger] text[i]),
    ensures
        named_scheme(text) is None,
{
    law_split_once(text, "://"@);
    if let Some((before, behind)) = split_once(text, "://"@) {
        let j = before.len() as int;
        assert(stands(text, "://"@, j));
        let i = choose|i: int| 0 <= i < j && delimits(#[trigger] text[i]);
        assert((before + "://"@ + behind)[i] == before[i]);
        assert(before[i] == text[i]);
    }
}

/// The ports that schemes imply: 80 for the plain web schemes, 443 for the
/// encrypted ones, 21 for `ftp`, and none for any other.
pub proof fn law_known_ports(scheme: Seq<char>)
    ensures
        known_port("http"@) == Some(80u16),
        known_port("ws"@) == Some(80u16),
        known_port("https"@) == Some(443u16),
        known_port("wss"@) == Some(443u16),
        known_port("ftp"@) == Some(21u16),
        scheme != "http"@ && scheme != "ws"@ && scheme != "https"@ && scheme != "wss"@ && scheme
            != "ftp"@ ==> known_port(scheme) is None,
{
    reveal_strlit("http");
    reveal_strlit("ws");
    reveal_strlit("https");
    reveal_strlit("wss");
    reveal_strlit("ftp");
    assert("http"@.len() == 4 && "ws"@.len() == 2 && "https"@.len() == 5 && "wss"@.len() == 3
        && "ftp"@.len() == 3);
    assert("wss"@[0] == 'w' && "ftp"@[0] == 'f');
}

} // verus!
