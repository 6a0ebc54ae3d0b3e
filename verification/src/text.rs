//! Text operations on character sequences.
//!
//! Every operation is stated over the `Seq<char>` view of a string and is
//! proved against that statement.

use vstd::prelude::*;

verus! {

/// `String::push` appends one character at the end.
pub assume_specification[ String::push ](s: &mut String, c: char)
    ensures
        final(s)@ == old(s)@.push(c),
;

/// `char::is_whitespace` tests the Unicode `White_Space` property.
pub assume_specification[ char::is_whitespace ](c: char) -> (r: bool)
    ensures
        r == is_white(c),
;

/// `str == str` holds when both hold the same characters.
#[verifier::external_body]
pub(crate) fn same_text(a: &str, b: &str) -> (r: bool)
    ensures
        r == (a@ == b@),
{
    a == b
}

/// The code points with the Unicode `White_Space` property.
pub open spec fn is_white(c: char) -> bool {
    let n = c as u32;
    ||| 0x09 <= n <= 0x0d
    ||| n == 0x20
    ||| n == 0x85
    ||| n == 0xa0
    ||| n == 0x1680
    ||| 0x2000 <= n <= 0x200a
    ||| n == 0x2028
    ||| n == 0x2029
    ||| n == 0x202f
    ||| n == 0x205f
    ||| n == 0x3000
}

/// The views of a sequence of strings.
pub open spec fn texts(v: Seq<String>) -> Seq<Seq<char>> {
    v.map_values(|s: String| s@)
}

/// ASCII lower case of one character; anything else is unchanged.
pub open spec fn lower_char(c: char) -> char {
    if 'A' <= c && c <= 'Z' {
        ((c as u8) + 32) as u8 as char
    } else {
        c
    }
}

/// ASCII lower case of a text.
pub open spec fn lower(s: Seq<char>) -> Seq<char> {
    s.map_values(|c: char| lower_char(c))
}

/// `s` without its leading white space.
pub open spec fn trim_start(s: Seq<char>) -> Seq<char>
    decreases s.len(),
{
    if s.len() > 0 && is_white(s[0]) {
        trim_start(s.drop_first())
    } else {
        s
    }
}

/// `s` without its trailing white space.
pub open spec fn trim_end(s: Seq<char>) -> Seq<char>
    decreases s.len(),
{
    if s.len() > 0 && is_white(s.last()) {
        trim_end(s.drop_last())
    } else {
        s
    }
}

/// `s` without leading and trailing white space.
pub open spec fn trim(s: Seq<char>) -> Seq<char> {
    trim_end(trim_start(s))
}

/// `s` without the leading characters equal to `c`.
pub open spec fn skip_leading(s: Seq<char>, c: char) -> Seq<char>
    decreases s.len(),
{
    if s.len() > 0 && s[0] == c {
        skip_leading(s.drop_first(), c)
    } else {
        s
    }
}

/// The pieces of `s` between the separators `sep`: one more piece than there
/// are separators.
pub open spec fn split(s: Seq<char>, sep: char) -> Seq<Seq<char>>
    decreases s.len(),
{
    if s.len() == 0 {
        seq![Seq::empty()]
    } else {
        let before = split(s.drop_last(), sep);
        if s.last() == sep {
            before.push(Seq::empty())
        } else {
            before.drop_last().push(before.last().push(s.last()))
        }
    }
}

/// Whether `pat` stands in `s` at position `i`.
pub open spec fn matches_at(s: Seq<char>, pat: Seq<char>, i: int) -> bool {
    0 <= i && i + pat.len() <= s.len() && s.subrange(i, i + pat.len()) == pat
}

/// The first position at or after `i` at which `pat` stands in `s`.
pub open spec fn find_from(s: Seq<char>, pat: Seq<char>, i: int) -> Option<int>
    decreases s.len() + 1 - i,
{
    if i < 0 || i + pat.len() > s.len() {
        None
    } else if matches_at(s, pat, i) {
        Some(i)
    } else {
        find_from(s, pat, i + 1)
    }
}

/// The first position at which `pat` stands in `s`.
pub open spec fn find(s: Seq<char>, pat: Seq<char>) -> Option<int> {
    find_from(s, pat, 0)
}

/// `s` cut at the first occurrence of `pat`, which belongs to neither part.
pub open spec fn split_once(s: Seq<char>, pat: Seq<char>) -> Option<(Seq<char>, Seq<char>)> {
    match find(s, pat) {
        Some(i) => Some((s.take(i), s.skip(i + pat.len()))),
        None => None,
    }
}

/// Whether `s` begins with `prefix`.
pub open spec fn has_prefix(s: Seq<char>, prefix: Seq<char>) -> bool {
    prefix.len() <= s.len() && s.take(prefix.len() as int) == prefix
}

/// What follows the last `c` in `s`.
pub open spec fn after_last(s: Seq<char>, c: char) -> Option<Seq<char>>
    decreases s.len(),
{
    if s.len() == 0 {
        None
    } else if s.last() == c {
        Some(Seq::empty())
    } else {
        match after_last(s.drop_last(), c) {
            Some(t) => Some(t.push(s.last())),
            None => None,
        }
    }
}

/// The texts of `parts` with `sep` between neighbours.
pub open spec fn join(parts: Seq<Seq<char>>, sep: Seq<char>) -> Seq<char>
    decreases parts.len(),
{
    if parts.len() == 0 {
        Seq::empty()
    } else if parts.len() == 1 {
        parts[0]
    } else {
        join(parts.drop_last(), sep) + sep + parts.last()
    }
}

/// The digit of value `d` in bases up to sixteen, in lower case.
pub open spec fn digit(d: nat) -> char {
    if d < 10 {
        (48 + d) as u8 as char
    } else {
        (87 + d) as u8 as char
    }
}

/// `n` in decimal notation.
pub open spec fn dec(n: nat) -> Seq<char>
    decreases n,
{
    if n < 10 {
        seq![digit(n)]
    } else {
        dec(n / 10).push(digit(n % 10))
    }
}

/// `n` in lower-case hexadecimal notation.
pub open spec fn hex(n: nat) -> Seq<char>
    decreases n,
{
    if n < 16 {
        seq![digit(n)]
    } else {
        hex(n / 16).push(digit(n % 16))
    }
}

/// The characters of `s`.
pub fn to_chars(s: &str) -> (r: Vec<char>)
    ensures
        r@ == s@,
{
    let mut out: Vec<char> = Vec::new();
    for c in it: s.chars()
        invariant
            out@ == it.seq().take(it.index()),
            it.seq() == s@,
    {
        out.push(c);
    }
    out
}

/// The string that holds the characters from `from` up to `to`.
pub fn from_chars(v: &Vec<char>, from: usize, to: usize) -> (r: String)
    requires
        from <= to <= v@.len(),
    ensures
        r@ == v@.subrange(from as int, to as int),
{
    let mut out = String::new();
    let mut i: usize = from;
    while i < to
        invariant
            from <= i <= to <= v@.len(),
            out@ == v@.subrange(from as int, i as int),
        decreases to - i,
    {
        out.push(v[i]);
        i += 1;
    }
    out
}

/// ASCII lower case of `s`.
pub fn to_ascii_lowercase(s: &str) -> (r: String)
    ensures
        r@ == lower(s@),
{
    let mut out = String::new();
    for c in it: s.chars()
        invariant
            it.seq() == s@,
            out@ == lower(it.seq().take(it.index())),
    {
        let low: char = if 'A' <= c && c <= 'Z' {
            (c as u8 + 32) as char
        } else {
            c
        };
        proof {
            let n = it.index();
            assert(s@.take(n + 1) == s@.take(n).push(c));
        }
        out.push(low);
    }
    proof {
        assert(s@.take(s@.len() as int) == s@);
    }
    out
}

/// Whether `a` and `b` are equal up to ASCII case.
pub fn eq_ignore_ascii_case(a: &str, b: &str) -> (r: bool)
    ensures
        r == (lower(a@) == lower(b@)),
{
    let x = to_ascii_lowercase(a);
    let y = to_ascii_lowercase(b);
    x == y
}

proof fn lemma_trim_start_skip(s: Seq<char>, i: int)
    requires
        0 <= i <= s.len(),
        forall|j: int| 0 <= j < i ==> is_white(#[trigger] s[j]),
        i < s.len() ==> !is_white(s[i]),
    ensures
        trim_start(s) == s.skip(i),
    decreases i,
{
    if i == 0 {
        assert(s.skip(0) == s);
    } else {
        assert(is_white(s[0]));
        lemma_trim_start_skip(s.drop_first(), i - 1);
        assert(s.drop_first().skip(i - 1) == s.skip(i));
    }
}

proof fn lemma_trim_end_take(s: Seq<char>, i: int)
    requires
        0 <= i <= s.len(),
        forall|j: int| i <= j < s.len() ==> is_white(#[trigger] s[j]),
        0 < i ==> !is_white(s[i - 1]),
    ensures
        trim_end(s) == s.take(i),
    decreases s.len() - i,
{
    if i == s.len() {
        assert(s.take(i) == s);
    } else {
        assert(is_white(s[s.len() - 1]));
        lemma_trim_end_take(s.drop_last(), i);
        assert(s.drop_last().take(i) == s.take(i));
    }
}

/// `s` without leading and trailing white space.
pub fn trimmed(s: &str) -> (r: String)
    ensures
        r@ == trim(s@),
{
    let v = to_chars(s);
    let n: usize = v.len();
    let mut from: usize = 0;
    while from < n && v[from].is_whitespace()
        invariant
            n == v@.len(),
            from <= n,
            forall|j: int| 0 <= j < from ==> is_white(#[trigger] v@[j]),
        decreases n - from,
    {
        from += 1;
    }
    let mut to: usize = n;
    while from < to && v[to - 1].is_whitespace()
        invariant
            n == v@.len(),
            from <= to <= n,
            forall|j: int| to <= j < n ==> is_white(#[trigger] v@[j]),
        decreases to,
    {
        to -= 1;
    }
    proof {
        lemma_trim_start_skip(v@, from as int);
        let t = v@.skip(from as int);
        assert forall|j: int| to - from <= j < t.len() implies is_white(#[trigger] t[j]) by {
            assert(t[j] == v@[j + from]);
        }
        lemma_trim_end_take(t, to - from);
        assert(t.take(to - from) == v@.subrange(from as int, to as int));
    }
    from_chars(&v, from, to)
}

proof fn lemma_skip_leading(s: Seq<char>, c: char, i: int)
    requires
        0 <= i <= s.len(),
        forall|j: int| 0 <= j < i ==> #[trigger] s[j] == c,
        i < s.len() ==> s[i] != c,
    ensures
        skip_leading(s, c) == s.skip(i),
    decreases i,
{
    if i == 0 {
        assert(s.skip(0) == s);
    } else {
        assert(s[0] == c);
        lemma_skip_leading(s.drop_first(), c, i - 1);
        assert(s.drop_first().skip(i - 1) == s.skip(i));
    }
}

/// `s` without the leading characters equal to `c`.
pub fn trim_start_matches(s: &str, c: char) -> (r: String)
    ensures
        r@ == skip_leading(s@, c),
{
    let v = to_chars(s);
    let n: usize = v.len();
    let mut from: usize = 0;
    while from < n && v[from] == c
        invariant
            n == v@.len(),
            from <= n,
            forall|j: int| 0 <= j < from ==> #[trigger] v@[j] == c,
        decreases n - from,
    {
        from += 1;
    }
    proof {
        lemma_skip_leading(v@, c, from as int);
        assert(v@.subrange(from as int, n as int) == v@.skip(from as int));
    }
    from_chars(&v, from, n)
}

/// `split` gives at least one piece.
pub proof fn lemma_split_nonempty(s: Seq<char>, sep: char)
    ensures
        split(s, sep).len() >= 1,
    decreases s.len(),
{
    if s.len() > 0 {
        lemma_split_nonempty(s.drop_last(), sep);
    }
}

/// The pieces of `s` between the separators `sep`.
pub fn split_text(s: &str, sep: char) -> (r: Vec<String>)
    ensures
        texts(r@) == split(s@, sep),
{
    let v = to_chars(s);
    let n: usize = v.len();
    let mut done: Vec<String> = Vec::new();
    let mut piece = String::new();
    let mut i: usize = 0;
    proof {
        assert(v@.take(0) == Seq::<char>::empty());
        assert(texts(done@).push(piece@) == seq![Seq::<char>::empty()]);
    }
    while i < n
        invariant
            n == v@.len(),
            i <= n,
            split(v@.take(i as int), sep) == texts(done@).push(piece@),
        decreases n - i,
    {
        let c: char = v[i];
        let ghost before = texts(done@);
        let ghost last = piece@;
        proof {
            assert(v@.take(i + 1).drop_last() == v@.take(i as int));
            assert(v@.take(i + 1).last() == c);
            assert(before.push(last).drop_last() == before);
        }
        if c == sep {
            done.push(piece);
            piece = String::new();
            assert(texts(done@) == before.push(last));
        } else {
            piece.push(c);
        }
        i += 1;
    }
    done.push(piece);
    proof {
        assert(v@.take(n as int) == v@);
    }
    assert(texts(done@) == texts(done@.drop_last()).push(piece@));
    done
}

/// Whether `pat` stands in `v` at position `i`.
fn stands_at(v: &Vec<char>, pat: &Vec<char>, i: usize) -> (r: bool)
    ensures
        r == matches_at(v@, pat@, i as int),
{
    let n: usize = v.len();
    let m: usize = pat.len();
    if i > n || m > n - i {
        return false;
    }
    let mut j: usize = 0;
    while j < m
        invariant
            n == v@.len(),
            m == pat@.len(),
            i + m <= n,
            j <= m,
            forall|k: int| 0 <= k < j ==> v@[i + k] == #[trigger] pat@[k],
        decreases m - j,
    {
        if v[i + j] != pat[j] {
            assert(v@.subrange(i as int, i + m)[j as int] == v@[i + j]);
            return false;
        }
        j += 1;
    }
    assert(v@.subrange(i as int, i + m) == pat@);
    true
}

/// The first position at which `pat` stands in `v`.
fn position(v: &Vec<char>, pat: &Vec<char>) -> (r: Option<usize>)
    ensures
        match r {
            Some(i) => find(v@, pat@) == Some(i as int) && matches_at(v@, pat@, i as int),
            None => find(v@, pat@) is None,
        },
{
    let n: usize = v.len();
    let m: usize = pat.len();
    if m > n {
        return None;
    }
    let mut i: usize = 0;
    while i <= n - m
        invariant
            n == v@.len(),
            m == pat@.len(),
            m <= n,
            i <= n - m + 1,
            find(v@, pat@) == find_from(v@, pat@, i as int),
        decreases n - m + 1 - i,
    {
        if stands_at(v, pat, i) {
            return Some(i);
        }
        if i == n - m {
            assert(find_from(v@, pat@, i + 1) is None);
            return None;
        }
        i += 1;
    }
    None
}

/// `s` cut at the first occurrence of `pat`.
pub fn split_text_once(s: &str, pat: &str) -> (r: Option<(String, String)>)
    ensures
        match r {
            Some((a, b)) => split_once(s@, pat@) == Some((a@, b@)),
            None => split_once(s@, pat@) is None,
        },
{
    let v = to_chars(s);
    let p = to_chars(pat);
    match position(&v, &p) {
        Some(i) => {
            let a = from_chars(&v, 0, i);
            let end: usize = v.len();
            assert(i + p@.len() <= end);
            let b = from_chars(&v, i + p.len(), end);
            assert(a@ == s@.take(i as int));
            assert(b@ == s@.skip(i + pat@.len()));
            Some((a, b))
        },
        None => None,
    }
}

proof fn lemma_after_last(s: Seq<char>, c: char, i: int)
    requires
        0 <= i <= s.len(),
        forall|j: int| i <= j < s.len() ==> #[trigger] s[j] != c,
        0 < i ==> s[i - 1] == c,
    ensures
        after_last(s, c) == if i == 0 { None } else { Some(s.skip(i)) },
    decreases s.len() - i,
{
    if i == s.len() {
        if i > 0 {
            assert(s.skip(i) == Seq::<char>::empty());
        }
    } else {
        assert(s[s.len() - 1] != c);
        lemma_after_last(s.drop_last(), c, i);
        if i > 0 {
            assert(s.drop_last().skip(i).push(s.last()) == s.skip(i));
        }
    }
}

/// What follows the last `c` in `s`.
pub fn text_after_last(s: &str, c: char) -> (r: Option<String>)
    ensures
        match r {
            Some(t) => after_last(s@, c) == Some(t@),
            None => after_last(s@, c) is None,
        },
{
    let v = to_chars(s);
    let n: usize = v.len();
    let mut i: usize = n;
    while i > 0 && v[i - 1] != c
        invariant
            n == v@.len(),
            i <= n,
            forall|j: int| i <= j < n ==> #[trigger] v@[j] != c,
        decreases i,
    {
        i -= 1;
    }
    proof {
        lemma_after_last(v@, c, i as int);
        assert(v@.subrange(i as int, n as int) == v@.skip(i as int));
    }
    if i == 0 {
        None
    } else {
        Some(from_chars(&v, i, n))
    }
}

/// Whether `suffix` stands at the end of `s`.
pub open spec fn has_suffix(s: Seq<char>, suffix: Seq<char>) -> bool {
    suffix.len() <= s.len() && s.skip(s.len() - suffix.len()) == suffix
}

/// Whether `suffix` stands at the end of `s`.
pub fn ends_with_text(s: &str, suffix: &str) -> (r: bool)
    ensures
        r == has_suffix(s@, suffix@),
{
    let v = to_chars(s);
    let p = to_chars(suffix);
    if p.len() > v.len() {
        return false;
    }
    let at: usize = v.len() - p.len();
    let r = stands_at(&v, &p, at);
    assert(v@.subrange(at as int, at + p@.len()) == v@.skip(at as int));
    r
}

/// The texts of `parts` with `sep` between neighbours.
pub fn join_texts(parts: &Vec<String>, sep: &str) -> (r: String)
    ensures
        r@ == join(texts(parts@), sep@),
{
    let n: usize = parts.len();
    let mut out = String::new();
    let mut i: usize = 0;
    let ghost all = texts(parts@);
    while i < n
        invariant
            n == parts@.len(),
            i <= n,
            all == texts(parts@),
            out@ == join(all.take(i as int), sep@),
        decreases n - i,
    {
        if i > 0 {
            out.append(sep);
        }
        out.append(parts[i].as_str());
        proof {
            assert(all.take(i + 1).drop_last() == all.take(i as int));
            assert(all.take(i + 1).last() == parts@[i as int]@);
        }
        i += 1;
    }
    proof {
        assert(all.take(n as int) == all);
    }
    out
}

/// `n` in decimal notation.
pub fn decimal(n: u64) -> (r: String)
    ensures
        r@ == dec(n as nat),
    decreases n,
{
    let d: u8 = (n % 10) as u8;
    let c: char = (48 + d) as char;
    let mut out = if n < 10 {
        String::new()
    } else {
        decimal(n / 10)
    };
    out.push(c);
    proof {
        if n < 10 {
            assert(Seq::<char>::empty().push(c) == seq![digit(n as nat)]);
        }
    }
    out
}

/// The texts `a` and `b` one after the other.
pub fn concat(a: &str, b: &str) -> (r: String)
    ensures
        r@ == a@ + b@,
{
    let mut out = a.to_owned();
    out.append(b);
    out
}

/// The texts `a`, `b` and `c` one after the other.
pub fn concat3(a: &str, b: &str, c: &str) -> (r: String)
    ensures
        r@ == a@ + b@ + c@,
{
    let mut out = concat(a, b);
    out.append(c);
    out
}

/// A copy of a list of strings.
pub fn copy_texts(list: &Vec<String>) -> (r: Vec<String>)
    ensures
        texts(r@) == texts(list@),
{
    let r = list.clone();
    assert(texts(r@) =~= texts(list@));
    r
}

/// A piece without the separator, put behind a separator, is one more piece.
pub proof fn lemma_split_append(s: Seq<char>, t: Seq<char>, sep: char)
    requires
        !t.contains(sep),
    ensures
        split(s + seq![sep] + t, sep) == split(s, sep).push(t),
    decreases t.len(),
{
    let whole = s + seq![sep] + t;
    if t.len() == 0 {
        assert(whole.drop_last() =~= s);
        assert(t =~= Seq::<char>::empty());
    } else {
        let rest = t.drop_last();
        assert forall|i: int| 0 <= i < rest.len() implies rest[i] != sep by {
            assert(t[i] != sep);
        }
        lemma_split_append(s, rest, sep);
        assert(whole.drop_last() =~= s + seq![sep] + rest);
        assert(t[t.len() - 1] != sep);
        let before = split(s, sep).push(rest);
        assert(before.drop_last() =~= split(s, sep));
        assert(rest.push(t.last()) =~= t);
    }
}

/// A text without the separator is one piece.
pub proof fn lemma_split_single(t: Seq<char>, sep: char)
    requires
        !t.contains(sep),
    ensures
        split(t, sep) == seq![t],
    decreases t.len(),
{
    if t.len() == 0 {
        assert(t =~= Seq::<char>::empty());
    } else {
        let rest = t.drop_last();
        assert forall|i: int| 0 <= i < rest.len() implies rest[i] != sep by {
            assert(t[i] != sep);
        }
        lemma_split_single(rest, sep);
        assert(t[t.len() - 1] != sep);
        assert(rest.push(t.last()) =~= t);
        assert(split(rest, sep).drop_last().push(t) =~= seq![t]);
    }
}

/// The pieces of two texts with a separator between them are those of the one
/// and then those of the other.
pub proof fn lemma_split_concat(s: Seq<char>, t: Seq<char>, sep: char)
    ensures
        split(s + seq![sep] + t, sep) == split(s, sep) + split(t, sep),
    decreases t.len(),
{
    let whole = s + seq![sep] + t;
    if t.len() == 0 {
        assert(whole.drop_last() =~= s);
        assert(split(whole, sep) =~= split(s, sep) + split(t, sep));
    } else {
        let rest = t.drop_last();
        lemma_split_concat(s, rest, sep);
        lemma_split_nonempty(rest, sep);
        assert(whole.drop_last() =~= s + seq![sep] + rest);
        assert(whole.last() == t.last());
        let before = split(s, sep) + split(rest, sep);
        assert(before.last() == split(rest, sep).last());
        assert(split(whole, sep) =~= split(s, sep) + split(t, sep));
    }
}

/// A character in front of a text stands in front of its first piece.
pub proof fn lemma_split_lead(c: char, t: Seq<char>, sep: char)
    requires
        c != sep,
    ensures
        split(seq![c] + t, sep).len() == split(t, sep).len(),
        split(seq![c] + t, sep)[0] == seq![c] + split(t, sep)[0],
        forall|i: int|
            1 <= i < split(t, sep).len() ==> #[trigger] split(seq![c] + t, sep)[i] == split(
                t,
                sep,
            )[i],
    decreases t.len(),
{
    let whole = seq![c] + t;
    lemma_split_nonempty(t, sep);
    if t.len() == 0 {
        assert(whole =~= seq![c]);
        assert forall|i: int| 0 <= i < whole.len() implies whole[i] != sep by {}
        lemma_split_single(whole, sep);
        assert(seq![c] + Seq::<char>::empty() =~= seq![c]);
    } else {
        let rest = t.drop_last();
        lemma_split_lead(c, rest, sep);
        lemma_split_nonempty(rest, sep);
        assert(whole.drop_last() =~= seq![c] + rest);
        assert(whole.last() == t.last());
        if t.last() != sep && split(rest, sep).len() == 1 {
            assert((seq![c] + split(rest, sep)[0]).push(t.last()) =~= seq![c] + split(
                rest,
                sep,
            )[0].push(t.last()));
        }
    }
}

/// The items of a comma-separated text: its pieces without white space around
/// them.
pub open spec fn items(text: Seq<char>) -> Seq<Seq<char>> {
    split(text, ',').map_values(|piece: Seq<char>| trim(piece))
}

/// The items of a comma-separated text.
pub fn list_items(text: &str) -> (r: Vec<String>)
    ensures
        texts(r@) == items(text@),
{
    let pieces = split_text(text, ',');
    let ghost want = items(text@);
    let mut out: Vec<String> = Vec::new();
    let mut i: usize = 0;
    while i < pieces.len()
        invariant
            i <= pieces@.len(),
            texts(pieces@) == split(text@, ','),
            want == items(text@),
            texts(out@) == want.take(i as int),
        decreases pieces@.len() - i,
    {
        assert(texts(pieces@)[i as int] == pieces@[i as int]@);
        let item = trimmed(pieces[i].as_str());
        let ghost before = out@;
        out.push(item);
        proof {
            assert(texts(out@) =~= texts(before).push(item@));
            assert(want.take(i + 1) =~= want.take(i as int).push(want[i as int]));
        }
        i += 1;
    }
    proof {
        assert(texts(pieces@).len() == pieces@.len());
        assert(want.take(i as int) == want);
    }
    out
}

/// The items of two texts with a comma and a space between them are those of
/// the one and then those of the other.
pub proof fn lemma_items_concat(s: Seq<char>, t: Seq<char>)
    ensures
        items(s + ", "@ + t) == items(s) + items(t),
{
    reveal_strlit(", ");
    let spaced = seq![' '] + t;
    assert(s + ", "@ + t =~= s + seq![','] + spaced);
    lemma_split_concat(s, spaced, ',');
    lemma_split_lead(' ', t, ',');
    lemma_split_nonempty(t, ',');
    assert(trim(seq![' '] + split(t, ',')[0]) == trim(split(t, ',')[0])) by {
        assert((seq![' '] + split(t, ',')[0]).drop_first() =~= split(t, ',')[0]);
    }
    assert(items(spaced) =~= items(t));
    assert(items(s + ", "@ + t) =~= items(s) + items(t));
}

/// Every item of every part is an item of the parts joined.
pub proof fn lemma_items_join(parts: Seq<Seq<char>>, k: int, j: int)
    requires
        0 <= k < parts.len(),
        0 <= j < items(parts[k]).len(),
    ensures
        items(join(parts, ", "@)).contains(items(parts[k])[j]),
    decreases parts.len(),
{
    let item = items(parts[k])[j];
    if parts.len() == 1 {
        assert(items(join(parts, ", "@))[j] == item);
    } else {
        let before = join(parts.drop_last(), ", "@);
        lemma_items_concat(before, parts.last());
        let all = items(before) + items(parts.last());
        if k < parts.len() - 1 {
            lemma_items_join(parts.drop_last(), k, j);
            let m = choose|m: int| 0 <= m < items(before).len() && items(before)[m] == item;
            assert(all[m] == item);
        } else {
            assert(all[items(before).len() + j] == item);
        }
    }
}

/// The first piece of a text is what stands before its first separator.
pub proof fn lemma_first_piece(s: Seq<char>, sep: char)
    ensures
        ({
            let piece = split(s, sep)[0];
            &&& piece.len() <= s.len()
            &&& piece == s.take(piece.len() as int)
            &&& !piece.contains(sep)
            &&& piece.len() < s.len() ==> s[piece.len() as int] == sep
            &&& split(s, sep).len() > 1 ==> piece.len() < s.len()
        }),
    decreases s.len(),
{
    lemma_split_nonempty(s, sep);
    if s.len() > 0 {
        let rest = s.drop_last();
        lemma_first_piece(rest, sep);
        lemma_split_nonempty(rest, sep);
        let before = split(rest, sep)[0];
        let piece = split(s, sep)[0];
        assert(rest.take(before.len() as int) =~= s.take(before.len() as int));
        if s.last() != sep && split(rest, sep).len() == 1 {
            lemma_split_one(rest, sep);
            assert(piece =~= s);
            assert forall|i: int| 0 <= i < piece.len() implies piece[i] != sep by {
                if i < rest.len() {
                    assert(rest[i] == before[i]);
                }
            }
            assert(s.take(s.len() as int) =~= s);
        } else {
            assert(piece == before);
        }
    } else {
        assert(split(s, sep)[0] =~= s.take(0));
    }
}

/// A text that is one piece is that piece.
proof fn lemma_split_one(s: Seq<char>, sep: char)
    requires
        split(s, sep).len() == 1,
    ensures
        split(s, sep)[0] == s,
    decreases s.len(),
{
    if s.len() > 0 {
        lemma_split_nonempty(s.drop_last(), sep);
        lemma_split_one(s.drop_last(), sep);
        assert(s.drop_last().push(s.last()) =~= s);
    }
}

} // verus!
