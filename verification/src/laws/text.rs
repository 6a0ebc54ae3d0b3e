//! Laws of the text operations.

use vstd::prelude::*;

use crate::text::{
    after_last, dec, find, find_from, has_prefix, has_suffix, hex, is_white, items, join, lower,
    matches_at, skip_leading, split, split_once, trim, trim_end, trim_start,
};

verus! {

/// Lower case changes the letters `A` to `Z`, each into the letter 32 places
/// on, and nothing else.
pub proof fn law_lower(s: Seq<char>)
    ensures
        lower(s).len() == s.len(),
        forall|i: int|
            0 <= i < s.len() ==> if 65 <= s[i] as int <= 90 {
                (#[trigger] lower(s)[i]) as int == s[i] as int + 32
            } else {
                lower(s)[i] == s[i]
            },
{
}

/// Whether two texts differ in nothing but the ASCII case of their letters.
pub open spec fn same_but_case(x: Seq<char>, y: Seq<char>) -> bool {
    &&& x.len() == y.len()
    &&& forall|i: int| #![trigger x[i]] #![trigger y[i]] 0 <= i < x.len() ==> same_letter(x[i], y[i])
}

/// Whether two characters differ in nothing but ASCII case.
pub open spec fn same_letter(a: char, b: char) -> bool {
    ||| a == b
    ||| 65 <= a as int <= 90 && b as int == a as int + 32
    ||| 65 <= b as int <= 90 && a as int == b as int + 32
}

/// Two texts have the same lower case exactly where they differ in nothing but
/// case.
pub proof fn law_lower_forgets_case(x: Seq<char>, y: Seq<char>)
    ensures
        lower(x) == lower(y) <==> same_but_case(x, y),
{
    if lower(x) == lower(y) {
        assert(x.len() == lower(x).len() && y.len() == lower(y).len());
        assert forall|i: int| 0 <= i < x.len() implies same_letter(
            #[trigger] x[i],
            #[trigger] y[i],
        ) by {
            assert(lower(x)[i] == lower(y)[i]);
        }
    }
    if same_but_case(x, y) {
        assert forall|i: int| 0 <= i < x.len() implies lower(x)[i] == lower(y)[i] by {
            assert(same_letter(x[i], y[i]));
        }
        assert(lower(x) =~= lower(y));
    }
}

/// Splitting loses nothing: the pieces hold no separator, and with a separator
/// between neighbours they are the text again.
pub proof fn law_split(s: Seq<char>, sep: char)
    ensures
        split(s, sep).len() > 0,
        forall|i: int| 0 <= i < split(s, sep).len() ==> !(#[trigger] split(s, sep)[i]).contains(sep),
        join(split(s, sep), seq![sep]) == s,
    decreases s.len(),
{
    let pieces = split(s, sep);
    if s.len() > 0 {
        let rest = s.drop_last();
        let before = split(rest, sep);
        law_split(rest, sep);
        assert(rest.push(s.last()) =~= s);
        if s.last() == sep {
            assert(pieces.drop_last() =~= before);
            assert(join(pieces, seq![sep]) =~= join(before, seq![sep]) + seq![sep]);
            assert(rest + seq![sep] =~= s);
        } else {
            let last = before.last().push(s.last());
            assert(pieces.last() == last);
            assert(pieces.drop_last() =~= before.drop_last());
            assert forall|i: int| 0 <= i < pieces.len() implies !(#[trigger] pieces[i]).contains(
                sep,
            ) by {
                if i < pieces.len() - 1 {
                    assert(pieces[i] == before[i]);
                } else {
                    assert(!before[before.len() - 1].contains(sep));
                    assert forall|k: int| 0 <= k < last.len() implies last[k] != sep by {
                        if k < last.len() - 1 {
                            assert(before.last()[k] != sep);
                        }
                    }
                }
            }
            if before.len() == 1 {
                assert(join(pieces, seq![sep]) == last);
                assert(before.last() == rest);
            } else {
                assert(join(pieces, seq![sep]) =~= (join(before.drop_last(), seq![sep]) + seq![sep]
                    + before.last()).push(s.last()));
            }
        }
    } else {
        assert(pieces[0] =~= s);
    }
}

/// Joining puts the separator between neighbours and nowhere else.
pub proof fn law_join(parts: Seq<Seq<char>>, part: Seq<char>, sep: Seq<char>)
    ensures
        join(Seq::<Seq<char>>::empty(), sep) == Seq::<char>::empty(),
        join(seq![part], sep) == part,
        parts.len() > 0 ==> join(parts.push(part), sep) == join(parts, sep) + sep + part,
{
    assert(parts.push(part).drop_last() =~= parts);
}

/// Trimming takes white space off both ends and nothing else: what is left
/// stands in the text, with nothing but white space around it, and has none at
/// its ends.
pub proof fn law_trim(s: Seq<char>) -> (cut: (int, int))
    ensures
        0 <= cut.0 <= cut.1 <= s.len(),
        trim(s) == s.subrange(cut.0, cut.1),
        forall|i: int| 0 <= i < cut.0 ==> is_white(#[trigger] s[i]),
        forall|i: int| cut.1 <= i < s.len() ==> is_white(#[trigger] s[i]),
        trim(s).len() > 0 ==> !is_white(trim(s)[0]) && !is_white(trim(s).last()),
{
    let a = lemma_trim_start(s);
    let t = trim_start(s);
    let b = lemma_trim_end(t);
    assert(t.take(b) =~= s.subrange(a, a + b));
    assert forall|i: int| a + b <= i < s.len() implies is_white(#[trigger] s[i]) by {
        assert(t[i - a] == s[i]);
    }
    if trim(s).len() > 0 {
        assert(trim(s)[0] == t[0]);
    }
    (a, a + b)
}

proof fn lemma_trim_start(s: Seq<char>) -> (a: int)
    ensures
        0 <= a <= s.len(),
        trim_start(s) == s.skip(a),
        forall|i: int| 0 <= i < a ==> is_white(#[trigger] s[i]),
        trim_start(s).len() > 0 ==> !is_white(trim_start(s)[0]),
    decreases s.len(),
{
    if s.len() > 0 && is_white(s[0]) {
        let rest = s.drop_first();
        let a = lemma_trim_start(rest);
        assert(rest.skip(a) =~= s.skip(a + 1));
        assert forall|i: int| 0 <= i < a + 1 implies is_white(#[trigger] s[i]) by {
            if i > 0 {
                assert(rest[i - 1] == s[i]);
            }
        }
        a + 1
    } else {
        assert(s.skip(0) =~= s);
        0
    }
}

proof fn lemma_trim_end(s: Seq<char>) -> (b: int)
    ensures
        0 <= b <= s.len(),
        trim_end(s) == s.take(b),
        forall|i: int| b <= i < s.len() ==> is_white(#[trigger] s[i]),
        trim_end(s).len() > 0 ==> !is_white(trim_end(s).last()),
    decreases s.len(),
{
    if s.len() > 0 && is_white(s.last()) {
        let rest = s.drop_last();
        let b = lemma_trim_end(rest);
        assert(rest.take(b) =~= s.take(b));
        assert forall|i: int| b <= i < s.len() implies is_white(#[trigger] s[i]) by {
            if i < s.len() - 1 {
                assert(rest[i] == s[i]);
            }
        }
        b
    } else {
        assert(s.take(s.len() as int) =~= s);
        s.len() as int
    }
}

/// The items of a comma-separated text are its pieces, each trimmed.
pub proof fn law_items(text: Seq<char>, i: int)
    requires
        0 <= i < split(text, ',').len(),
    ensures
        items(text).len() == split(text, ',').len(),
        items(text)[i] == trim(split(text, ',')[i]),
{
}

/// The value of a digit.
pub open spec fn digit_value(c: char) -> int {
    if 48 <= c as int <= 57 {
        c as int - 48
    } else if 97 <= c as int <= 102 {
        c as int - 87
    } else {
        -1
    }
}

/// The number that digits denote.
pub open spec fn number(digits: Seq<char>, base: int) -> int
    decreases digits.len(),
{
    if digits.len() == 0 {
        0
    } else {
        number(digits.drop_last(), base) * base + digit_value(digits.last())
    }
}

/// Decimal notation denotes its number, with digits only and without leading
/// zeros.
pub proof fn law_decimal(n: nat)
    ensures
        dec(n).len() > 0,
        number(dec(n), 10) == n,
        forall|i: int| 0 <= i < dec(n).len() ==> 48 <= (#[trigger] dec(n)[i]) as int <= 57,
        n > 0 ==> dec(n)[0] != '0',
        n == 0 ==> dec(n).len() == 1,
    decreases n,
{
    reveal_with_fuel(number, 2);
    if n >= 10 {
        law_decimal(n / 10);
        assert(dec(n).drop_last() =~= dec(n / 10));
    }
}

/// Hexadecimal notation denotes its number, with lower-case digits only and
/// without leading zeros.
pub proof fn law_hexadecimal(n: nat)
    ensures
        hex(n).len() > 0,
        number(hex(n), 16) == n,
        forall|i: int| 0 <= i < hex(n).len() ==> 0 <= digit_value(#[trigger] hex(n)[i]) < 16,
        n > 0 ==> hex(n)[0] != '0',
        n == 0 ==> hex(n).len() == 1,
    decreases n,
{
    reveal_with_fuel(number, 2);
    if n >= 16 {
        law_hexadecimal(n / 16);
        assert(hex(n).drop_last() =~= hex(n / 16));
    }
}

/// Whether `pat` stands in `s` from position `i` on.
pub open spec fn stands(s: Seq<char>, pat: Seq<char>, i: int) -> bool {
    &&& 0 <= i <= s.len() - pat.len()
    &&& forall|k: int| 0 <= k < pat.len() ==> s[i + k] == #[trigger] pat[k]
}

proof fn lemma_stands(s: Seq<char>, pat: Seq<char>, i: int)
    ensures
        matches_at(s, pat, i) <==> stands(s, pat, i),
{
    if matches_at(s, pat, i) {
        assert forall|k: int| 0 <= k < pat.len() implies s[i + k] == #[trigger] pat[k] by {
            assert(s.subrange(i, i + pat.len())[k] == s[i + k]);
        }
    }
    if stands(s, pat, i) {
        assert(s.subrange(i, i + pat.len()) =~= pat);
    }
}

proof fn lemma_find_from(s: Seq<char>, pat: Seq<char>, i: int)
    requires
        i >= 0,
    ensures
        match find_from(s, pat, i) {
            Some(k) => k >= i && stands(s, pat, k) && forall|j: int|
                i <= j < k ==> !#[trigger] stands(s, pat, j),
            None => forall|j: int| i <= j ==> !#[trigger] stands(s, pat, j),
        },
    decreases s.len() + 1 - i,
{
    lemma_stands(s, pat, i);
    if i + pat.len() <= s.len() && !matches_at(s, pat, i) {
        lemma_find_from(s, pat, i + 1);
    }
}

/// A search gives the first place at which the pattern stands, and nothing
/// exactly where it stands nowhere.
pub proof fn law_find(s: Seq<char>, pat: Seq<char>)
    ensures
        match find(s, pat) {
            Some(k) => stands(s, pat, k) && forall|j: int| j < k ==> !#[trigger] stands(s, pat, j),
            None => forall|j: int| !#[trigger] stands(s, pat, j),
        },
{
    lemma_find_from(s, pat, 0);
}

/// Splitting once gives what is before and what is behind the first place of
/// the pattern.
pub proof fn law_split_once(s: Seq<char>, pat: Seq<char>)
    ensures
        match split_once(s, pat) {
            Some((before, behind)) => s == before + pat + behind && stands(
                s,
                pat,
                before.len() as int,
            ) && forall|j: int| j < before.len() ==> !#[trigger] stands(s, pat, j),
            None => forall|j: int| !#[trigger] stands(s, pat, j),
        },
{
    law_find(s, pat);
    if let Some((before, behind)) = split_once(s, pat) {
        let k = find(s, pat)->Some_0;
        assert forall|i: int| 0 <= i < s.len() implies s[i] == (before + pat + behind)[i] by {
            if k <= i < k + pat.len() {
                assert(s[k + (i - k)] == pat[i - k]);
            }
        }
        assert(s =~= before + pat + behind);
    }
}

/// What follows the last `c` holds no `c`, and stands behind one; nothing
/// follows where there is none.
pub proof fn law_after_last(s: Seq<char>, c: char)
    ensures
        match after_last(s, c) {
            Some(t) => !t.contains(c) && t.len() < s.len() && s[s.len() - t.len() - 1] == c && t
                == s.skip(s.len() - t.len()),
            None => !s.contains(c),
        },
    decreases s.len(),
{
    if s.len() > 0 {
        let rest = s.drop_last();
        law_after_last(rest, c);
        if s.last() == c {
            assert(Seq::<char>::empty() =~= s.skip(s.len() as int));
        } else {
            match after_last(rest, c) {
                Some(t) => {
                    let u = t.push(s.last());
                    assert(u =~= s.skip(s.len() - u.len()));
                    assert forall|k: int| 0 <= k < u.len() implies u[k] != c by {
                        if k < t.len() {
                            assert(t[k] != c);
                        }
                    }
                },
                None => {
                    assert forall|k: int| 0 <= k < s.len() implies s[k] != c by {
                        if k < rest.len() {
                            assert(rest[k] != c);
                        }
                    }
                },
            }
        }
    }
}

/// Skipping takes every leading `c` and nothing else.
pub proof fn law_skip_leading(n: nat, rest: Seq<char>, c: char)
    requires
        rest.len() > 0 ==> rest[0] != c,
    ensures
        skip_leading(Seq::new(n, |i: int| c) + rest, c) == rest,
    decreases n,
{
    let s = Seq::new(n, |i: int| c) + rest;
    if n > 0 {
        let fewer = Seq::new((n - 1) as nat, |i: int| c) + rest;
        assert(s.drop_first() =~= fewer);
        law_skip_leading((n - 1) as nat, rest, c);
    } else {
        assert(s =~= rest);
    }
}

/// A text has a prefix or a suffix exactly where it is made with it.
pub proof fn law_affixes(s: Seq<char>, t: Seq<char>)
    ensures
        has_prefix(s, t) <==> stands(s, t, 0),
        has_suffix(s, t) <==> stands(s, t, s.len() - t.len()),
        has_prefix(t + s, t),
        has_suffix(s + t, t),
{
    lemma_stands(s, t, 0);
    if t.len() <= s.len() {
        assert(s.take(t.len() as int) =~= s.subrange(0, t.len() as int));
        lemma_stands(s, t, s.len() - t.len());
        assert(s.skip(s.len() - t.len()) =~= s.subrange(s.len() - t.len(), s.len() as int));
    }
    assert((t + s).take(t.len() as int) =~= t);
    assert((s + t).skip(s.len() as int) =~= t);
}

} // verus!
