//! Character-sequence helpers: searching, splitting, replacing and trimming,
//! each with the meaning that `str`'s method of the same purpose has.

use vstd::prelude::*;

verus! {

/// `pat` stands at the start of `s`.
pub open spec fn starts(s: Seq<char>, pat: Seq<char>) -> bool {
    pat.len() <= s.len() && s.subrange(0, pat.len() as int) == pat
}

/// What comes before the first occurrence of `pat` (all of `s` if none):
/// the first piece of `s.split(pat)`.
pub open spec fn before_first(s: Seq<char>, pat: Seq<char>) -> Seq<char>
    decreases s.len(),
{
    if s.len() == 0 || starts(s, pat) {
        Seq::empty()
    } else {
        seq![s[0]] + before_first(s.drop_first(), pat)
    }
}

/// What comes after the first occurrence of `pat`, if there is one.
pub open spec fn after_first(s: Seq<char>, pat: Seq<char>) -> Option<Seq<char>>
    decreases s.len(),
{
    if starts(s, pat) {
        Some(s.subrange(pat.len() as int, s.len() as int))
    } else if s.len() == 0 {
        None
    } else {
        after_first(s.drop_first(), pat)
    }
}

/// The second piece of `s.split(pat)`, if there is one.
pub open spec fn second_piece(s: Seq<char>, pat: Seq<char>) -> Option<Seq<char>> {
    match after_first(s, pat) {
        Some(rest) => Some(before_first(rest, pat)),
        None => None,
    }
}

/// `s` with every non-overlapping occurrence of `pat`, leftmost first,
/// replaced by `rep`.
pub open spec fn replace_all(s: Seq<char>, pat: Seq<char>, rep: Seq<char>) -> Seq<char>
    decreases s.len(),
{
    if s.len() == 0 {
        Seq::empty()
    } else if pat.len() > 0 && starts(s, pat) {
        rep + replace_all(s.subrange(pat.len() as int, s.len() as int), pat, rep)
    } else {
        seq![s[0]] + replace_all(s.drop_first(), pat, rep)
    }
}

/// `s` with every occurrence of the character `from` written as `to`.
pub open spec fn swap_char(s: Seq<char>, from: char, to: char) -> Seq<char> {
    s.map_values(|c: char| if c == from { to } else { c })
}

/// The characters that Unicode gives the White_Space property.
pub open spec fn is_white(c: char) -> bool {
    ('\u{9}' <= c && c <= '\u{d}') || c == ' ' || c == '\u{85}' || c == '\u{a0}'
        || c == '\u{1680}' || ('\u{2000}' <= c && c <= '\u{200a}') || c == '\u{2028}'
        || c == '\u{2029}' || c == '\u{202f}' || c == '\u{205f}' || c == '\u{3000}'
}

pub open spec fn trim_start(s: Seq<char>) -> Seq<char>
    decreases s.len(),
{
    if s.len() > 0 && is_white(s[0]) {
        trim_start(s.drop_first())
    } else {
        s
    }
}

pub open spec fn trim_end(s: Seq<char>) -> Seq<char>
    decreases s.len(),
{
    if s.len() > 0 && is_white(s.last()) {
        trim_end(s.drop_last())
    } else {
        s
    }
}

/// `s` without leading and trailing white space, as `str::trim` gives it.
pub open spec fn trim(s: Seq<char>) -> Seq<char> {
    trim_end(trim_start(s))
}

/// `s` without any trailing run of the character `c`.
pub open spec fn strip_end(s: Seq<char>, c: char) -> Seq<char>
    decreases s.len(),
{
    if s.len() > 0 && s.last() == c {
        strip_end(s.drop_last(), c)
    } else {
        s
    }
}

/// Relies on `str::chars`: the characters of `s`, in order.
#[verifier::external_body]
pub(crate) fn chars_of(s: &str) -> (r: Vec<char>)
    ensures
        r@ == s@,
{
    s.chars().collect()
}

/// Relies on `FromIterator<char>` for `String`: the string of these characters.
#[verifier::external_body]
pub(crate) fn string_of(v: &[char]) -> (r: String)
    ensures
        r@ == v@,
{
    v.iter().collect()
}

/// Whether `pat` stands in `s` at position `i`.
pub fn matches_at(s: &[char], i: usize, pat: &[char]) -> (r: bool)
    requires
        i <= s@.len(),
    ensures
        r == starts(s@.subrange(i as int, s@.len() as int), pat@),
{
    if pat.len() > s.len() - i {
        return false;
    }
    let end: usize = i + pat.len();
    let mut j: usize = 0;
    while j < pat.len()
        invariant
            j <= pat@.len(),
            end == i + pat@.len(),
            end <= s@.len(),
            forall|k: int| 0 <= k < j ==> s@[i + k] == pat@[k],
        decreases pat@.len() - j,
    {
        if s[i + j] != pat[j] {
            assert(s@.subrange(i as int, s@.len() as int).subrange(0, pat@.len() as int)[j as int]
                != pat@[j as int]);
            return false;
        }
        j += 1;
    }
    assert(s@.subrange(i as int, s@.len() as int).subrange(0, pat@.len() as int) =~= pat@);
    true
}

proof fn lemma_suffix_step(s: Seq<char>, i: int)
    requires
        0 <= i < s.len(),
    ensures
        s.subrange(i, s.len() as int).drop_first() == s.subrange(i + 1, s.len() as int),
        s.subrange(i, s.len() as int)[0] == s[i],
{
    assert(s.subrange(i, s.len() as int).drop_first() =~= s.subrange(i + 1, s.len() as int));
}

/// Splits `s` at the first occurrence of `pat`: the piece before it, and what
/// follows it if it occurs.
pub fn split_once(s: &[char], pat: &[char]) -> (r: (Vec<char>, Option<Vec<char>>))
    ensures
        r.0@ == before_first(s@, pat@),
        r.1 is Some <==> after_first(s@, pat@) is Some,
        r.1 is Some ==> r.1.unwrap()@ == after_first(s@, pat@).unwrap(),
{
    let mut head: Vec<char> = Vec::new();
    let mut i: usize = 0;
    assert(s@.subrange(0, s@.len() as int) =~= s@);
    assert(head@ + before_first(s@, pat@) =~= before_first(s@, pat@));
    loop
        invariant
            i <= s@.len(),
            before_first(s@, pat@) == head@ + before_first(
                s@.subrange(i as int, s@.len() as int),
                pat@,
            ),
            after_first(s@, pat@) == after_first(
                s@.subrange(i as int, s@.len() as int),
                pat@,
            ),
        decreases s@.len() + 1 - i,
    {
        let ghost rest = s@.subrange(i as int, s@.len() as int);
        if matches_at(s, i, pat) {
            assert(starts(rest, pat@));
            assert(pat@.len() <= rest.len());
            assert(rest.len() == s@.len() - i);
            assert(s@.len() == s.len());
            let mut tail: Vec<char> = Vec::new();
            let mut k: usize = i + pat.len();
            while k < s.len()
                invariant
                    i + pat@.len() <= k <= s@.len(),
                    tail@ == s@.subrange(i + pat@.len(), k as int),
                decreases s@.len() - k,
            {
                tail.push(s[k]);
                k += 1;
                assert(tail@ =~= s@.subrange(i + pat@.len(), k as int));
            }
            assert(rest.subrange(pat@.len() as int, rest.len() as int) =~= tail@);
            assert(head@ + Seq::<char>::empty() =~= head@);
            return (head, Some(tail));
        }
        if i == s.len() {
            assert(head@ + Seq::<char>::empty() =~= head@);
            return (head, None);
        }
        proof {
            lemma_suffix_step(s@, i as int);
            assert(head@.push(s@[i as int]) + before_first(rest.drop_first(), pat@) =~= head@ + (
            seq![rest[0]] + before_first(rest.drop_first(), pat@)));
        }
        head.push(s[i]);
        i += 1;
    }
}

/// `s` with every occurrence of `pat` replaced by `rep`, as `str::replace`.
pub fn replace_seq(s: &[char], pat: &[char], rep: &[char]) -> (r: Vec<char>)
    ensures
        r@ == replace_all(s@, pat@, rep@),
{
    let mut out: Vec<char> = Vec::new();
    let mut i: usize = 0;
    assert(s@.subrange(0, s@.len() as int) =~= s@);
    assert(out@ + replace_all(s@, pat@, rep@) =~= replace_all(s@, pat@, rep@));
    while i < s.len()
        invariant
            i <= s@.len(),
            replace_all(s@, pat@, rep@) == out@ + replace_all(
                s@.subrange(i as int, s@.len() as int),
                pat@,
                rep@,
            ),
        decreases s@.len() - i,
    {
        let ghost rest = s@.subrange(i as int, s@.len() as int);
        if pat.len() > 0 && matches_at(s, i, pat) {
            let ghost out0 = out@;
            let mut k: usize = 0;
            while k < rep.len()
                invariant
                    k <= rep@.len(),
                    out@ == out0 + rep@.subrange(0, k as int),
                decreases rep@.len() - k,
            {
                out.push(rep[k]);
                k += 1;
                assert(out@ =~= out0 + rep@.subrange(0, k as int));
            }
            assert(rest.subrange(pat@.len() as int, rest.len() as int) =~= s@.subrange(
                (i + pat.len()) as int,
                s@.len() as int,
            ));
            assert(rep@.subrange(0, rep@.len() as int) =~= rep@);
            assert(out0 + (rep@ + replace_all(
                s@.subrange((i + pat.len()) as int, s@.len() as int),
                pat@,
                rep@,
            )) =~= out@ + replace_all(
                s@.subrange((i + pat.len()) as int, s@.len() as int),
                pat@,
                rep@,
            ));
            i = i + pat.len();
        } else {
            proof {
                lemma_suffix_step(s@, i as int);
                assert(out@.push(s@[i as int]) + replace_all(rest.drop_first(), pat@, rep@)
                    =~= out@ + (seq![rest[0]] + replace_all(rest.drop_first(), pat@, rep@)));
            }
            out.push(s[i]);
            i += 1;
        }
    }
    assert(s@.subrange(i as int, s@.len() as int) =~= Seq::<char>::empty());
    assert(out@ + Seq::<char>::empty() =~= out@);
    out
}

/// `s` with each `from` written as `to`.
pub fn swap_chars(s: &[char], from: char, to: char) -> (r: Vec<char>)
    ensures
        r@ == swap_char(s@, from, to),
{
    let mut out: Vec<char> = Vec::new();
    let mut i: usize = 0;
    while i < s.len()
        invariant
            i <= s@.len(),
            out@ == swap_char(s@.subrange(0, i as int), from, to),
        decreases s@.len() - i,
    {
        let c = s[i];
        out.push(if c == from { to } else { c });
        i += 1;
        assert(out@ =~= swap_char(s@.subrange(0, i as int), from, to));
    }
    assert(s@.subrange(0, s@.len() as int) =~= s@);
    out
}

pub fn is_white_char(c: char) -> (r: bool)
    ensures
        r == is_white(c),
{
    ('\u{9}' <= c && c <= '\u{d}') || c == ' ' || c == '\u{85}' || c == '\u{a0}' || c
        == '\u{1680}' || ('\u{2000}' <= c && c <= '\u{200a}') || c == '\u{2028}' || c
        == '\u{2029}' || c == '\u{202f}' || c == '\u{205f}' || c == '\u{3000}'
}

/// The characters of `s` from `lo` up to `hi`.
pub fn slice_of(s: &[char], lo: usize, hi: usize) -> (r: Vec<char>)
    requires
        lo <= hi <= s@.len(),
    ensures
        r@ == s@.subrange(lo as int, hi as int),
{
    let mut out: Vec<char> = Vec::new();
    let mut k: usize = lo;
    while k < hi
        invariant
            lo <= k <= hi,
            hi <= s@.len(),
            out@ == s@.subrange(lo as int, k as int),
        decreases hi - k,
    {
        out.push(s[k]);
        k += 1;
        assert(out@ =~= s@.subrange(lo as int, k as int));
    }
    out
}

/// `s` without leading and trailing white space.
pub fn trim_chars(s: &[char]) -> (r: Vec<char>)
    ensures
        r@ == trim(s@),
{
    let mut lo: usize = 0;
    assert(s@.subrange(0, s@.len() as int) =~= s@);
    while lo < s.len() && is_white_char(s[lo])
        invariant
            lo <= s@.len(),
            trim_start(s@) == trim_start(s@.subrange(lo as int, s@.len() as int)),
        decreases s@.len() - lo,
    {
        proof {
            lemma_suffix_step(s@, lo as int);
        }
        lo += 1;
    }
    let ghost mid = s@.subrange(lo as int, s@.len() as int);
    let mut hi: usize = s.len();
    while hi > lo && is_white_char(s[hi - 1])
        invariant
            lo <= hi <= s@.len(),
            trim_start(s@) == mid,
            trim_end(mid) == trim_end(s@.subrange(lo as int, hi as int)),
        decreases hi,
    {
        assert(s@.subrange(lo as int, hi as int).drop_last() =~= s@.subrange(
            lo as int,
            hi - 1,
        ));
        hi -= 1;
    }
    slice_of(s, lo, hi)
}

/// `s` without its trailing run of `c`, as `str::trim_end_matches(c)`.
pub fn strip_end_chars(s: &[char], c: char) -> (r: Vec<char>)
    ensures
        r@ == strip_end(s@, c),
{
    let mut hi: usize = s.len();
    assert(s@.subrange(0, s@.len() as int) =~= s@);
    while hi > 0 && s[hi - 1] == c
        invariant
            hi <= s@.len(),
            strip_end(s@, c) == strip_end(s@.subrange(0, hi as int), c),
        decreases hi,
    {
        assert(s@.subrange(0, hi as int).drop_last() =~= s@.subrange(0, hi - 1));
        hi -= 1;
    }
    slice_of(s, 0, hi)
}

/// Whether `s` begins with `pat`.
pub fn starts_with_chars(s: &[char], pat: &[char]) -> (r: bool)
    ensures
        r == starts(s@, pat@),
{
    assert(s@.subrange(0, s@.len() as int) =~= s@);
    matches_at(s, 0, pat)
}

/// Whether two character sequences are equal.
pub fn same_chars(a: &[char], b: &[char]) -> (r: bool)
    ensures
        r == (a@ == b@),
{
    if a.len() != b.len() {
        return false;
    }
    let mut i: usize = 0;
    while i < a.len()
        invariant
            i <= a@.len(),
            a@.len() == b@.len(),
            forall|k: int| 0 <= k < i ==> a@[k] == b@[k],
        decreases a@.len() - i,
    {
        if a[i] != b[i] {
            return false;
        }
        i += 1;
    }
    assert(a@ =~= b@);
    true
}

/// Appends the characters of `t` to `out`.
pub fn extend_chars(out: &mut Vec<char>, t: &[char])
    ensures
        final(out)@ == old(out)@ + t@,
{
    let mut k: usize = 0;
    while k < t.len()
        invariant
            k <= t@.len(),
            out@ == old(out)@ + t@.subrange(0, k as int),
        decreases t@.len() - k,
    {
        out.push(t[k]);
        k += 1;
        assert(out@ =~= old(out)@ + t@.subrange(0, k as int));
    }
    assert(t@.subrange(0, t@.len() as int) =~= t@);
}

/// `parts` joined with `sep` between each two.
pub open spec fn join_with(parts: Seq<Seq<char>>, sep: Seq<char>) -> Seq<char>
    decreases parts.len(),
{
    if parts.len() == 0 {
        Seq::empty()
    } else if parts.len() == 1 {
        parts[0]
    } else {
        join_with(parts.drop_last(), sep) + sep + parts.last()
    }
}

/// The third piece of `s.split(pat)`, if there is one.
pub open spec fn third_piece(s: Seq<char>, pat: Seq<char>) -> Option<Seq<char>> {
    match after_first(s, pat) {
        Some(rest) => second_piece(rest, pat),
        None => None,
    }
}

/// Joins the character sequences of `parts` with `sep` between each two.
pub fn join_chars(parts: &Vec<Vec<char>>, sep: &[char]) -> (r: Vec<char>)
    ensures
        r@ == join_with(parts@.map_values(|p: Vec<char>| p@), sep@),
{
    let ghost v = parts@.map_values(|p: Vec<char>| p@);
    let mut out: Vec<char> = Vec::new();
    if parts.len() == 0 {
        return out;
    }
    extend_chars(&mut out, &parts[0]);
    assert(out@ =~= parts@[0]@);
    let mut i: usize = 1;
    assert(v.subrange(0, 1).drop_last() =~= Seq::<Seq<char>>::empty());
    while i < parts.len()
        invariant
            1 <= i <= parts@.len(),
            v == parts@.map_values(|p: Vec<char>| p@),
            out@ == join_with(v.subrange(0, i as int), sep@),
        decreases parts@.len() - i,
    {
        extend_chars(&mut out, sep);
        extend_chars(&mut out, &parts[i]);
        assert(v.subrange(0, (i + 1) as int).drop_last() =~= v.subrange(0, i as int));
        i += 1;
    }
    assert(v.subrange(0, parts@.len() as int) =~= v);
    out
}

/// The pieces of `s.split(pat)`, in order.
pub open spec fn pieces(s: Seq<char>, pat: Seq<char>) -> Seq<Seq<char>>
    decreases s.len(),
{
    if s.len() == 0 {
        seq![Seq::empty()]
    } else if pat.len() > 0 && starts(s, pat) {
        seq![Seq::empty()] + pieces(s.subrange(pat.len() as int, s.len() as int), pat)
    } else {
        let r = pieces(s.drop_first(), pat);
        r.update(0, seq![s[0]] + r[0])
    }
}

pub proof fn lemma_pieces_nonempty(s: Seq<char>, pat: Seq<char>)
    ensures
        pieces(s, pat).len() >= 1,
    decreases s.len(),
{
    if s.len() > 0 {
        if pat.len() > 0 && starts(s, pat) {
            lemma_pieces_nonempty(s.subrange(pat.len() as int, s.len() as int), pat);
        } else {
            lemma_pieces_nonempty(s.drop_first(), pat);
        }
    }
}

/// The pieces concatenated, last first.
pub open spec fn concat_reversed(ps: Seq<Seq<char>>) -> Seq<char>
    decreases ps.len(),
{
    if ps.len() == 0 {
        Seq::empty()
    } else {
        ps.last() + concat_reversed(ps.drop_last())
    }
}

/// The pieces of `s[i..].split(pat)`.
pub fn split_all(s: &[char], i: usize, pat: &[char]) -> (r: Vec<Vec<char>>)
    requires
        i <= s@.len(),
    ensures
        r@.map_values(|p: Vec<char>| p@) == pieces(s@.subrange(i as int, s@.len() as int), pat@),
    decreases s@.len() - i,
{
    let ghost rest = s@.subrange(i as int, s@.len() as int);
    if i == s.len() {
        let mut r: Vec<Vec<char>> = Vec::new();
        r.push(Vec::new());
        assert(r@.map_values(|p: Vec<char>| p@) =~= pieces(rest, pat@));
        return r;
    }
    if pat.len() > 0 && matches_at(s, i, pat) {
        assert(s@.len() == s.len());
        let mut r = split_all(s, i + pat.len(), pat);
        assert(rest.subrange(pat@.len() as int, rest.len() as int) =~= s@.subrange(
            (i + pat.len()) as int,
            s@.len() as int,
        ));
        let ghost tail = r@;
        r.insert(0, Vec::new());
        assert(r@.map_values(|p: Vec<char>| p@) =~= pieces(rest, pat@));
        r
    } else {
        proof {
            lemma_suffix_step(s@, i as int);
        }
        let mut r = split_all(s, i + 1, pat);
        proof {
            lemma_pieces_nonempty(rest.drop_first(), pat@);
        }
        let ghost before = r@;
        let first = r.remove(0);
        let mut grown: Vec<char> = Vec::new();
        grown.push(s[i]);
        extend_chars(&mut grown, &first);
        r.insert(0, grown);
        assert(r@.map_values(|p: Vec<char>| p@) =~= pieces(rest, pat@));
        r
    }
}

/// The pieces concatenated, last first.
pub fn concat_reversed_chars(ps: &Vec<Vec<char>>) -> (r: Vec<char>)
    ensures
        r@ == concat_reversed(ps@.map_values(|p: Vec<char>| p@)),
{
    let ghost v = ps@.map_values(|p: Vec<char>| p@);
    let mut out: Vec<char> = Vec::new();
    let mut k: usize = ps.len();
    assert(v.subrange(0, k as int) =~= v);
    while k > 0
        invariant
            k <= ps@.len(),
            v == ps@.map_values(|p: Vec<char>| p@),
            concat_reversed(v) == out@ + concat_reversed(v.subrange(0, k as int)),
        decreases k,
    {
        let ghost sub = v.subrange(0, k as int);
        assert(sub.drop_last() =~= v.subrange(0, k - 1));
        assert(out@ + (sub.last() + concat_reversed(sub.drop_last())) =~= (out@ + ps@[k - 1]@)
            + concat_reversed(v.subrange(0, k - 1)));
        extend_chars(&mut out, &ps[k - 1]);
        k -= 1;
    }
    assert(out@ + concat_reversed(v.subrange(0, 0)) =~= out@);
    out
}

} // verus!
