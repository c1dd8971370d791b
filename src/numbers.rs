//! Decimal integers: reading them as `str::parse` does and writing them with
//! zero padding.

use vstd::prelude::*;

verus! {

pub open spec fn digit_of(c: char) -> int {
    if c == '0' { 0 }
    else if c == '1' { 1 }
    else if c == '2' { 2 }
    else if c == '3' { 3 }
    else if c == '4' { 4 }
    else if c == '5' { 5 }
    else if c == '6' { 6 }
    else if c == '7' { 7 }
    else if c == '8' { 8 }
    else if c == '9' { 9 }
    else { -1 }
}

pub open spec fn is_digit(c: char) -> bool {
    digit_of(c) >= 0
}

pub open spec fn all_digits(s: Seq<char>) -> bool {
    forall|i: int| 0 <= i < s.len() ==> is_digit(s[i])
}

/// The number that a run of decimal digits spells.
pub open spec fn digits_value(s: Seq<char>) -> int
    decreases s.len(),
{
    if s.len() == 0 {
        0
    } else {
        digits_value(s.drop_last()) * 10 + digit_of(s.last())
    }
}

/// What `str::parse` reads from `s` into an unsigned integer type of
/// unbounded width: an optional `+`, then one or more digits.
pub open spec fn unsigned_value(s: Seq<char>) -> Option<int> {
    let d = if s.len() > 0 && s[0] == '+' { s.drop_first() } else { s };
    if d.len() > 0 && all_digits(d) {
        Some(digits_value(d))
    } else {
        None
    }
}

/// What `str::parse` reads from `s` into a signed integer type of unbounded
/// width: an optional sign, then one or more digits.
pub open spec fn signed_value(s: Seq<char>) -> Option<int> {
    if s.len() > 0 && s[0] == '-' {
        let d = s.drop_first();
        if d.len() > 0 && all_digits(d) {
            Some(-digits_value(d))
        } else {
            None
        }
    } else {
        unsigned_value(s)
    }
}

/// `v` if it lies within `lo..=hi`.
pub open spec fn within(v: Option<int>, lo: int, hi: int) -> Option<int> {
    if v is Some && lo <= v.unwrap() <= hi {
        v
    } else {
        None
    }
}

pub open spec fn digit_char(d: int) -> char {
    if d == 0 { '0' }
    else if d == 1 { '1' }
    else if d == 2 { '2' }
    else if d == 3 { '3' }
    else if d == 4 { '4' }
    else if d == 5 { '5' }
    else if d == 6 { '6' }
    else if d == 7 { '7' }
    else if d == 8 { '8' }
    else { '9' }
}

/// The last `n` decimal digits of `v`, zero-padded to exactly `n` places.
pub open spec fn digits_n(v: nat, n: nat) -> Seq<char>
    decreases n,
{
    if n == 0 {
        Seq::empty()
    } else {
        digits_n(v / 10, (n - 1) as nat).push(digit_char((v % 10) as int))
    }
}

/// How many decimal digits `v` takes (at least one).
pub open spec fn width_of(v: nat) -> nat
    decreases v,
{
    if v < 10 {
        1
    } else {
        1 + width_of(v / 10)
    }
}

/// `v` in decimal, zero-padded to at least `n` places.
pub open spec fn padded(v: nat, n: nat) -> Seq<char> {
    if width_of(v) > n {
        digits_n(v, width_of(v))
    } else {
        digits_n(v, n)
    }
}

pub proof fn lemma_digits_nonneg(s: Seq<char>)
    requires
        all_digits(s),
    ensures
        digits_value(s) >= 0,
    decreases s.len(),
{
    if s.len() > 0 {
        lemma_digits_nonneg(s.drop_last());
    }
}

/// A prefix of a run of digits never spells more than the whole run.
pub proof fn lemma_prefix_value(s: Seq<char>, k: int)
    requires
        all_digits(s),
        0 <= k <= s.len(),
    ensures
        digits_value(s.subrange(0, k)) <= digits_value(s),
    decreases s.len(),
{
    if k < s.len() {
        lemma_prefix_value(s.drop_last(), k);
        assert(s.drop_last().subrange(0, k) =~= s.subrange(0, k));
        lemma_digits_nonneg(s.drop_last());
    } else {
        assert(s.subrange(0, k) =~= s);
    }
}

fn digit_at(c: char) -> (r: Option<u64>)
    ensures
        r is Some <==> is_digit(c),
        r is Some ==> r.unwrap() == digit_of(c),
{
    if c == '0' { Some(0) }
    else if c == '1' { Some(1) }
    else if c == '2' { Some(2) }
    else if c == '3' { Some(3) }
    else if c == '4' { Some(4) }
    else if c == '5' { Some(5) }
    else if c == '6' { Some(6) }
    else if c == '7' { Some(7) }
    else if c == '8' { Some(8) }
    else if c == '9' { Some(9) }
    else { None }
}

/// The value of the digits of `s` from `start` on, if they are all digits
/// and the value fits in a `u64`.
fn digits_from(s: &[char], start: usize) -> (r: Option<u64>)
    requires
        start <= s@.len(),
    ensures
        r is Some <==> (all_digits(s@.subrange(start as int, s@.len() as int)) && digits_value(
            s@.subrange(start as int, s@.len() as int),
        ) <= u64::MAX),
        r is Some ==> r.unwrap() == digits_value(s@.subrange(start as int, s@.len() as int)),
{
    let ghost d = s@.subrange(start as int, s@.len() as int);
    let mut acc: u64 = 0;
    let mut i: usize = start;
    assert(s@.subrange(start as int, start as int) =~= Seq::<char>::empty());
    while i < s.len()
        invariant
            start <= i <= s@.len(),
            d == s@.subrange(start as int, s@.len() as int),
            all_digits(s@.subrange(start as int, i as int)),
            acc == digits_value(s@.subrange(start as int, i as int)),
        decreases s@.len() - i,
    {
        let ghost pre = s@.subrange(start as int, (i + 1) as int);
        assert(pre.drop_last() =~= s@.subrange(start as int, i as int));
        assert(pre =~= d.subrange(0, (i + 1 - start) as int));
        match digit_at(s[i]) {
            None => {
                assert(!is_digit(d[(i - start) as int]));
                return None;
            },
            Some(v) => {
                if acc > (u64::MAX - v) / 10 {
                    proof {
                        if all_digits(d) {
                            lemma_prefix_value(d, (i + 1 - start) as int);
                        }
                    }
                    return None;
                }
                acc = acc * 10 + v;
            },
        }
        i += 1;
    }
    assert(s@.subrange(start as int, i as int) =~= d);
    Some(acc)
}

/// Reads `s` as `str::parse::<u64>` does.
pub fn parse_u64(s: &[char]) -> (r: Option<u64>)
    ensures
        r is Some <==> within(unsigned_value(s@), 0, u64::MAX as int) is Some,
        r is Some ==> r.unwrap() == unsigned_value(s@).unwrap(),
{
    let start: usize = if s.len() > 0 && s[0] == '+' { 1 } else { 0 };
    assert(start == 1 ==> s@.drop_first() =~= s@.subrange(1, s@.len() as int));
    assert(s@.subrange(0, s@.len() as int) =~= s@);
    if start == s.len() {
        return None;
    }
    let r = digits_from(s, start);
    proof {
        if r is Some {
            lemma_digits_nonneg(s@.subrange(start as int, s@.len() as int));
        }
    }
    r
}

/// Reads `s` as `str::parse::<u32>` does.
pub fn parse_u32(s: &[char]) -> (r: Option<u32>)
    ensures
        r is Some <==> within(unsigned_value(s@), 0, u32::MAX as int) is Some,
        r is Some ==> r.unwrap() == unsigned_value(s@).unwrap(),
{
    match parse_u64(s) {
        Some(v) => if v <= u32::MAX as u64 {
            Some(v as u32)
        } else {
            None
        },
        None => None,
    }
}

/// Reads `s` as `str::parse::<i32>` does.
pub fn parse_i32(s: &[char]) -> (r: Option<i32>)
    ensures
        r is Some <==> within(signed_value(s@), i32::MIN as int, i32::MAX as int) is Some,
        r is Some ==> r.unwrap() == signed_value(s@).unwrap(),
{
    if s.len() > 0 && s[0] == '-' {
        assert(s@.drop_first() =~= s@.subrange(1, s@.len() as int));
        if s.len() == 1 {
            return None;
        }
        let r = digits_from(s, 1);
        proof {
            if r is Some {
                lemma_digits_nonneg(s@.subrange(1, s@.len() as int));
            }
        }
        match r {
            Some(v) => if v <= 2147483648 {
                Some((0 - (v as i64)) as i32)
            } else {
                None
            },
            None => None,
        }
    } else {
        proof {
            let d = if s@.len() > 0 && s@[0] == '+' { s@.drop_first() } else { s@ };
            if all_digits(d) {
                lemma_digits_nonneg(d);
            }
        }
        match parse_u64(s) {
            Some(v) => if v <= i32::MAX as u64 {
                Some(v as i32)
            } else {
                None
            },
            None => None,
        }
    }
}

fn digit_char_of(d: u64) -> (r: char)
    requires
        d < 10,
    ensures
        r == digit_char(d as int),
{
    if d == 0 { '0' }
    else if d == 1 { '1' }
    else if d == 2 { '2' }
    else if d == 3 { '3' }
    else if d == 4 { '4' }
    else if d == 5 { '5' }
    else if d == 6 { '6' }
    else if d == 7 { '7' }
    else if d == 8 { '8' }
    else { '9' }
}

/// Appends the last `n` digits of `v`, zero-padded to `n` places.
pub fn push_digits(out: &mut Vec<char>, v: u64, n: u64)
    ensures
        final(out)@ == old(out)@ + digits_n(v as nat, n as nat),
    decreases n,
{
    if n == 0 {
        assert(old(out)@ + Seq::<char>::empty() =~= old(out)@);
        return;
    }
    push_digits(out, v / 10, n - 1);
    out.push(digit_char_of(v % 10));
    assert(final(out)@ =~= old(out)@ + digits_n(v as nat, n as nat));
}

/// The number of decimal digits of `v`.
pub fn width_of_u64(v: u64) -> (r: u64)
    ensures
        r == width_of(v as nat),
        r <= 20,
    decreases v,
{
    if v < 10 {
        1
    } else {
        let w = width_of_u64(v / 10);
        proof {
            lemma_width_bound(v as nat);
        }
        1 + w
    }
}

proof fn lemma_width_bound(v: nat)
    requires
        v <= u64::MAX,
    ensures
        width_of(v) <= 20,
{
    reveal_with_fuel(pow10, 21);
    assert(pow10(20) == 100000000000000000000nat);
    lemma_width_le(v, 20);
}

pub proof fn lemma_width_le(v: nat, n: nat)
    requires
        n >= 1,
        v < pow10(n),
    ensures
        width_of(v) <= n,
    decreases n,
{
    if v >= 10 {
        assert(v / 10 < pow10((n - 1) as nat)) by {
            assert(pow10(n) == 10 * pow10((n - 1) as nat));
        }
        if n == 1 {
            assert(pow10(1) == 10 * pow10(0));
        } else {
            lemma_width_le(v / 10, (n - 1) as nat);
        }
    }
}

pub open spec fn pow10(n: nat) -> nat
    decreases n,
{
    if n == 0 {
        1
    } else {
        10 * pow10((n - 1) as nat)
    }
}

/// Appends `v` in decimal, zero-padded to at least `n` places.
pub fn push_padded(out: &mut Vec<char>, v: u64, n: u64)
    ensures
        final(out)@ == old(out)@ + padded(v as nat, n as nat),
{
    let w = width_of_u64(v);
    if w > n {
        push_digits(out, v, w);
    } else {
        push_digits(out, v, n);
    }
}

pub proof fn lemma_pow10_positive(n: nat)
    ensures
        pow10(n) > 0,
    decreases n,
{
    if n > 0 {
        lemma_pow10_positive((n - 1) as nat);
    }
}

pub proof fn lemma_pow10_monotonic(a: nat, b: nat)
    requires
        a <= b,
    ensures
        pow10(a) <= pow10(b),
    decreases b,
{
    if a < b {
        lemma_pow10_monotonic(a, (b - 1) as nat);
        lemma_pow10_positive((b - 1) as nat);
    }
}

/// A number is below ten to the power of its width.
pub proof fn lemma_below_width(v: nat)
    ensures
        v < pow10(width_of(v)),
    decreases v,
{
    reveal_with_fuel(pow10, 2);
    if v >= 10 {
        lemma_below_width(v / 10);
    }
}

pub proof fn lemma_digits_n_len(v: nat, n: nat)
    ensures
        digits_n(v, n).len() == n,
    decreases n,
{
    if n > 0 {
        lemma_digits_n_len(v / 10, (n - 1) as nat);
    }
}

/// Every character of a zero-padded number is a digit.
pub proof fn lemma_digits_n_digits(v: nat, n: nat)
    ensures
        all_digits(digits_n(v, n)),
    decreases n,
{
    if n > 0 {
        lemma_digits_n_digits(v / 10, (n - 1) as nat);
        let d = v % 10;
        assert(is_digit(digit_char(d as int)));
        assert(forall|i: int|
            0 <= i < digits_n(v, n).len() ==> #[trigger] digits_n(v, n)[i] == if i < n - 1 {
                digits_n(v / 10, (n - 1) as nat)[i]
            } else {
                digit_char(d as int)
            }) by {
            lemma_digits_n_len(v / 10, (n - 1) as nat);
        }
    }
}

/// The `n` digits spell the number modulo ten to the `n`.
pub proof fn lemma_digits_n_value(v: nat, n: nat)
    ensures
        digits_value(digits_n(v, n)) == v % pow10(n),
    decreases n,
{
    if n == 0 {
        assert(v % 1 == 0) by (nonlinear_arith);
    } else {
        let p = pow10((n - 1) as nat);
        lemma_pow10_positive((n - 1) as nat);
        lemma_digits_n_value(v / 10, (n - 1) as nat);
        let s = digits_n(v, n);
        assert(s.drop_last() =~= digits_n(v / 10, (n - 1) as nat));
        assert(digit_of(digit_char((v % 10) as int)) == v % 10);
        vstd::arithmetic::div_mod::lemma_breakdown(v as int, 10, p as int);
    }
}

pub proof fn lemma_padded_len(v: nat, n: nat)
    ensures
        padded(v, n).len() == if width_of(v) > n { width_of(v) } else { n },
{
    lemma_digits_n_len(v, width_of(v));
    lemma_digits_n_len(v, n);
}

/// The digits of `padded(v, n)` spell `v`.
pub proof fn lemma_padded_value(v: nat, n: nat)
    ensures
        digits_value(padded(v, n)) == v,
        all_digits(padded(v, n)),
{
    let w = if width_of(v) > n { width_of(v) } else { n };
    lemma_below_width(v);
    lemma_pow10_monotonic(width_of(v), w);
    lemma_digits_n_value(v, w);
    lemma_digits_n_digits(v, w);
    vstd::arithmetic::div_mod::lemma_small_mod(v, pow10(w));
}

} // verus!
