//! Decimal numerals and clock-style durations as they appear in the
//! extraction tool's progress lines.

use vstd::prelude::*;
use vstd::arithmetic::div_mod::{
    lemma_div_denominator, lemma_div_multiples_vanish_fancy, lemma_fundamental_div_mod,
    lemma_multiply_divide_lt,
};
use vstd::arithmetic::mul::lemma_mul_inequality;

verus! {

pub open spec fn is_digit(c: char) -> bool {
    '0' <= c && c <= '9'
}

pub open spec fn digit_of(c: char) -> nat {
    (c as u32 - '0' as u32) as nat
}

pub open spec fn all_digits(s: Seq<char>) -> bool {
    forall|i: int| 0 <= i < s.len() ==> is_digit(#[trigger] s[i])
}

/// Value of a string of decimal digits, most significant first.
pub open spec fn digits_value(s: Seq<char>) -> nat
    decreases s.len(),
{
    if s.len() == 0 {
        0
    } else {
        digits_value(s.drop_last()) * 10 + digit_of(s.last())
    }
}

pub open spec fn pow10(n: nat) -> nat
    decreases n,
{
    if n == 0 {
        1
    } else {
        10 * pow10((n - 1) as nat)
    }
}

pub open spec fn u64_max() -> nat {
    0xffff_ffff_ffff_ffffnat
}

/// `x`, or the largest `u64` where `x` exceeds it.
pub open spec fn saturate(x: nat) -> nat {
    if x > u64_max() {
        u64_max()
    } else {
        x
    }
}

/// A numeral: digits, optionally followed by a point and more digits.
pub open spec fn is_numeral(s: Seq<char>) -> bool {
    ||| (s.len() > 0 && all_digits(s))
    ||| exists|k: int| is_point_at(s, k)
}

/// `s` is a numeral whose point stands at `k`.
pub open spec fn is_point_at(s: Seq<char>, k: int) -> bool {
    &&& 0 < k < s.len() - 1
    &&& s[k] == '.'
    &&& all_digits(s.take(k))
    &&& all_digits(s.skip(k + 1))
}

/// Index of the point of a numeral, or its length when it has none.
pub open spec fn point_index(s: Seq<char>) -> int {
    if exists|k: int| is_point_at(s, k) {
        choose|k: int| is_point_at(s, k)
    } else {
        s.len() as int
    }
}

pub open spec fn whole_digits(s: Seq<char>) -> Seq<char> {
    s.take(point_index(s))
}

pub open spec fn fraction_digits(s: Seq<char>) -> Seq<char> {
    if point_index(s) < s.len() {
        s.skip(point_index(s) + 1)
    } else {
        Seq::empty()
    }
}

/// The value of numeral `s` times `m`, rounded down.
pub open spec fn scaled_value(s: Seq<char>, m: nat) -> nat {
    let f = fraction_digits(s);
    digits_value(whole_digits(s)) * m + digits_value(f) * m / pow10(f.len())
}

proof fn lemma_pow10_positive(n: nat)
    ensures
        pow10(n) > 0,
    decreases n,
{
    if n > 0 {
        lemma_pow10_positive((n - 1) as nat);
    }
}

proof fn lemma_digits_value_bound(s: Seq<char>)
    requires
        all_digits(s),
    ensures
        digits_value(s) < pow10(s.len()),
    decreases s.len(),
{
    if s.len() > 0 {
        assert(all_digits(s.drop_last()));
        lemma_digits_value_bound(s.drop_last());
        assert(is_digit(s[s.len() - 1]));
    }
}

/// Splitting off the leading digit.
proof fn lemma_digits_value_first(s: Seq<char>)
    requires
        s.len() > 0,
    ensures
        digits_value(s) == digit_of(s[0]) * pow10((s.len() - 1) as nat) + digits_value(
            s.drop_first(),
        ),
    decreases s.len(),
{
    if s.len() == 1 {
        assert(s.drop_last() =~= Seq::<char>::empty());
        assert(s.drop_first() =~= Seq::<char>::empty());
        assert(digits_value(Seq::<char>::empty()) == 0);
        assert(pow10(0) == 1);
        assert(s.last() == s[0]);
        assert(digits_value(s) == digit_of(s[0]));
        assert(digits_value(s) == digit_of(s[0]) * pow10((s.len() - 1) as nat) + digits_value(
            s.drop_first(),
        ));
    } else {
        let t = s.drop_last();
        lemma_digits_value_first(t);
        assert(t.drop_first() =~= s.drop_first().drop_last());
        assert(s.drop_first().last() == s.last());
        assert(digits_value(s.drop_first()) == digits_value(t.drop_first()) * 10 + digit_of(
            s.last(),
        ));
        assert(digits_value(s) == digits_value(t) * 10 + digit_of(s.last()));
        assert(t[0] == s[0]);
        let x = digits_value(t.drop_first());
        let d0 = digit_of(s[0]);
        let p = pow10((t.len() - 1) as nat);
        assert(pow10((s.len() - 1) as nat) == 10 * p);
        assert((d0 * p + x) * 10 + digit_of(s.last()) == d0 * (10 * p) + (x * 10 + digit_of(
            s.last(),
        ))) by (nonlinear_arith);
        assert(digits_value(t) == d0 * p + x);
        assert(digits_value(s) == (d0 * p + x) * 10 + digit_of(s.last()));
        assert(digits_value(s) == d0 * (10 * p) + digits_value(s.drop_first()));
    }
}

proof fn lemma_digits_value_push(s: Seq<char>, i: int)
    requires
        0 <= i < s.len(),
    ensures
        digits_value(s.take(i + 1)) == digits_value(s.take(i)) * 10 + digit_of(s[i]),
{
    assert(s.take(i + 1).drop_last() =~= s.take(i));
}

/// One step of rounding down a fraction times `m`, leading digit first.
proof fn lemma_fraction_step(f: Seq<char>, m: nat)
    requires
        f.len() > 0,
        all_digits(f),
        m > 0,
    ensures
        digits_value(f) * m / pow10(f.len()) == (digit_of(f[0]) * m + digits_value(f.drop_first())
            * m / pow10(f.drop_first().len())) / 10,
{
    let b = pow10(f.drop_first().len()) as int;
    lemma_pow10_positive(f.drop_first().len());
    lemma_digits_value_first(f);
    let a = (digit_of(f[0]) * m) as int;
    let c = (digits_value(f.drop_first()) * m) as int;
    assert(digits_value(f) * m == a * b + c) by (nonlinear_arith)
        requires
            digits_value(f) == digit_of(f[0]) * b + digits_value(f.drop_first()),
            a == digit_of(f[0]) * m,
            c == digits_value(f.drop_first()) * m,
    ;
    assert(pow10(f.len()) == b * 10);
    lemma_div_denominator(a * b + c, b, 10);
    lemma_fundamental_div_mod(c, b);
    assert(a * b + c == b * (a + c / b) + c % b) by (nonlinear_arith)
        requires
            c == b * (c / b) + c % b,
    ;
    lemma_div_multiples_vanish_fancy(a + c / b, c % b, b);
}

proof fn lemma_fraction_below(f: Seq<char>, m: nat)
    requires
        all_digits(f),
        m > 0,
    ensures
        digits_value(f) * m / pow10(f.len()) < m,
{
    lemma_digits_value_bound(f);
    lemma_pow10_positive(f.len());
    lemma_mul_inequality(digits_value(f) as int + 1, pow10(f.len()) as int, m as int);
    assert(digits_value(f) * m < pow10(f.len()) * m) by (nonlinear_arith)
        requires
            digits_value(f) < pow10(f.len()),
            m > 0,
    ;
    lemma_multiply_divide_lt((digits_value(f) * m) as int, pow10(f.len()) as int, m as int);
}

/// Reads the digit at `i`.
fn digit_at(s: &Vec<char>, i: usize) -> (r: u64)
    requires
        i < s@.len(),
        is_digit(s@[i as int]),
    ensures
        r == digit_of(s@[i as int]),
        r <= 9,
{
    ((s[i] as u32) - ('0' as u32)) as u64
}

/// Value of numeral `s` times `m`, rounded down, or the largest `u64` where
/// that exceeds it; `None` where `s` is not a numeral.
pub fn scaled_numeral(s: &Vec<char>, m: u64) -> (r: Option<u64>)
    requires
        0 < m <= 0x100_0000_0000,
    ensures
        r is Some <==> is_numeral(s@),
        r is Some ==> r->Some_0 == saturate(scaled_value(s@, m as nat)),
{
    let n = s.len();
    // Leading digits.
    let mut k: usize = 0;
    while k < n && '0' <= s[k] && s[k] <= '9'
        invariant
            k <= n == s@.len(),
            all_digits(s@.take(k as int)),
        decreases n - k,
    {
        assert(s@.take(k + 1 as int) =~= s@.take(k as int).push(s@[k as int]));
        k = k + 1;
    }
    if k == 0 {
        proof {
            if exists|j: int| is_point_at(s@, j) {
                let j = choose|j: int| is_point_at(s@, j);
                assert(is_digit(s@.take(j)[0]));
            }
            assert(!all_digits(s@) || s@.len() == 0) by {
                if s@.len() > 0 {
                    assert(!is_digit(s@[0]));
                }
            }
        }
        return None;
    }
    // Optional point and fraction digits.
    let mut end: usize = k;
    if k < n {
        if s[k] != '.' || k + 1 == n {
            proof {
                assert(!is_digit(s@[k as int]));
                assert(!all_digits(s@));
                if exists|j: int| is_point_at(s@, j) {
                    let j = choose|j: int| is_point_at(s@, j);
                    if j < k {
                        assert(is_digit(s@.take(k as int)[j]));
                    } else if j > k {
                        assert(s@.take(j)[k as int] == s@[k as int]);
                    }
                }
            }
            return None;
        }
        end = k + 1;
        while end < n && '0' <= s[end] && s[end] <= '9'
            invariant
                k + 1 <= end <= n == s@.len(),
                forall|j: int| k + 1 <= j < end ==> is_digit(#[trigger] s@[j]),
            decreases n - end,
        {
            end = end + 1;
        }
        if end < n {
            proof {
                assert(!is_digit(s@[end as int]));
                assert(!all_digits(s@)) by {
                    assert(s@[k as int] == '.');
                }
                if exists|j: int| is_point_at(s@, j) {
                    let j = choose|j: int| is_point_at(s@, j);
                    if j < k {
                        assert(is_digit(s@.take(k as int)[j]));
                    } else if j > k {
                        assert(s@.take(j)[k as int] == s@[k as int]);
                    } else {
                        assert(s@.skip(j + 1)[end - j - 1] == s@[end as int]);
                    }
                }
            }
            return None;
        }
    }
    proof {
        if k < n {
            assert(is_point_at(s@, k as int)) by {
                assert forall|j: int| 0 <= j < s@.skip(k + 1).len() implies is_digit(
                    #[trigger] s@.skip(k + 1)[j],
                ) by {
                    assert(s@.skip(k + 1)[j] == s@[k + 1 + j]);
                }
            }
            assert forall|j: int| is_point_at(s@, j) implies j == k by {
                if j < k {
                    assert(is_digit(s@.take(k as int)[j]));
                } else if j > k {
                    assert(s@.take(j)[k as int] == s@[k as int]);
                }
            }
        } else {
            assert(s@.take(k as int) =~= s@);
            assert forall|j: int| !is_point_at(s@, j) by {
                if is_point_at(s@, j) {
                    assert(is_digit(s@.take(k as int)[j]));
                }
            }
        }
    }
    let ghost whole = s@.take(k as int);
    let ghost frac = if k < n {
        s@.skip(k + 1)
    } else {
        Seq::<char>::empty()
    };
    assert(whole == whole_digits(s@));
    assert(frac == fraction_digits(s@));
    // Fraction times m, rounded down, from the last digit back.
    let mut acc: u64 = 0;
    let mut j: usize = n;
    if k < n {
        proof {
            assert(frac.skip(frac.len() as int) =~= Seq::<char>::empty());
            assert(frac.len() == n - k - 1);
            assert(digits_value(Seq::<char>::empty()) == 0);
            assert(pow10(0) == 1);
            assert(all_digits(frac)) by {
                assert(is_point_at(s@, k as int));
            }
        }
        while j > k + 1
            invariant
                k + 1 <= j <= n == s@.len(),
                k < n,
                frac == s@.skip(k + 1),
                all_digits(frac),
                0 < m <= 0x100_0000_0000,
                acc as int == (digits_value(frac.skip(j - k - 1)) * m) as int / pow10(
                    frac.skip(j - k - 1).len(),
                ) as int,
                acc < m,
            decreases j,
        {
            let ghost tail = frac.skip(j - k - 2);
            assert(tail.drop_first() =~= frac.skip(j - k - 1));
            assert(tail[0] == s@[j - 1]);
            assert(all_digits(tail)) by {
                assert forall|i: int| 0 <= i < tail.len() implies is_digit(#[trigger] tail[i]) by {
                    assert(tail[i] == frac[j - k - 2 + i]);
                }
            }
            let d = digit_at(s, j - 1);
            proof {
                lemma_fraction_step(tail, m as nat);
                lemma_fraction_below(tail, m as nat);
                assert(d * m + acc <= 10 * m) by (nonlinear_arith)
                    requires
                        d <= 9,
                        acc < m,
                ;
            }
            acc = (d * m + acc) / 10;
            j = j - 1;
        }
        assert(frac.skip(0) =~= frac);
    } else {
        assert(digits_value(frac) == 0);
        assert(pow10(0) == 1);
    }
    assert(acc as int == (digits_value(frac) * m) as int / pow10(frac.len()) as int);
    // Whole part times m.
    let mut w: u64 = 0;
    let mut i: usize = 0;
    while i < k
        invariant
            i <= k <= n == s@.len(),
            whole == s@.take(k as int),
            whole == whole_digits(s@),
            is_numeral(s@),
            all_digits(whole),
            0 < m <= 0x100_0000_0000,
            w == digits_value(whole.take(i as int)),
        decreases k - i,
    {
        assert(whole[i as int] == s@[i as int]);
        let d = digit_at(s, i);
        proof {
            lemma_digits_value_push(whole, i as int);
        }
        if w > (u64::MAX - d) / 10 {
            proof {
                assert(w * 10 + d > u64_max()) by (nonlinear_arith)
                    requires
                        w as int > (u64_max() - d) as int / 10,
                        d <= 9,
                ;
                assert(digits_value(whole.take(i + 1)) > u64_max());
                lemma_digits_value_prefix(whole, i + 1);
                assert(whole.take(k as int) =~= whole);
                assert(digits_value(whole) > u64_max());
                let f = fraction_digits(s@);
                assert(scaled_value(s@, m as nat) == digits_value(whole) * (m as nat) + digits_value(
                    f,
                ) * (m as nat) / pow10(f.len()));
                assert(digits_value(whole) * (m as nat) >= digits_value(whole)) by (nonlinear_arith)
                    requires
                        m > 0,
                ;
                lemma_pow10_positive(f.len());
                let q: nat = digits_value(f) * (m as nat) / pow10(f.len());
                assert(scaled_value(s@, m as nat) == digits_value(whole) * (m as nat) + q);
            }
            return Some(u64::MAX);
        }
        w = w * 10 + d;
        i = i + 1;
    }
    assert(whole.take(k as int) =~= whole);
    if w > (u64::MAX - acc) / m {
        proof {
            assert(w * m + acc > u64_max()) by (nonlinear_arith)
                requires
                    w as int > (u64_max() - acc) as int / m as int,
                    m > 0,
                    acc <= u64_max(),
            ;
        }
        return Some(u64::MAX);
    }
    proof {
        assert(w * m + acc <= u64_max()) by (nonlinear_arith)
            requires
                w as int <= (u64_max() - acc) as int / m as int,
                m > 0,
                acc <= u64_max(),
        ;
    }
    Some(w * m + acc)
}

/// A prefix of a digit string is worth no more than the whole.
proof fn lemma_digits_value_prefix(s: Seq<char>, i: int)
    requires
        0 <= i <= s.len(),
    ensures
        digits_value(s.take(i)) <= digits_value(s),
    decreases s.len() - i,
{
    if i < s.len() {
        lemma_digits_value_prefix(s, i + 1);
        lemma_digits_value_push(s, i);
    } else {
        assert(s.take(i) =~= s);
    }
}

/// Groups of digits separated by single colons, such as `SS`, `MM:SS` or
/// `HH:MM:SS`.
pub open spec fn is_clock(v: Seq<char>) -> bool {
    &&& v.len() > 0
    &&& forall|i: int| 0 <= i < v.len() ==> is_digit(#[trigger] v[i]) || v[i] == ':'
    &&& v[0] != ':'
    &&& v.last() != ':'
    &&& forall|i: int| 0 <= i < v.len() - 1 ==> !(#[trigger] v[i] == ':' && v[i + 1] == ':')
}

/// Reads the rest of a clock, having read whole groups worth `done` and a
/// started group worth `cur`: each group multiplies what came before by 60.
pub open spec fn clock_run(done: nat, cur: nat, rest: Seq<char>) -> nat
    decreases rest.len(),
{
    if rest.len() == 0 {
        done * 60 + cur
    } else if rest[0] == ':' {
        clock_run(done * 60 + cur, 0, rest.drop_first())
    } else {
        clock_run(done, cur * 10 + digit_of(rest[0]), rest.drop_first())
    }
}

/// Seconds written by a clock.
pub open spec fn clock_seconds(v: Seq<char>) -> nat {
    clock_run(0, 0, v)
}

proof fn lemma_clock_run_grows(done: nat, cur: nat, rest: Seq<char>)
    ensures
        clock_run(done, cur, rest) >= done * 60 + cur,
    decreases rest.len(),
{
    if rest.len() > 0 {
        if rest[0] == ':' {
            lemma_clock_run_grows(done * 60 + cur, 0, rest.drop_first());
            assert((done * 60 + cur) * 60 >= done * 60 + cur) by (nonlinear_arith);
        } else {
            lemma_clock_run_grows(done, cur * 10 + digit_of(rest[0]), rest.drop_first());
            assert(cur * 10 + digit_of(rest[0]) >= cur) by (nonlinear_arith);
        }
    }
}

/// Seconds of an `ETA` value written as `[[hours:]minutes:]seconds`; `None`
/// where it is not such a value or the count does not fit in a `u64`.
pub fn parse_eta(value: &str) -> (r: Option<u64>)
    ensures
        r is Some <==> is_clock(value@) && clock_seconds(value@) <= u64_max(),
        r is Some ==> r->Some_0 == clock_seconds(value@),
{
    let n = value.unicode_len();
    let ghost v = value@;
    let mut done: u64 = 0;
    let mut cur: u64 = 0;
    let mut i: usize = 0;
    let mut need_digit = true;
    assert(v.skip(0) =~= v);
    while i < n
        invariant
            n == v.len(),
            v == value@,
            i <= n,
            need_digit == (i == 0 || v[i - 1] == ':'),
            forall|j: int| 0 <= j < i ==> is_digit(#[trigger] v[j]) || v[j] == ':',
            i > 0 ==> v[0] != ':',
            forall|j: int| 0 <= j < i - 1 ==> !(#[trigger] v[j] == ':' && v[j + 1] == ':'),
            clock_seconds(v) == clock_run(done as nat, cur as nat, v.skip(i as int)),
        decreases n - i,
    {
        let c = value.get_char(i);
        let ghost rest = v.skip(i as int);
        assert(rest[0] == c);
        assert(rest.drop_first() =~= v.skip(i + 1));
        if c == ':' {
            if need_digit {
                proof {
                    if is_clock(v) {
                        if i > 0 {
                            assert(!(v[i - 1] == ':' && v[i as int] == ':'));
                        }
                    }
                }
                return None;
            }
            if done > (u64::MAX - cur) / 60 {
                proof {
                    assert(done * 60 + cur > u64_max()) by (nonlinear_arith)
                        requires
                            done as int > (u64_max() - cur) as int / 60,
                    ;
                    lemma_clock_run_grows((done * 60 + cur) as nat, 0, v.skip(i + 1));
                }
                return None;
            }
            done = done * 60 + cur;
            cur = 0;
            need_digit = true;
        } else if '0' <= c && c <= '9' {
            let d = ((c as u32) - ('0' as u32)) as u64;
            if cur > (u64::MAX - d) / 10 {
                proof {
                    assert(cur * 10 + d > u64_max()) by (nonlinear_arith)
                        requires
                            cur as int > (u64_max() - d) as int / 10,
                            d <= 9,
                    ;
                    lemma_clock_run_grows(done as nat, (cur * 10 + d) as nat, v.skip(i + 1));
                }
                return None;
            }
            cur = cur * 10 + d;
            need_digit = false;
        } else {
            assert(!is_clock(v)) by {
                assert(!(is_digit(v[i as int]) || v[i as int] == ':'));
            }
            return None;
        }
        i = i + 1;
    }
    if need_digit {
        proof {
            if v.len() > 0 {
                assert(v.last() == v[n - 1]);
            }
        }
        return None;
    }
    assert(v.skip(n as int) =~= Seq::<char>::empty());
    if done > (u64::MAX - cur) / 60 {
        proof {
            assert(done * 60 + cur > u64_max()) by (nonlinear_arith)
                requires
                    done as int > (u64_max() - cur) as int / 60,
            ;
        }
        return None;
    }
    proof {
        assert(done * 60 + cur <= u64_max()) by (nonlinear_arith)
            requires
                done as int <= (u64_max() - cur) as int / 60,
        ;
        assert(v.last() == v[n - 1]);
    }
    Some(done * 60 + cur)
}

} // verus!
