//! Numbers in single precision.
//!
//! A report writes a number in decimal, and it is held to twenty-four binary places: the nearest
//! number that many places can hold, and of two equally near the even one. To find it no digit may
//! be lost on the way, so the arithmetic here is on whole numbers of any size, kept as their decimal
//! digits.

use vstd::prelude::*;

use crate::text::{
    all_digits, decimal, digit, is_digit, nearest, number, push_digit, ten_to, ten_to_grows,
};

verus! {

/// A number as single precision holds it.
#[derive(Debug, Clone, Copy, PartialEq, Eq, Structural)]
pub enum Single {
    /// So many times two to a power.
    Finite { negative: bool, mantissa: u32, exponent: i32 },
    /// Past the largest number there is, or without limit.
    Infinite { negative: bool },
    NotANumber,
}

/// Two to the power `n`.
pub open spec fn two_to(n: nat) -> nat
    decreases n,
{
    if n == 0 {
        1
    } else {
        2 * two_to((n - 1) as nat)
    }
}

/// Two to a power, where that is not negative; one otherwise.
pub open spec fn doublings(n: int) -> nat {
    if n > 0 {
        two_to(n as nat)
    } else {
        1
    }
}

/// The number nearest to `n / d`, counted in the steps there are at `k` or a larger step: `n / d` is
/// in the smallest steps of all, and each step is twice the one before it.
pub open spec fn single_from(negative: bool, n: nat, d: nat, k: int) -> Single
    decreases 254 - k,
{
    if k >= 254 {
        Single::Infinite { negative }
    } else if n >= d * 16_777_216 {
        single_from(negative, n, d * 2, k + 1)
    } else if nearest(n, d) < 16_777_216 {
        Single::Finite { negative, mantissa: nearest(n, d) as u32, exponent: (k - 149) as i32 }
    } else if k < 253 {
        Single::Finite { negative, mantissa: 8_388_608, exponent: (k - 148) as i32 }
    } else {
        Single::Infinite { negative }
    }
}

/// The number nearest to `n / d`. The smallest step is two to the power of minus 149.
pub open spec fn nearest_single(negative: bool, n: nat, d: nat) -> Single {
    single_from(negative, n * two_to(149), d, 0)
}

impl Single {
    /// Nought.
    pub open spec fn nought(negative: bool) -> Single {
        Single::Finite { negative, mantissa: 0, exponent: -149i32 }
    }

    /// Whether it is below a whole number.
    pub open spec fn is_below(self, whole: nat) -> bool {
        match self {
            Single::Finite { negative, mantissa, exponent } => negative || mantissa * doublings(
                exponent as int,
            ) < whole * doublings(-exponent),
            Single::Infinite { negative } => negative,
            Single::NotANumber => false,
        }
    }

    /// Whether it is a whole number or below it.
    pub open spec fn is_up_to(self, whole: nat) -> bool {
        match self {
            Single::Finite { negative, mantissa, exponent } => negative || mantissa * doublings(
                exponent as int,
            ) <= whole * doublings(-exponent),
            Single::Infinite { negative } => negative,
            Single::NotANumber => false,
        }
    }

    /// The quotient of two numbers. Dividing by nought is without limit, and so is dividing what is;
    /// nought by nought, and the infinite by the infinite, are no number.
    pub open spec fn divided_by(self, by: Single) -> Single {
        match (self, by) {
            (
                Single::Finite { negative, mantissa, exponent },
                Single::Finite { negative: turned, mantissa: under, exponent: lower },
            ) => if under > 0 {
                nearest_single(
                    negative != turned,
                    mantissa as nat * doublings(exponent - lower),
                    under as nat * doublings(lower - exponent),
                )
            } else if mantissa > 0 {
                Single::Infinite { negative: negative != turned }
            } else {
                Single::NotANumber
            },
            (
                Single::Finite { negative, .. },
                Single::Infinite { negative: turned },
            ) => Single::nought(negative != turned),
            (
                Single::Infinite { negative },
                Single::Finite { negative: turned, .. },
            ) => Single::Infinite { negative: negative != turned },
            _ => Single::NotANumber,
        }
    }

    /// The sum with a whole number that is not negative.
    pub open spec fn plus(self, whole: nat) -> Single {
        match self {
            Single::Finite { negative, mantissa, exponent } => {
                let under = doublings(-exponent);
                let size = mantissa as nat * doublings(exponent as int);
                let more = under * whole;
                if !negative {
                    nearest_single(false, size + more, under)
                } else if size > more {
                    nearest_single(true, (size - more) as nat, under)
                } else {
                    nearest_single(false, (more - size) as nat, under)
                }
            },
            _ => self,
        }
    }
}

// --- whole numbers of any size -------------------------------------------------------------

/// The number that decimal digits write, the lowest first.
pub open spec fn value(s: Seq<u8>) -> nat
    decreases s.len(),
{
    if s.len() == 0 {
        0
    } else {
        s[0] as nat + 10 * value(s.skip(1))
    }
}

/// Whether each is a decimal digit.
pub open spec fn are_digits(s: Seq<u8>) -> bool {
    forall|i: int| 0 <= i < s.len() ==> #[trigger] s[i] < 10
}

/// A digit more at the top.
proof fn value_pushed(s: Seq<u8>, d: u8)
    ensures
        value(s.push(d)) == value(s) + d * ten_to(s.len()),
    decreases s.len(),
{
    let longer = s.push(d);
    if s.len() == 0 {
        assert(longer.skip(1) =~= Seq::<u8>::empty());
        assert(value(longer.skip(1)) == 0);
        let t = ten_to(0) as int;
        assert(t == 1);
        assert(d * t == d) by (nonlinear_arith)
            requires
                t == 1,
        ;
    } else {
        assert(longer.skip(1) =~= s.skip(1).push(d));
        value_pushed(s.skip(1), d);
        let t = ten_to((s.len() - 1) as nat) as int;
        assert(ten_to(s.len()) == 10 * t);
        assert(10 * (d * t) == d * (10 * t)) by (nonlinear_arith);
    }
}

proof fn value_bound(s: Seq<u8>)
    requires
        are_digits(s),
    ensures
        value(s) < ten_to(s.len()),
    decreases s.len(),
{
    if s.len() > 0 {
        assert(are_digits(s.skip(1))) by {
            assert forall|i: int| 0 <= i < s.skip(1).len() implies #[trigger] s.skip(1)[i] < 10 by {
                assert(s[i + 1] < 10);
            }
        }
        value_bound(s.skip(1));
        assert(s[0] < 10);
    }
}

/// The lowest digits of a number, with noughts past its end.
spec fn lowest(s: Seq<u8>, n: int) -> Seq<u8> {
    Seq::new(
        n as nat,
        |i: int|
            if i < s.len() {
                s[i]
            } else {
                0
            },
    )
}

proof fn lowest_is_all(s: Seq<u8>, n: int)
    requires
        s.len() <= n,
    ensures
        value(lowest(s, n)) == value(s),
    decreases n,
{
    if n == s.len() {
        assert(lowest(s, n) =~= s);
    } else {
        lowest_is_all(s, n - 1);
        assert(lowest(s, n) =~= lowest(s, n - 1).push(0));
        value_pushed(lowest(s, n - 1), 0);
        let t = ten_to((n - 1) as nat) as int;
        assert(0 * t == 0);
    }
}

/// A number times another, and something more.
fn times(a: &Vec<u8>, k: u32, more: u32) -> (r: Vec<u8>)
    requires
        are_digits(a@),
    ensures
        are_digits(r@),
        value(r@) == value(a@) * k + more,
{
    let mut out: Vec<u8> = Vec::new();
    let mut carry: u64 = more as u64;
    let mut i: usize = 0;
    proof {
        assert(a@.take(0) =~= Seq::<u8>::empty());
        let t = ten_to(0) as int;
        assert(t == 1);
        assert(carry * t == carry) by (nonlinear_arith)
            requires
                t == 1,
        ;
        assert(value(a@.take(0)) * k == 0) by (nonlinear_arith)
            requires
                value(a@.take(0)) == 0,
        ;
    }
    while i < a.len()
        invariant
            i <= a.len(),
            are_digits(a@),
            are_digits(out@),
            out@.len() == i,
            carry <= 0xffff_ffff,
            value(out@) + carry * ten_to(i as nat) == value(a@.take(i as int)) * k + more,
        decreases a.len() - i,
    {
        assert(a@[i as int] < 10);
        assert(a@[i as int] * k <= 9 * 0xffff_ffff) by (nonlinear_arith)
            requires
                a@[i as int] <= 9,
                k <= 0xffff_ffff,
        ;
        let t: u64 = a[i] as u64 * k as u64 + carry;
        proof {
            let (p, x, c) = (ten_to(i as nat) as int, a@[i as int] as int, carry as int);
            let (low, high) = (t as int % 10, t as int / 10);
            value_pushed(out@, (t % 10) as u8);
            value_pushed(a@.take(i as int), a@[i as int]);
            assert(a@.take(i as int).push(a@[i as int]) =~= a@.take(i + 1));
            assert(ten_to((i + 1) as nat) == 10 * p);
            let v = value(a@.take(i as int)) as int;
            assert(low * p + high * (10 * p) == (x * k) * p + c * p) by (nonlinear_arith)
                requires
                    low + 10 * high == x * k + c,
            ;
            assert((v + x * p) * k == v * k + (x * k) * p) by (nonlinear_arith);
        }
        out.push((t % 10) as u8);
        carry = t / 10;
        i = i + 1;
    }
    assert(a@.take(i as int) =~= a@);
    while carry > 0
        invariant
            are_digits(out@),
            value(out@) + carry * ten_to(out@.len()) == value(a@) * k + more,
        decreases carry,
    {
        proof {
            let p = ten_to(out@.len()) as int;
            let (low, high) = (carry as int % 10, carry as int / 10);
            value_pushed(out@, (carry % 10) as u8);
            assert(ten_to(out@.len() + 1) == 10 * p);
            assert(low * p + high * (10 * p) == carry * p) by (nonlinear_arith)
                requires
                    low + 10 * high == carry,
            ;
        }
        out.push((carry % 10) as u8);
        carry = carry / 10;
    }
    proof {
        let p = ten_to(out@.len()) as int;
        assert(0 * p == 0);
    }
    out
}

fn digit_of(a: &Vec<u8>, i: usize) -> (r: u8)
    requires
        are_digits(a@),
    ensures
        r < 10,
        r == if i < a@.len() {
            a@[i as int]
        } else {
            0
        },
{
    if i < a.len() {
        assert(a@[i as int] < 10);
        a[i]
    } else {
        0
    }
}

/// Whether a number is below another.
fn less(a: &Vec<u8>, b: &Vec<u8>) -> (r: bool)
    requires
        are_digits(a@),
        are_digits(b@),
    ensures
        r == (value(a@) < value(b@)),
{
    let end: usize = if a.len() < b.len() {
        b.len()
    } else {
        a.len()
    };
    let mut below: bool = false;
    let mut i: usize = 0;
    while i < end
        invariant
            i <= end,
            are_digits(a@),
            are_digits(b@),
            below == (value(lowest(a@, i as int)) < value(lowest(b@, i as int))),
        decreases end - i,
    {
        let x: u8 = digit_of(a, i);
        let y: u8 = digit_of(b, i);
        proof {
            let (s, t) = (lowest(a@, i as int), lowest(b@, i as int));
            assert(are_digits(s) && are_digits(t));
            value_bound(s);
            value_bound(t);
            value_pushed(s, x);
            value_pushed(t, y);
            assert(s.push(x) =~= lowest(a@, i + 1));
            assert(t.push(y) =~= lowest(b@, i + 1));
            let p = ten_to(i as nat) as int;
            let (u, v) = (value(s) as int, value(t) as int);
            assert(x < y ==> u + x * p < v + y * p) by (nonlinear_arith)
                requires
                    0 <= u < p,
                    0 <= v < p,
            ;
            assert(x > y ==> u + x * p > v + y * p) by (nonlinear_arith)
                requires
                    0 <= u < p,
                    0 <= v < p,
            ;
        }
        if x < y {
            below = true;
        } else if x > y {
            below = false;
        }
        i = i + 1;
    }
    proof {
        lowest_is_all(a@, end as int);
        lowest_is_all(b@, end as int);
    }
    below
}

/// A number less another.
fn minus(a: &Vec<u8>, b: &Vec<u8>) -> (r: Vec<u8>)
    requires
        are_digits(a@),
        are_digits(b@),
        value(b@) <= value(a@),
    ensures
        are_digits(r@),
        value(r@) == value(a@) - value(b@),
{
    let end: usize = if a.len() < b.len() {
        b.len()
    } else {
        a.len()
    };
    let mut out: Vec<u8> = Vec::new();
    let mut borrow: u8 = 0;
    let mut i: usize = 0;
    proof {
        let t = ten_to(0) as int;
        assert(0 * t == 0);
    }
    while i < end
        invariant
            i <= end,
            are_digits(a@),
            are_digits(b@),
            are_digits(out@),
            out@.len() == i,
            borrow <= 1,
            value(out@) + value(lowest(b@, i as int)) == value(lowest(a@, i as int)) + borrow
                * ten_to(i as nat),
        decreases end - i,
    {
        let x: u8 = digit_of(a, i);
        let y: u8 = digit_of(b, i);
        let had: u8 = borrow;
        let d: u8 = if x >= y + borrow {
            borrow = 0;
            x - y - had
        } else {
            borrow = 1;
            x + 10 - y - had
        };
        proof {
            let (s, t) = (lowest(a@, i as int), lowest(b@, i as int));
            value_pushed(out@, d);
            value_pushed(s, x);
            value_pushed(t, y);
            assert(s.push(x) =~= lowest(a@, i + 1));
            assert(t.push(y) =~= lowest(b@, i + 1));
            let p = ten_to(i as nat) as int;
            assert(ten_to((i + 1) as nat) == 10 * p);
            assert(d * p + y * p + had * p == x * p + borrow * (10 * p)) by (nonlinear_arith)
                requires
                    d + y + had == x + 10 * borrow,
            ;
        }
        out.push(d);
        i = i + 1;
    }
    proof {
        lowest_is_all(a@, end as int);
        lowest_is_all(b@, end as int);
        value_bound(out@);
        let p = ten_to(end as nat) as int;
        assert(borrow == 1 ==> borrow * p == p) by (nonlinear_arith);
        assert(0 * p == 0);
    }
    out
}

/// A number.
fn whole_number(n: u32) -> (r: Vec<u8>)
    ensures
        are_digits(r@),
        value(r@) == n,
{
    let none: Vec<u8> = Vec::new();
    times(&none, 0, n)
}

/// A number doubled so many times.
fn doubled(a: Vec<u8>, n: i64) -> (r: Vec<u8>)
    requires
        are_digits(a@),
    ensures
        are_digits(r@),
        value(r@) == value(a@) * doublings(n as int),
{
    let ghost was = value(a@) as int;
    let mut r: Vec<u8> = a;
    let mut k: i64 = 0;
    assert(was * 1 == was);
    while k < n
        invariant
            0 <= k,
            n > 0 ==> k <= n,
            n <= 0 ==> k == 0,
            are_digits(r@),
            value(r@) == was * doublings(k as int),
        decreases n - k,
    {
        proof {
            let t = doublings(k as int) as int;
            assert(doublings(k + 1) == 2 * t) by {
                if k == 0 {
                    assert(two_to(1) == 2 * two_to(0));
                }
            }
            assert(was * (2 * t) == (was * t) * 2) by (nonlinear_arith);
        }
        r = times(&r, 2, 0);
        k = k + 1;
    }
    r
}

/// The number that decimal digits write.
fn read_whole(written: &[char]) -> (r: Vec<u8>)
    requires
        all_digits(written@),
    ensures
        are_digits(r@),
        value(r@) == number(written@),
{
    let mut r: Vec<u8> = Vec::new();
    let mut i: usize = 0;
    assert(written@.take(0) =~= Seq::<char>::empty());
    while i < written.len()
        invariant
            i <= written.len(),
            all_digits(written@),
            are_digits(r@),
            value(r@) == number(written@.take(i as int)),
        decreases written.len() - i,
    {
        assert(is_digit(written@[i as int]));
        proof {
            assert(written@.take(i + 1).drop_last() =~= written@.take(i as int));
            assert(written@.take(i + 1).last() == written@[i as int]);
        }
        r = times(&r, 10, written[i] as u32 - 48);
        i = i + 1;
    }
    assert(written@.take(i as int) =~= written@);
    r
}

/// One with so many noughts behind it.
fn one_and_noughts(n: i128) -> (r: Vec<u8>)
    requires
        0 <= n,
    ensures
        are_digits(r@),
        value(r@) == ten_to(n as nat),
{
    let mut r: Vec<u8> = Vec::new();
    let mut i: i128 = 0;
    while i < n
        invariant
            0 <= i <= n,
            are_digits(r@),
            r@.len() == i,
            value(r@) == 0,
        decreases n - i,
    {
        proof {
            value_pushed(r@, 0);
            let t = ten_to(i as nat) as int;
            assert(0 * t == 0);
        }
        r.push(0);
        i = i + 1;
    }
    proof {
        value_pushed(r@, 1);
        let t = ten_to(n as nat) as int;
        assert(1 * t == t);
    }
    r.push(1);
    r
}

proof fn digits_written(s: Seq<u8>)
    requires
        are_digits(s),
        s.len() >= 1,
        s.len() > 1 ==> s.last() != 0,
    ensures
        decimal(value(s)) == Seq::new(s.len(), |i: int| digit(s[s.len() - 1 - i] as nat)),
        s.last() != 0 ==> value(s) >= 1,
    decreases s.len(),
{
    let rest = s.skip(1);
    let text = Seq::new(s.len(), |i: int| digit(s[s.len() - 1 - i] as nat));
    assert(s[0] < 10);
    if s.len() == 1 {
        assert(value(rest) == 0);
        assert(decimal(value(s)) =~= text);
    } else {
        assert forall|i: int| 0 <= i < rest.len() implies #[trigger] rest[i] < 10 by {
            assert(s[i + 1] < 10);
        }
        assert(rest.last() == s.last());
        digits_written(rest);
        let v = value(s) as int;
        assert(v / 10 == value(rest) && v % 10 == s[0]);
        let front = Seq::new(rest.len(), |i: int| digit(rest[rest.len() - 1 - i] as nat));
        assert(decimal(value(rest)) == front);
        assert(front.push(digit(s[0] as nat)) =~= text);
    }
}

/// Write a number doubled so many times.
pub fn push_doubled(out: &mut String, n: u32, times_two: i32)
    ensures
        final(out)@ == old(out)@ + decimal(n as nat * doublings(times_two as int)),
{
    let ghost was = out@;
    let all: Vec<u8> = doubled(whole_number(n), times_two as i64);
    let mut top: usize = all.len();
    assert(all@.take(top as int) =~= all@);
    while top > 0 && all[top - 1] == 0
        invariant
            top <= all.len(),
            are_digits(all@),
            value(all@.take(top as int)) == value(all@),
        decreases top,
    {
        proof {
            let front = all@.take(top - 1);
            assert(front.push(0) =~= all@.take(top as int));
            value_pushed(front, 0);
            let t = ten_to((top - 1) as nat) as int;
            assert(0 * t == 0);
        }
        top = top - 1;
    }
    let ghost kept = all@.take(top as int);
    if top == 0 {
        push_digit(out, 0);
        assert(out@ =~= was + decimal(0));
        return;
    }
    proof {
        assert forall|i: int| 0 <= i < kept.len() implies #[trigger] kept[i] < 10 by {
            assert(all@[i] < 10);
        }
        digits_written(kept);
    }
    let ghost text = decimal(value(kept));
    let mut i: usize = top;
    assert(text.take(0) =~= Seq::<char>::empty());
    assert(out@ =~= was + text.take(0));
    while i > 0
        invariant
            i <= top <= all.len(),
            are_digits(all@),
            kept == all@.take(top as int),
            text == Seq::new(kept.len(), |i: int| digit(kept[kept.len() - 1 - i] as nat)),
            out@ == was + text.take(top - i),
        decreases i,
    {
        i = i - 1;
        assert(all@[i as int] < 10);
        push_digit(out, all[i] as u64);
        assert(text[top - i - 1] == digit(kept[i as int] as nat));
        assert(out@ =~= was + text.take(top - i));
    }
    assert(text.take(top as int) =~= text);
}

// --- rounding ------------------------------------------------------------------------------

/// How often a number goes into another, where that is less than two to the power 24.
fn quotient(n: &Vec<u8>, d: &Vec<u8>) -> (r: u32)
    requires
        are_digits(n@),
        are_digits(d@),
        value(d@) > 0,
        value(n@) < value(d@) * 16_777_216,
    ensures
        r == value(n@) / value(d@),
        r < 16_777_216,
{
    let mut low: u32 = 0;
    let mut high: u32 = 16_777_216;
    assert(value(d@) * 0 == 0);
    while high - low > 1
        invariant
            low < high <= 16_777_216,
            are_digits(n@),
            are_digits(d@),
            value(d@) * low <= value(n@) < value(d@) * high,
        decreases high - low,
    {
        let middle: u32 = low + (high - low) / 2;
        let at: Vec<u8> = times(d, middle, 0);
        if less(n, &at) {
            high = middle;
        } else {
            low = middle;
        }
    }
    proof {
        let (a, b, q) = (value(n@) as int, value(d@) as int, low as int);
        assert(high == q + 1);
        assert(b * (q + 1) == b * q + b) by (nonlinear_arith);
        assert(b * q == q * b) by (nonlinear_arith);
        vstd::arithmetic::div_mod::lemma_fundamental_div_mod_converse(a, b, q, a - b * q);
    }
    low
}

/// The whole number nearest to a quotient, and of two equally near the even one.
fn nearest_whole(n: &Vec<u8>, d: &Vec<u8>) -> (r: u32)
    requires
        are_digits(n@),
        are_digits(d@),
        value(d@) > 0,
        value(n@) < value(d@) * 16_777_216,
    ensures
        r == nearest(value(n@), value(d@)),
        r <= 16_777_216,
{
    let q: u32 = quotient(n, d);
    let twice: Vec<u8> = times(n, 2, 0);
    let between: Vec<u8> = times(d, 2 * q + 1, 0);
    proof {
        let (a, b, w) = (value(n@) as int, value(d@) as int, q as int);
        vstd::arithmetic::div_mod::lemma_fundamental_div_mod(a, b);
        assert(b * (2 * w + 1) == 2 * (b * w) + b) by (nonlinear_arith);
    }
    if less(&twice, &between) {
        q
    } else if less(&between, &twice) {
        q + 1
    } else if q % 2 == 0 {
        q
    } else {
        q + 1
    }
}

/// The number nearest to a quotient.
fn closest(negative: bool, n: Vec<u8>, d: Vec<u8>) -> (r: Single)
    requires
        are_digits(n@),
        are_digits(d@),
        value(d@) > 0,
    ensures
        r == nearest_single(negative, value(n@), value(d@)),
{
    let ghost wanted = nearest_single(negative, value(n@), value(d@));
    let top: Vec<u8> = doubled(n, 149);
    let mut step: Vec<u8> = d;
    let mut k: i32 = 0;
    while k < 254
        invariant
            0 <= k <= 254,
            are_digits(top@),
            are_digits(step@),
            value(step@) > 0,
            wanted == single_from(negative, value(top@), value(step@), k as int),
            wanted == nearest_single(negative, value(n@), value(d@)),
        decreases 254 - k,
    {
        let limit: Vec<u8> = times(&step, 16_777_216, 0);
        if less(&top, &limit) {
            let m: u32 = nearest_whole(&top, &step);
            if m < 16_777_216 {
                return Single::Finite { negative, mantissa: m, exponent: k - 149 };
            }
            if k < 253 {
                return Single::Finite { negative, mantissa: 8_388_608, exponent: k - 148 };
            }
            return Single::Infinite { negative };
        }
        step = times(&step, 2, 0);
        k = k + 1;
    }
    Single::Infinite { negative }
}

/// The number nearest to one that decimal digits write, times a power of ten.
pub fn single_of(negative: bool, written: &[char], power: i128) -> (r: Single)
    requires
        all_digits(written@),
        -0x4_0000_0000_0000_0000 <= power,
    ensures
        power >= 0 ==> r == nearest_single(
            negative,
            number(written@) * ten_to(power as nat),
            1,
        ),
        power < 0 ==> r == nearest_single(negative, number(written@), ten_to((-power) as nat)),
{
    let digits: Vec<u8> = read_whole(written);
    if power < 0 {
        let under: Vec<u8> = one_and_noughts(-power);
        proof {
            ten_to_grows(0, (-power) as nat);
        }
        return closest(negative, digits, under);
    }
    let mut top: Vec<u8> = digits;
    let mut k: i128 = 0;
    proof {
        let t = ten_to(0) as int;
        assert(t == 1);
        assert(number(written@) * t == number(written@)) by (nonlinear_arith)
            requires
                t == 1,
        ;
    }
    while k < power
        invariant
            0 <= k <= power,
            are_digits(top@),
            value(top@) == number(written@) * ten_to(k as nat),
        decreases power - k,
    {
        proof {
            let (n, t) = (number(written@) as int, ten_to(k as nat) as int);
            assert(ten_to((k + 1) as nat) == 10 * t);
            assert(n * (10 * t) == (n * t) * 10) by (nonlinear_arith);
        }
        top = times(&top, 10, 0);
        k = k + 1;
    }
    closest(negative, top, whole_number(1))
}

impl Single {
    /// Whether it is below a whole number.
    pub fn below(self, whole: u32) -> (r: bool)
        ensures
            r == self.is_below(whole as nat),
    {
        match self {
            Single::Finite { negative, mantissa, exponent } => {
                let size: Vec<u8> = doubled(whole_number(mantissa), exponent as i64);
                let limit: Vec<u8> = doubled(whole_number(whole), -(exponent as i64));
                negative || less(&size, &limit)
            },
            Single::Infinite { negative } => negative,
            Single::NotANumber => false,
        }
    }

    /// Whether it is a whole number or below it.
    pub fn up_to(self, whole: u32) -> (r: bool)
        ensures
            r == self.is_up_to(whole as nat),
    {
        match self {
            Single::Finite { negative, mantissa, exponent } => {
                let size: Vec<u8> = doubled(whole_number(mantissa), exponent as i64);
                let limit: Vec<u8> = doubled(whole_number(whole), -(exponent as i64));
                negative || !less(&limit, &size)
            },
            Single::Infinite { negative } => negative,
            Single::NotANumber => false,
        }
    }

    /// The quotient of two numbers.
    pub fn over(self, by: Single) -> (r: Single)
        ensures
            r == self.divided_by(by),
    {
        match (self, by) {
            (
                Single::Finite { negative, mantissa, exponent },
                Single::Finite { negative: turned, mantissa: under, exponent: lower },
            ) => {
                if under > 0 {
                    let more: i64 = exponent as i64 - lower as i64;
                    proof {
                        doublings_are_some(-more);
                        let t = doublings(-more) as int;
                        assert(under * t > 0) by (nonlinear_arith)
                            requires
                                under > 0,
                                t > 0,
                        ;
                    }
                    closest(
                        negative != turned,
                        doubled(whole_number(mantissa), more),
                        doubled(whole_number(under), -more),
                    )
                } else if mantissa > 0 {
                    Single::Infinite { negative: negative != turned }
                } else {
                    Single::NotANumber
                }
            },
            (
                Single::Finite { negative, .. },
                Single::Infinite { negative: turned },
            ) => Single::Finite { negative: negative != turned, mantissa: 0, exponent: -149 },
            (
                Single::Infinite { negative },
                Single::Finite { negative: turned, .. },
            ) => Single::Infinite { negative: negative != turned },
            _ => Single::NotANumber,
        }
    }

    /// The sum with a whole number that is not negative.
    pub fn with_whole(self, whole: u32) -> (r: Single)
        ensures
            r == self.plus(whole as nat),
    {
        match self {
            Single::Finite { negative, mantissa, exponent } => {
                let under: Vec<u8> = doubled(whole_number(1), -(exponent as i64));
                let size: Vec<u8> = doubled(whole_number(mantissa), exponent as i64);
                let more: Vec<u8> = times(&under, whole, 0);
                proof {
                    doublings_are_some(-exponent);
                    let (t, u) = (doublings(exponent as int) as int, doublings(-exponent) as int);
                    assert(t == 1 ==> mantissa * t == mantissa) by (nonlinear_arith);
                    assert(u == 1 ==> u * whole == whole) by (nonlinear_arith);
                    assert(1 * u == u);
                }
                if !negative {
                    let sum: Vec<u8> = if exponent < 0 {
                        times(&under, whole, mantissa)
                    } else {
                        times(&size, 1, whole)
                    };
                    closest(false, sum, under)
                } else if less(&more, &size) {
                    let rest: Vec<u8> = minus(&size, &more);
                    closest(true, rest, under)
                } else {
                    let rest: Vec<u8> = minus(&more, &size);
                    closest(false, rest, under)
                }
            },
            Single::Infinite { negative } => Single::Infinite { negative },
            Single::NotANumber => Single::NotANumber,
        }
    }
}

/// Powers of two grow.
pub proof fn two_to_grows(m: nat, n: nat)
    requires
        m <= n,
    ensures
        two_to(m) <= two_to(n),
        two_to(m) >= 1,
    decreases n,
{
    if m < n {
        two_to_grows(m, (n - 1) as nat);
    } else if n > 0 {
        two_to_grows((n - 1) as nat, (n - 1) as nat);
    }
}

/// A power of two.
pub fn power_of_two(n: u32) -> (r: u64)
    requires
        n <= 60,
    ensures
        r == two_to(n as nat),
        1 <= r <= 0x1000_0000_0000_0000,
{
    proof {
        reveal_with_fuel(two_to, 61);
    }
    let mut r: u64 = 1;
    let mut k: u32 = 0;
    while k < n
        invariant
            k <= n <= 60,
            r == two_to(k as nat),
            two_to(60) == 0x1000_0000_0000_0000,
        decreases n - k,
    {
        proof {
            two_to_grows((k + 1) as nat, 60);
        }
        r = 2 * r;
        k = k + 1;
    }
    proof {
        two_to_grows(n as nat, 60);
    }
    r
}

proof fn doublings_are_some(n: int)
    ensures
        doublings(n) > 0,
    decreases n,
{
    if n > 1 {
        doublings_are_some(n - 1);
    } else if n == 1 {
        assert(two_to(1) == 2 * two_to(0));
    }
}

// --- laws ----------------------------------------------------------------------------------

proof fn single_from_is_nearest(negative: bool, n: nat, d: nat, k: int)
    requires
        0 < d,
        0 <= k,
        k == 0 || 2 * n >= d * 16_777_216,
    ensures
        match single_from(negative, n, d, k) {
            Single::Finite { negative: side, mantissa, exponent } => {
                &&& side == negative
                &&& k - 149 <= exponent <= 104
                &&& mantissa < 16_777_216
                &&& mantissa >= 8_388_608 || exponent == -149
                &&& ({
                    let step = d * two_to((exponent + 149 - k) as nat);
                    -(step as int) <= 2 * (n as int - step * mantissa) <= step
                })
            },
            Single::Infinite { negative: side } => side == negative,
            Single::NotANumber => false,
        },
    decreases 254 - k,
{
    if k < 254 {
        if n >= d * 16_777_216 {
            single_from_is_nearest(negative, n, d * 2, k + 1);
            if let Single::Finite { negative: side, mantissa, exponent } = single_from(
                negative,
                n,
                d,
                k,
            ) {
                let t = (exponent + 149 - k - 1) as nat;
                assert(two_to((t + 1) as nat) == 2 * two_to(t));
                let p = two_to(t);
                assert((d * 2) * p == d * (2 * p)) by (nonlinear_arith);
            }
        } else {
            crate::text::rounding_is_to_the_nearest(n, d);
            let m = nearest(n, d);
            assert(two_to(0) == 1);
            assert(two_to(1) == 2 * two_to(0));
            assert(d * 1 == d);
            if m < 16_777_216 {
                if k > 0 {
                    assert(m >= 8_388_608) by (nonlinear_arith)
                        requires
                            2 * n >= d * 16_777_216,
                            2 * (n as int - d * m) <= d,
                            d > 0,
                    ;
                }
            } else {
                assert(m == 16_777_216) by (nonlinear_arith)
                    requires
                        n < d * 16_777_216,
                        -(d as int) <= 2 * (n as int - d * m),
                        d > 0,
                        m >= 16_777_216,
                ;
                assert((d * 2) * 8_388_608 == d * 16_777_216);
            }
        }
    }
}

/// A quotient is held as the nearest number there is: no further from it than half the step between
/// neighbours there, on its own side of nought, and with all the digits there is room for.
pub proof fn quotients_are_held_as_the_nearest(negative: bool, n: nat, d: nat)
    requires
        0 < d,
    ensures
        match nearest_single(negative, n, d) {
            Single::Finite { negative: side, mantissa, exponent } => {
                &&& side == negative
                &&& -149 <= exponent <= 104
                &&& mantissa < 16_777_216
                &&& mantissa >= 8_388_608 || exponent == -149
                &&& ({
                    let step = d * two_to((exponent + 149) as nat);
                    -(step as int) <= 2 * (n * two_to(149) - step * mantissa) <= step
                })
            },
            Single::Infinite { negative: side } => side == negative,
            Single::NotANumber => false,
        },
{
    single_from_is_nearest(negative, n * two_to(149), d, 0);
}

/// What is below a number is no more than it, what is no more is below the next, and nought is below one
/// and not below nought. What is no number is neither.
pub proof fn limits_are_in_order(v: Single, whole: nat)
    ensures
        v.is_below(whole) ==> v.is_up_to(whole),
        v.is_up_to(whole) ==> v.is_below(whole + 1),
        Single::nought(false).is_below(1),
        !Single::nought(false).is_below(0),
        Single::nought(false).is_up_to(0),
        !(Single::NotANumber.is_below(whole)),
        !(Single::NotANumber.is_up_to(whole)),
        (Single::Infinite { negative: true }).is_below(whole),
        !(Single::Infinite { negative: false }).is_up_to(whole),
{
    if let Single::Finite { negative, mantissa, exponent } = v {
        let (size, under) = (mantissa * doublings(exponent as int), doublings(-exponent));
        doublings_are_some(-exponent);
        assert(size <= whole * under ==> size < (whole + 1) * under) by (nonlinear_arith)
            requires
                under > 0,
        ;
    }
    doublings_are_some(149);
    assert(0 * doublings(-149) == 0);
    assert(1 * doublings(149) == doublings(149));
    assert(0 * doublings(149) == 0);
}

/// A quotient is negative where one of the two is and the other is not; dividing by nought is without
/// limit, and nought by nought is no number.
pub proof fn signs_multiply(a: bool, m: u32, b: bool, n: u32)
    requires
        m > 0,
        n > 0,
    ensures
        ({
            let (x, y) = (
                Single::Finite { negative: a, mantissa: m, exponent: 0i32 },
                Single::Finite { negative: b, mantissa: n, exponent: 0i32 },
            );
            let zero = Single::Finite { negative: b, mantissa: 0, exponent: 0i32 };
            &&& x.divided_by(y) matches Single::Finite { negative, .. } ==> negative == (a != b)
            &&& x.divided_by(y) == nearest_single(a != b, m as nat, n as nat)
            &&& x.divided_by(zero) == (Single::Infinite { negative: a != b })
            &&& zero.divided_by(zero) == Single::NotANumber
            &&& x.divided_by(Single::Infinite { negative: b }) == Single::nought(a != b)
        }),
{
    quotients_are_held_as_the_nearest(a != b, m as nat, n as nat);
    assert(m as nat * doublings(0) == m as nat && n as nat * doublings(0) == n as nat);
}

/// A whole number adds to a quotient: so many halves or quarters of one and so many whole ones are the
/// sum of both.
pub proof fn whole_numbers_add(m: u32, whole: nat)
    ensures
        ({
            let halves = Single::Finite { negative: false, mantissa: m, exponent: -1i32 };
            let quarters = Single::Finite { negative: false, mantissa: m, exponent: -2i32 };
            &&& halves.plus(whole) == nearest_single(false, (m + 2 * whole) as nat, 2)
            &&& quarters.plus(whole) == nearest_single(false, (m + 4 * whole) as nat, 4)
        }),
{
    assert(two_to(0) == 1);
    assert(two_to(1) == 2 * two_to(0));
    assert(two_to(2) == 2 * two_to(1));
    let (one, half, quarter) = (doublings(-1), doublings(1), doublings(2));
    assert(one == 1 && half == 2 && quarter == 4 && doublings(-2) == 1);
    assert(m as nat * one == m) by (nonlinear_arith)
        requires
            one == 1,
    ;
    assert(half * whole == 2 * whole) by (nonlinear_arith)
        requires
            half == 2,
    ;
    assert(quarter * whole == 4 * whole) by (nonlinear_arith)
        requires
            quarter == 4,
    ;
}

} // verus!
