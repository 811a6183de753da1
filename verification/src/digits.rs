//! Unbounded natural numbers held as little-endian decimal digits.
//!
//! Timespecs may carry any number of decimal places, and they are rounded to
//! the millisecond only once the whole value is known. These numbers keep
//! that arithmetic exact whatever the length of the input.

use vstd::arithmetic::div_mod::lemma_fundamental_div_mod_converse;
use vstd::prelude::*;

verus! {

/// `10` raised to `e`.
pub open spec fn pow10(e: nat) -> nat
    decreases e,
{
    if e == 0 {
        1
    } else {
        10 * pow10((e - 1) as nat)
    }
}

/// The value of a little-endian sequence of decimal digits.
pub open spec fn le_val(d: Seq<u8>) -> nat
    decreases d.len(),
{
    if d.len() == 0 {
        0
    } else {
        d[0] as nat + 10 * le_val(d.drop_first())
    }
}

/// Every entry is a decimal digit.
pub open spec fn all_digits(d: Seq<u8>) -> bool {
    forall|i: int| 0 <= i < d.len() ==> #[trigger] d[i] < 10
}

pub proof fn lemma_pow10_positive(e: nat)
    ensures
        pow10(e) >= 1,
    decreases e,
{
    if e > 0 {
        lemma_pow10_positive((e - 1) as nat);
    }
}

pub proof fn lemma_pow10_add(a: nat, b: nat)
    ensures
        pow10(a + b) == pow10(a) * pow10(b),
    decreases a,
{
    if a > 0 {
        lemma_pow10_add((a - 1) as nat, b);
        let x = pow10((a - 1) as nat);
        let y = pow10(b);
        assert(pow10(a + b) == 10 * pow10((a - 1 + b) as nat));
        assert(pow10((a - 1 + b) as nat) == x * y);
        assert(pow10(a) == 10 * x);
        assert((10 * x) * y == 10 * (x * y)) by (nonlinear_arith);
        assert(pow10(a + b) == pow10(a) * pow10(b));
    } else {
        assert(pow10(a) == 1);
        assert(pow10(a + b) == pow10(b));
    }
}

pub proof fn lemma_pow10_monotonic(a: nat, b: nat)
    requires
        a <= b,
    ensures
        pow10(a) <= pow10(b),
    decreases b,
{
    if a < b {
        lemma_pow10_monotonic(a, (b - 1) as nat);
        lemma_pow10_positive((b - 1) as nat);
    }
}

/// Concatenation places the second number `|a|` digits above the first.
pub proof fn lemma_le_val_concat(a: Seq<u8>, b: Seq<u8>)
    ensures
        le_val(a + b) == le_val(a) + pow10(a.len()) * le_val(b),
    decreases a.len(),
{
    if a.len() == 0 {
        assert(a + b =~= b);
    } else {
        let rest = a.drop_first();
        lemma_le_val_concat(rest, b);
        assert((a + b).drop_first() =~= rest + b);
        assert(le_val(a + b) == a[0] as nat + 10 * le_val(rest + b));
        assert(pow10(a.len()) == 10 * pow10(rest.len()));
        assert(10 * (le_val(rest) + pow10(rest.len()) * le_val(b)) == 10 * le_val(rest) + (10
            * pow10(rest.len())) * le_val(b)) by (nonlinear_arith);
    }
}

/// A number of `n` digits is below `10^n`.
pub proof fn lemma_le_val_bound(a: Seq<u8>)
    requires
        all_digits(a),
    ensures
        le_val(a) < pow10(a.len()),
    decreases a.len(),
{
    if a.len() > 0 {
        let rest = a.drop_first();
        assert(all_digits(rest)) by {
            assert forall|i: int| 0 <= i < rest.len() implies #[trigger] rest[i] < 10 by {
                assert(rest[i] == a[i + 1]);
            }
        }
        lemma_le_val_bound(rest);
        assert(a[0] < 10);
    }
}

/// Appending a digit at the top adds it at weight `10^|a|`.
pub proof fn lemma_le_val_push(a: Seq<u8>, x: u8)
    ensures
        le_val(a.push(x)) == le_val(a) + x * pow10(a.len()),
{
    lemma_le_val_concat(a, seq![x]);
    assert(a.push(x) =~= a + seq![x]);
    assert(seq![x].drop_first() =~= Seq::<u8>::empty());
    assert(le_val(Seq::<u8>::empty()) == 0);
    assert(le_val(seq![x]) == x as nat + 10 * le_val(seq![x].drop_first()));
    assert(pow10(a.len()) * (x as nat) == x * pow10(a.len())) by (nonlinear_arith);
}

/// A run of zeros is worth nothing.
pub proof fn lemma_le_val_zeros(z: nat)
    ensures
        le_val(Seq::new(z, |i: int| 0u8)) == 0,
    decreases z,
{
    if z > 0 {
        let s = Seq::new(z, |i: int| 0u8);
        assert(s.drop_first() =~= Seq::new((z - 1) as nat, |i: int| 0u8));
        lemma_le_val_zeros((z - 1) as nat);
    }
}

/// Dividing by `10^k` drops the lowest `k` digits.
pub proof fn lemma_le_val_div(a: Seq<u8>, k: nat)
    requires
        all_digits(a),
        k <= a.len(),
    ensures
        le_val(a) / pow10(k) == le_val(a.skip(k as int)),
{
    let lo = a.take(k as int);
    let hi = a.skip(k as int);
    assert(a =~= lo + hi);
    lemma_le_val_concat(lo, hi);
    assert(all_digits(lo)) by {
        assert forall|i: int| 0 <= i < lo.len() implies #[trigger] lo[i] < 10 by {
            assert(lo[i] == a[i]);
        }
    }
    lemma_le_val_bound(lo);
    lemma_pow10_positive(k);
    assert(lo.len() == k);
    lemma_fundamental_div_mod_converse(
        le_val(a) as int,
        pow10(k) as int,
        le_val(hi) as int,
        le_val(lo) as int,
    );
}

/// Puts the digit `d` below the number in `v`: `v` becomes `10 * v + d`.
pub fn push_low_digit(v: &mut Vec<u8>, d: u8)
    requires
        d < 10,
        all_digits(old(v)@),
    ensures
        all_digits(final(v)@),
        final(v)@.len() == old(v)@.len() + 1,
        le_val(final(v)@) == 10 * le_val(old(v)@) + d,
{
    v.insert(0, d);
    assert(v@.drop_first() =~= old(v)@);
}

/// The number in `v` multiplied by `10^z`.
pub fn shift_up(v: &Vec<u8>, z: usize) -> (r: Vec<u8>)
    requires
        all_digits(v@),
    ensures
        all_digits(r@),
        r@.len() == v@.len() + z,
        le_val(r@) == pow10(z as nat) * le_val(v@),
{
    let mut r: Vec<u8> = Vec::new();
    let mut i: usize = 0;
    while i < z
        invariant
            i <= z,
            r@ =~= Seq::new(i as nat, |j: int| 0u8),
        decreases z - i,
    {
        r.push(0);
        i = i + 1;
    }
    let ghost zeros = r@;
    let mut j: usize = 0;
    while j < v.len()
        invariant
            j <= v.len(),
            zeros =~= Seq::new(z as nat, |k: int| 0u8),
            r@ =~= zeros + v@.take(j as int),
        decreases v.len() - j,
    {
        r.push(v[j]);
        j = j + 1;
        assert(r@ =~= zeros + v@.take(j as int));
    }
    assert(v@.take(v.len() as int) =~= v@);
    proof {
        lemma_le_val_concat(zeros, v@);
        lemma_le_val_zeros(z as nat);
        assert forall|k: int| 0 <= k < r@.len() implies #[trigger] r@[k] < 10 by {
            if k >= z {
                assert(r@[k] == v@[k - z]);
            }
        }
    }
    r
}

/// The number in `v` multiplied by the small factor `c`.
pub fn mul_small(v: &Vec<u8>, c: u64) -> (r: Vec<u8>)
    requires
        all_digits(v@),
        c <= 100_000_000,
    ensures
        all_digits(r@),
        le_val(r@) == c * le_val(v@),
{
    let mut r: Vec<u8> = Vec::new();
    let mut carry: u64 = 0;
    let mut i: usize = 0;
    assert(v@.take(0) =~= Seq::<u8>::empty());
    assert(le_val(Seq::<u8>::empty()) == 0);
    assert(r@ =~= Seq::<u8>::empty());
    while i < v.len()
        invariant
            i <= v.len(),
            r@.len() == i,
            all_digits(r@),
            all_digits(v@),
            c <= 100_000_000,
            carry <= c,
            le_val(r@) + carry * pow10(i as nat) == c * le_val(v@.take(i as int)),
        decreases v.len() - i,
    {
        let d = v[i];
        assert(d < 10);
        assert(c * d <= 900_000_000) by (nonlinear_arith)
            requires
                c <= 100_000_000,
                d < 10,
        ;
        let t: u64 = c * (d as u64) + carry;
        let digit: u8 = (t % 10) as u8;
        let ghost old_r = r@;
        let ghost old_carry = carry;
        r.push(digit);
        carry = t / 10;
        proof {
            lemma_le_val_push(old_r, digit);
            assert(v@.take(i + 1) =~= v@.take(i as int).push(d));
            lemma_le_val_push(v@.take(i as int), d);
            let p = pow10(i as nat);
            assert(pow10((i + 1) as nat) == 10 * p);
            assert(t == 10 * carry + digit);
            assert(carry <= c) by (nonlinear_arith)
                requires
                    carry == t / 10,
                    t == c * d + old_carry,
                    old_carry <= c,
                    d < 10,
            ;
            assert(le_val(r@) + carry * pow10((i + 1) as nat) == le_val(old_r) + digit * p + carry
                * (10 * p));
            assert(digit * p + carry * (10 * p) == t * p) by (nonlinear_arith)
                requires
                    t == 10 * carry + digit,
            ;
            assert(t * p == c * d * p + old_carry * p) by (nonlinear_arith)
                requires
                    t == c * d + old_carry,
            ;
            assert(c * le_val(v@.take(i + 1)) == c * le_val(v@.take(i as int)) + c * d * p)
                by (nonlinear_arith)
                requires
                    le_val(v@.take(i + 1)) == le_val(v@.take(i as int)) + d * p,
            ;
            assert forall|k: int| 0 <= k < r@.len() implies #[trigger] r@[k] < 10 by {
                if k < old_r.len() {
                    assert(r@[k] == old_r[k]);
                }
            }
        }
        i = i + 1;
    }
    assert(v@.take(v.len() as int) =~= v@);
    while carry > 0
        invariant
            all_digits(r@),
            le_val(r@) + carry * pow10(r@.len()) == c * le_val(v@),
        decreases carry,
    {
        let digit: u8 = (carry % 10) as u8;
        let ghost old_r = r@;
        let ghost old_carry = carry;
        r.push(digit);
        carry = carry / 10;
        proof {
            lemma_le_val_push(old_r, digit);
            let p = pow10(old_r.len());
            assert(pow10(r@.len()) == 10 * p);
            assert(old_carry == 10 * carry + digit);
            assert(digit * p + carry * (10 * p) == old_carry * p) by (nonlinear_arith)
                requires
                    old_carry == 10 * carry + digit,
            ;
            assert forall|k: int| 0 <= k < r@.len() implies #[trigger] r@[k] < 10 by {
                if k < old_r.len() {
                    assert(r@[k] == old_r[k]);
                }
            }
        }
    }
    r
}

/// The sum of the numbers in `a` and `b`.
pub fn add_numbers(a: &Vec<u8>, b: &Vec<u8>) -> (r: Vec<u8>)
    requires
        all_digits(a@),
        all_digits(b@),
    ensures
        all_digits(r@),
        r@.len() >= a@.len(),
        r@.len() >= b@.len(),
        le_val(r@) == le_val(a@) + le_val(b@),
{
    let n = if a.len() >= b.len() {
        a.len()
    } else {
        b.len()
    };
    let mut r: Vec<u8> = Vec::new();
    let mut carry: u8 = 0;
    let mut i: usize = 0;
    assert(a@.take(0) =~= Seq::<u8>::empty());
    assert(b@.take(0) =~= Seq::<u8>::empty());
    assert(le_val(Seq::<u8>::empty()) == 0);
    assert(r@ =~= Seq::<u8>::empty());
    while i < n
        invariant
            i <= n,
            n >= a.len(),
            n >= b.len(),
            n == a.len() || n == b.len(),
            r@.len() == i,
            all_digits(r@),
            all_digits(a@),
            all_digits(b@),
            carry <= 1,
            le_val(r@) + carry * pow10(i as nat) == le_val(a@.take(
                if i <= a.len() {
                    i as int
                } else {
                    a.len() as int
                },
            )) + le_val(b@.take(
                if i <= b.len() {
                    i as int
                } else {
                    b.len() as int
                },
            )),
        decreases n - i,
    {
        let x: u8 = if i < a.len() {
            a[i]
        } else {
            0
        };
        let y: u8 = if i < b.len() {
            b[i]
        } else {
            0
        };
        let t: u8 = x + y + carry;
        let digit: u8 = t % 10;
        let ghost old_r = r@;
        let ghost old_carry = carry;
        r.push(digit);
        carry = t / 10;
        proof {
            let p = pow10(i as nat);
            lemma_le_val_push(old_r, digit);
            assert(pow10((i + 1) as nat) == 10 * p);
            let ai = if i <= a.len() {
                i as int
            } else {
                a.len() as int
            };
            let ai1 = if i + 1 <= a.len() {
                (i + 1) as int
            } else {
                a.len() as int
            };
            let bi = if i <= b.len() {
                i as int
            } else {
                b.len() as int
            };
            let bi1 = if i + 1 <= b.len() {
                (i + 1) as int
            } else {
                b.len() as int
            };
            if i < a.len() {
                assert(a@.take(ai1) =~= a@.take(ai).push(x));
                lemma_le_val_push(a@.take(ai), x);
            } else {
                assert(ai1 == ai);
                assert(x == 0);
            }
            if i < b.len() {
                assert(b@.take(bi1) =~= b@.take(bi).push(y));
                lemma_le_val_push(b@.take(bi), y);
            } else {
                assert(bi1 == bi);
                assert(y == 0);
            }
            assert(le_val(a@.take(ai1)) == le_val(a@.take(ai)) + x * p);
            assert(le_val(b@.take(bi1)) == le_val(b@.take(bi)) + y * p);
            assert(t == 10 * carry + digit);
            assert(digit * p + carry * (10 * p) == x * p + y * p + old_carry * p)
                by (nonlinear_arith)
                requires
                    (t as int) == 10 * carry + digit,
                    (t as int) == x + y + old_carry,
            ;
            assert forall|k: int| 0 <= k < r@.len() implies #[trigger] r@[k] < 10 by {
                if k < old_r.len() {
                    assert(r@[k] == old_r[k]);
                }
            }
        }
        i = i + 1;
    }
    assert(a@.take(a.len() as int) =~= a@);
    assert(b@.take(b.len() as int) =~= b@);
    if carry > 0 {
        let ghost old_r = r@;
        r.push(carry);
        proof {
            lemma_le_val_push(old_r, carry);
            assert forall|k: int| 0 <= k < r@.len() implies #[trigger] r@[k] < 10 by {
                if k < old_r.len() {
                    assert(r@[k] == old_r[k]);
                }
            }
        }
    }
    r
}

/// The number in `v` divided by `10^k`, rounded down, or `u64::MAX` where
/// that quotient does not fit.
pub fn div_pow10_saturating(v: &Vec<u8>, k: usize) -> (r: u64)
    requires
        all_digits(v@),
    ensures
        r == (if le_val(v@) / pow10(k as nat) <= u64::MAX {
            le_val(v@) / pow10(k as nat)
        } else {
            u64::MAX as nat
        }),
{
    if v.len() <= k {
        proof {
            lemma_le_val_bound(v@);
            lemma_pow10_monotonic(v@.len(), k as nat);
            lemma_pow10_positive(k as nat);
            lemma_fundamental_div_mod_converse(
                le_val(v@) as int,
                pow10(k as nat) as int,
                0,
                le_val(v@) as int,
            );
        }
        return 0;
    }
    proof {
        lemma_le_val_div(v@, k as nat);
    }
    let mut acc: u64 = 0;
    let mut saturated = false;
    let mut i: usize = v.len();
    assert(v@.skip(i as int) =~= Seq::<u8>::empty());
    while i > k
        invariant
            k <= i <= v.len(),
            all_digits(v@),
            !saturated ==> acc == le_val(v@.skip(i as int)),
            saturated ==> le_val(v@.skip(i as int)) > u64::MAX,
        decreases i,
    {
        i = i - 1;
        let d = v[i];
        proof {
            assert(v@.skip(i as int).drop_first() =~= v@.skip(i + 1));
            assert(v@.skip(i as int)[0] == d);
        }
        if !saturated {
            if acc <= (u64::MAX - (d as u64)) / 10 {
                acc = acc * 10 + (d as u64);
            } else {
                saturated = true;
            }
        }
    }
    if saturated {
        u64::MAX
    } else {
        acc
    }
}

} // verus!
