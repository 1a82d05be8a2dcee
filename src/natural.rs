//! Natural numbers of any size, as little-endian sequences of 32-bit limbs,
//! with the few operations that an exact mean of ratios needs.

use vstd::prelude::*;

verus! {

pub open spec fn limb_base() -> int {
    0x1_0000_0000
}

/// `limb_base()` to the power `i`.
pub open spec fn pow_b(i: nat) -> int
    decreases i,
{
    if i == 0 {
        1
    } else {
        limb_base() * pow_b((i - 1) as nat)
    }
}

/// The number that the limbs `s` denote, `s[0]` the least significant.
pub open spec fn value(s: Seq<u32>) -> int
    decreases s.len(),
{
    if s.len() == 0 {
        0
    } else {
        value(s.drop_last()) + s.last() * pow_b((s.len() - 1) as nat)
    }
}

pub proof fn lemma_pow_b_pos(i: nat)
    ensures
        pow_b(i) >= 1,
    decreases i,
{
    if i > 0 {
        lemma_pow_b_pos((i - 1) as nat);
    }
}

pub proof fn lemma_value_bounds(s: Seq<u32>)
    ensures
        0 <= value(s) < pow_b(s.len()),
    decreases s.len(),
{
    if s.len() > 0 {
        lemma_value_bounds(s.drop_last());
        let k = (s.len() - 1) as nat;
        lemma_pow_b_pos(k);
        let v0 = value(s.drop_last());
        let p = pow_b(k);
        let last = s.last() as int;
        assert(0 <= v0 + last * p < limb_base() * p) by (nonlinear_arith)
            requires
                0 <= v0 < p,
                0 <= last < limb_base(),
                limb_base() == 0x1_0000_0000,
        ;
    }
}

/// Appending a limb adds it at the next power of the base.
proof fn lemma_value_push(s: Seq<u32>, d: u32)
    ensures
        value(s.push(d)) == value(s) + d * pow_b(s.len()),
{
    assert(s.push(d).drop_last() == s);
}

proof fn lemma_value_take_next(s: Seq<u32>, i: int)
    requires
        0 <= i < s.len(),
    ensures
        value(s.take(i + 1)) == value(s.take(i)) + s[i] * pow_b(i as nat),
{
    assert(s.take(i + 1) == s.take(i).push(s[i]));
    lemma_value_push(s.take(i), s[i]);
}

/// The limbs of `x`.
pub fn from_u128(x: u128) -> (r: Vec<u32>)
    ensures
        value(r@) == x,
{
    let mut out: Vec<u32> = Vec::new();
    let mut rest: u128 = x;
    while rest > 0
        invariant
            value(out@) + rest * pow_b(out@.len()) == x,
        decreases rest,
    {
        let d = (rest % 0x1_0000_0000) as u32;
        let next = rest / 0x1_0000_0000;
        proof {
            lemma_value_push(out@, d);
            let p = pow_b(out@.len());
            assert(rest * p == d * p + next * (limb_base() * p)) by (nonlinear_arith)
                requires
                    rest == d + limb_base() * next,
            ;
        }
        out.push(d);
        rest = next;
    }
    out
}

/// `a` with zero limbs added up to length `n`: the same number.
fn padded(a: &Vec<u32>, n: usize) -> (r: Vec<u32>)
    requires
        a@.len() <= n,
    ensures
        r@.len() == n,
        value(r@) == value(a@),
{
    let mut out: Vec<u32> = Vec::new();
    let mut i: usize = 0;
    while i < a.len()
        invariant
            i <= a@.len(),
            out@ == a@.take(i as int),
        decreases a.len() - i,
    {
        out.push(a[i]);
        assert(out@ == a@.take(i + 1));
        i += 1;
    }
    assert(a@.take(i as int) == a@);
    while out.len() < n
        invariant
            a@.len() <= out@.len() <= n,
            value(out@) == value(a@),
        decreases n - out.len(),
    {
        proof {
            lemma_value_push(out@, 0);
        }
        out.push(0);
    }
    out
}

/// `a * m`, for a multiplier below 2^96.
pub fn mul_small(a: &Vec<u32>, m: u128) -> (r: Vec<u32>)
    requires
        m < 0x1_0000_0000_0000_0000_0000_0000,
    ensures
        value(r@) == value(a@) * m,
{
    let mut out: Vec<u32> = Vec::new();
    let mut carry: u128 = 0;
    let mut i: usize = 0;
    assert(a@.take(0) == Seq::<u32>::empty());
    while i < a.len()
        invariant
            i <= a@.len(),
            out@.len() == i,
            m < 0x1_0000_0000_0000_0000_0000_0000,
            carry <= m,
            value(out@) + carry * pow_b(i as nat) == value(a@.take(i as int)) * m,
        decreases a.len() - i,
    {
        let x = a[i];
        assert(x as int * m <= 0xFFFF_FFFF * m) by (nonlinear_arith)
            requires
                x <= 0xFFFF_FFFF,
                m >= 0,
        ;
        let t: u128 = x as u128 * m + carry;
        let d = (t % 0x1_0000_0000) as u32;
        let next = t / 0x1_0000_0000;
        proof {
            lemma_value_push(out@, d);
            lemma_value_take_next(a@, i as int);
            let p = pow_b(i as nat);
            let v = value(out@);
            let va = value(a@.take(i as int));
            assert(v + d * p + next * (limb_base() * p) == (va + x * p) * m) by (nonlinear_arith)
                requires
                    v + carry * p == va * m,
                    t == d + limb_base() * next,
                    t == x * m + carry,
            ;
        }
        out.push(d);
        carry = next;
        i += 1;
    }
    assert(a@.take(i as int) == a@);
    while carry > 0
        invariant
            value(out@) + carry * pow_b(out@.len()) == value(a@) * m,
        decreases carry,
    {
        let d = (carry % 0x1_0000_0000) as u32;
        let next = carry / 0x1_0000_0000;
        proof {
            lemma_value_push(out@, d);
            let p = pow_b(out@.len());
            assert(carry * p == d * p + next * (limb_base() * p)) by (nonlinear_arith)
                requires
                    carry == d + limb_base() * next,
            ;
        }
        out.push(d);
        carry = next;
    }
    out
}


/// `a + b`.
pub fn plus(a: &Vec<u32>, b: &Vec<u32>) -> (r: Vec<u32>)
    ensures
        value(r@) == value(a@) + value(b@),
{
    let n = if a.len() >= b.len() {
        a.len()
    } else {
        b.len()
    };
    let x = padded(a, n);
    let y = padded(b, n);
    let mut out: Vec<u32> = Vec::new();
    let mut carry: u64 = 0;
    let mut i: usize = 0;
    assert(x@.take(0) == Seq::<u32>::empty());
    assert(y@.take(0) == Seq::<u32>::empty());
    while i < n
        invariant
            x@.len() == n,
            y@.len() == n,
            i <= n,
            out@.len() == i,
            carry <= 1,
            value(out@) + carry * pow_b(i as nat) == value(x@.take(i as int)) + value(
                y@.take(i as int),
            ),
        decreases n - i,
    {
        let t: u64 = x[i] as u64 + y[i] as u64 + carry;
        let d = (t % 0x1_0000_0000) as u32;
        let next = t / 0x1_0000_0000;
        proof {
            lemma_value_push(out@, d);
            lemma_value_take_next(x@, i as int);
            lemma_value_take_next(y@, i as int);
            let p = pow_b(i as nat);
            assert(d * p + next * (limb_base() * p) == (x[i as int] + y[i as int] + carry) * p)
                by (nonlinear_arith)
                requires
                    t == d + limb_base() * next,
                    t == x[i as int] + y[i as int] + carry,
            ;
            assert(pow_b((i + 1) as nat) == limb_base() * p);
            assert(value(out@.push(d)) + next * pow_b((i + 1) as nat) == value(x@.take(i + 1))
                + value(y@.take(i + 1))) by (nonlinear_arith)
                requires
                    value(out@.push(d)) == value(out@) + d * p,
                    value(out@) + carry * p == value(x@.take(i as int)) + value(y@.take(i as int)),
                    value(x@.take(i + 1)) == value(x@.take(i as int)) + x[i as int] * p,
                    value(y@.take(i + 1)) == value(y@.take(i as int)) + y[i as int] * p,
                    d * p + next * (limb_base() * p) == (x[i as int] + y[i as int] + carry) * p,
                    pow_b((i + 1) as nat) == limb_base() * p,
            ;
        }
        out.push(d);
        carry = next;
        i += 1;
    }
    assert(x@.take(n as int) == x@);
    assert(y@.take(n as int) == y@);
    if carry > 0 {
        proof {
            lemma_value_push(out@, carry as u32);
        }
        out.push(carry as u32);
    }
    out
}

/// Whether `a <= b`.
pub fn le(a: &Vec<u32>, b: &Vec<u32>) -> (r: bool)
    ensures
        r == (value(a@) <= value(b@)),
{
    let n = if a.len() >= b.len() {
        a.len()
    } else {
        b.len()
    };
    let x = padded(b, n);
    let y = padded(a, n);
    // The digits of x - y, kept only in ghost code; the final borrow tells
    // whether y exceeds x.
    let ghost mut diff: Seq<u32> = Seq::empty();
    let mut borrow: u64 = 0;
    let mut i: usize = 0;
    assert(x@.take(0) == Seq::<u32>::empty());
    assert(y@.take(0) == Seq::<u32>::empty());
    while i < n
        invariant
            x@.len() == n,
            y@.len() == n,
            i <= n,
            diff.len() == i,
            borrow <= 1,
            value(x@.take(i as int)) + borrow * pow_b(i as nat) == value(y@.take(i as int))
                + value(diff),
        decreases n - i,
    {
        let xi = x[i] as u64;
        let yi = y[i] as u64;
        let next: u64;
        let d: u32;
        if xi >= yi + borrow {
            d = (xi - yi - borrow) as u32;
            next = 0;
        } else {
            d = (xi + 0x1_0000_0000 - yi - borrow) as u32;
            next = 1;
        }
        proof {
            lemma_value_push(diff, d);
            lemma_value_take_next(x@, i as int);
            lemma_value_take_next(y@, i as int);
            let p = pow_b(i as nat);
            assert(xi * p + next * (limb_base() * p) == yi * p + d * p + borrow * p)
                by (nonlinear_arith)
                requires
                    xi + next * limb_base() == yi + d + borrow,
            ;
            diff = diff.push(d);
        }
        borrow = next;
        i += 1;
    }
    assert(x@.take(n as int) == x@);
    assert(y@.take(n as int) == y@);
    proof {
        lemma_value_bounds(diff);
        lemma_value_bounds(a@);
        lemma_value_bounds(b@);
    }
    borrow == 0
}

} // verus!
