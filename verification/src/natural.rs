//! Natural numbers of any size.

use vstd::arithmetic::power::pow;
use vstd::arithmetic::power2::pow2;
use vstd::prelude::*;

verus! {

/// A natural number, held as limbs of 32 bits with the lowest one first.
pub struct Natural {
    limbs: Vec<u32>,
}

/// How two numbers compare.
#[derive(Clone, Copy, PartialEq, Eq, Structural)]
pub enum Order {
    /// The first is smaller.
    Less,
    /// They are equal.
    Same,
    /// The first is larger.
    More,
}

/// How `a` compares with `b`.
pub open spec fn order_of(a: int, b: int) -> Order {
    if a < b {
        Order::Less
    } else if a == b {
        Order::Same
    } else {
        Order::More
    }
}

/// The number that limbs denote.
pub closed spec fn limbs_value(s: Seq<u32>) -> nat
    decreases s.len(),
{
    if s.len() == 0 {
        0
    } else {
        limbs_value(s.drop_last()) + s.last() as nat * pow2((32 * (s.len() - 1)) as nat)
    }
}

impl View for Natural {
    type V = nat;

    closed spec fn view(&self) -> nat {
        limbs_value(self.limbs@)
    }
}

proof fn lemma_limbs_push(s: Seq<u32>, x: u32)
    ensures
        limbs_value(s.push(x)) == limbs_value(s) + x as nat * pow2((32 * s.len()) as nat),
{
    assert(s.push(x).drop_last() =~= s);
}

proof fn lemma_limbs_bound(s: Seq<u32>)
    ensures
        limbs_value(s) < pow2((32 * s.len()) as nat),
    decreases s.len(),
{
    if s.len() == 0 {
        vstd::arithmetic::power2::lemma2_to64();
    } else {
        lemma_limbs_bound(s.drop_last());
        lemma_next_weight((s.len() - 1) as nat);
        let w = pow2((32 * (s.len() - 1)) as nat) as int;
        let x = s.last() as int;
        assert(x * w <= 0xffff_ffff * w) by (nonlinear_arith)
            requires
                x <= 0xffff_ffff,
                w >= 0,
        ;
    }
}

proof fn lemma_weight(x: nat, k: nat, p: nat)
    requires
        pow2(k) == p,
    ensures
        x * pow2(k) == x * p,
{
}

/// The weight of the next limb.
proof fn lemma_next_weight(n: nat)
    ensures
        pow2((32 * (n + 1)) as nat) == 0x1_0000_0000 * pow2((32 * n) as nat),
        pow2((32 * n) as nat) > 0,
{
    vstd::arithmetic::power2::lemma2_to64();
    vstd::arithmetic::power2::lemma_pow2_adds((32 * n) as nat, 32);
    vstd::arithmetic::power2::lemma_pow2_pos((32 * n) as nat);
}

impl Natural {
    /// The number `v`.
    pub fn from_u64(v: u64) -> (r: Natural)
        ensures
            r@ == v,
    {
        let mut limbs: Vec<u32> = Vec::new();
        limbs.push((v % 0x1_0000_0000) as u32);
        limbs.push((v / 0x1_0000_0000) as u32);
        proof {
            let a = (v % 0x1_0000_0000) as u32;
            let b = (v / 0x1_0000_0000) as u32;
            let e = Seq::<u32>::empty();
            vstd::arithmetic::power2::lemma2_to64();
            lemma_limbs_push(e, a);
            lemma_limbs_push(e.push(a), b);
            assert(limbs@ =~= e.push(a).push(b));
            assert(limbs_value(e) == 0);
            lemma_weight(a as nat, 0, 1);
            lemma_weight(b as nat, 32, 0x1_0000_0000);
            assert(e.push(a).len() == 1);
            assert((32 * e.len()) as nat == 0);
            assert((32 * e.push(a).len()) as nat == 32);
            assert(a as nat * pow2(0) == a) by (nonlinear_arith)
                requires
                    pow2(0) == 1,
            ;
            assert(limbs_value(e.push(a)) == a);
            assert(limbs_value(limbs@) == a + b * 0x1_0000_0000);
        }
        Natural { limbs }
    }

    /// `self * f + a`.
    pub fn times_plus(&self, f: u64, a: u64) -> (r: Natural)
        ensures
            r@ == self@ * f + a,
    {
        let mut out: Vec<u32> = Vec::new();
        let mut carry: u64 = a;
        proof {
            vstd::arithmetic::power2::lemma2_to64();
            assert(self.limbs@.take(0) =~= Seq::<u32>::empty());
            assert(limbs_value(Seq::<u32>::empty()) == 0);
            assert(0 * f == 0) by (nonlinear_arith);
            lemma_weight(carry as nat, 0, 1);
        }
        for i in 0..self.limbs.len()
            invariant
                out@.len() == i,
                limbs_value(out@) + carry * pow2((32 * i) as nat) == limbs_value(
                    self.limbs@.take(i as int),
                ) * f + a,
        {
            let limb = self.limbs[i];
            let ghost c0 = carry;
            proof {
                assert(limb * f + carry <= 0xffff_ffff * 0xffff_ffff_ffff_ffff
                    + 0xffff_ffff_ffff_ffff) by (nonlinear_arith)
                    requires
                        limb <= 0xffff_ffff,
                        f <= 0xffff_ffff_ffff_ffff,
                        carry <= 0xffff_ffff_ffff_ffff,
                ;
                assert(limb * f >= 0) by (nonlinear_arith);
            }
            let t: u128 = limb as u128 * f as u128 + carry as u128;
            let low = (t % 0x1_0000_0000) as u32;
            carry = (t / 0x1_0000_0000) as u64;
            let ghost before = out@;
            out.push(low);
            proof {
                lemma_limbs_push(before, low);
                lemma_next_weight(i as nat);
                let w = pow2((32 * i) as nat) as int;
                let w2 = pow2((32 * (i + 1)) as nat) as int;
                let pre = limbs_value(self.limbs@.take(i as int)) as int;
                assert(self.limbs@.take(i + 1).drop_last() =~= self.limbs@.take(i as int));
                assert(limbs_value(self.limbs@.take(i + 1)) == pre + limb as int * w);
                assert(t == low + 0x1_0000_0000 * carry);
                let lo = low as int;
                let ca = carry as int;
                let li = limb as int;
                let ff = f as int;
                let cc = c0 as int;
                assert(lo * w + ca * w2 == (pre + li * w) * ff - pre * ff + cc * w)
                    by (nonlinear_arith)
                    requires
                        w2 == 0x1_0000_0000 * w,
                        lo + 0x1_0000_0000 * ca == li * ff + cc,
                ;
            }
        }
        assert(self.limbs@.take(self.limbs@.len() as int) =~= self.limbs@);
        let low = (carry % 0x1_0000_0000) as u32;
        let high = (carry / 0x1_0000_0000) as u32;
        let ghost before = out@;
        out.push(low);
        out.push(high);
        proof {
            lemma_limbs_push(before, low);
            lemma_limbs_push(before.push(low), high);
            lemma_next_weight(before.len());
            let w = pow2((32 * before.len()) as nat) as int;
            let lo = low as int;
            let hi = high as int;
            let ca = carry as int;
            assert(lo * w + hi * (0x1_0000_0000 * w) == ca * w) by (nonlinear_arith)
                requires
                    ca == lo + 0x1_0000_0000 * hi,
            ;
        }
        Natural { limbs: out }
    }

    /// `self * 2^k`.
    pub fn times_pow2(&self, k: usize) -> (r: Natural)
        ensures
            r@ == self@ * pow2(k as nat),
    {
        let mut out = self.times_plus(1, 0);
        let mut left: usize = k;
        while left > 0
            invariant
                left <= k,
                out@ * pow2(left as nat) == self@ * pow2(k as nat),
            decreases left,
        {
            let ghost before = out@ as int;
            if left >= 32 {
                out = out.times_plus(0x1_0000_0000, 0);
                left = left - 32;
                proof {
                    vstd::arithmetic::power2::lemma2_to64();
                    vstd::arithmetic::power2::lemma_pow2_adds(32, left as nat);
                    let p = pow2(left as nat) as int;
                    assert((before * 0x1_0000_0000) * p == before * (0x1_0000_0000 * p))
                        by (nonlinear_arith);
                }
            } else {
                out = out.times_plus(2, 0);
                left = left - 1;
                proof {
                    vstd::arithmetic::power2::lemma_pow2_unfold((left + 1) as nat);
                    let p = pow2(left as nat) as int;
                    assert((before * 2) * p == before * (2 * p)) by (nonlinear_arith);
                }
            }
        }
        proof {
            vstd::arithmetic::power2::lemma2_to64();
            let x = out@ as int;
            let p = pow2(0) as int;
            assert(x * p == x) by (nonlinear_arith)
                requires
                    p == 1,
            ;
        }
        out
    }

    /// `self * 10^k`.
    pub fn times_pow10(&self, k: u128) -> (r: Natural)
        ensures
            r@ == self@ * pow(10, k as nat),
    {
        let mut out = self.times_plus(1, 0);
        let mut left: u128 = k;
        while left > 0
            invariant
                left <= k,
                out@ * pow(10, left as nat) == self@ * pow(10, k as nat),
            decreases left,
        {
            let ghost before = out@ as int;
            if left >= 9 {
                out = out.times_plus(1_000_000_000, 0);
                left = left - 9;
                proof {
                    vstd::arithmetic::power::lemma_pow_adds(10, 9, left as nat);
                    assert(pow(10, 9) == 1_000_000_000) by {
                        reveal_with_fuel(pow, 10);
                    }
                    let p = pow(10, left as nat);
                    assert((before * 1_000_000_000) * p == before * (1_000_000_000 * p))
                        by (nonlinear_arith);
                }
            } else {
                out = out.times_plus(10, 0);
                left = left - 1;
                proof {
                    assert(pow(10, (left + 1) as nat) == 10 * pow(10, left as nat)) by {
                        reveal(pow);
                    }
                    let p = pow(10, left as nat);
                    assert((before * 10) * p == before * (10 * p)) by (nonlinear_arith);
                }
            }
        }
        proof {
            vstd::arithmetic::power::lemma_pow0(10);
            let x = out@ as int;
            let p = pow(10, 0);
            assert(x * p == x) by (nonlinear_arith)
                requires
                    p == 1,
            ;
        }
        out
    }

    /// `self + other`.
    pub fn plus(&self, other: &Natural) -> (r: Natural)
        ensures
            r@ == self@ + other@,
    {
        let n: usize = if self.limbs.len() < other.limbs.len() {
            other.limbs.len()
        } else {
            self.limbs.len()
        };
        let mut out: Vec<u32> = Vec::new();
        let mut carry: u64 = 0;
        proof {
            assert(padded(self.limbs@, 0) =~= Seq::<u32>::empty());
            assert(padded(other.limbs@, 0) =~= Seq::<u32>::empty());
        }
        for i in 0..n
            invariant
                out@.len() == i,
                carry <= 1,
                limbs_value(out@) + carry * pow2((32 * i) as nat) == limbs_value(
                    padded(self.limbs@, i as nat),
                ) + limbs_value(padded(other.limbs@, i as nat)),
        {
            let x: u32 = if i < self.limbs.len() {
                self.limbs[i]
            } else {
                0
            };
            let y: u32 = if i < other.limbs.len() {
                other.limbs[i]
            } else {
                0
            };
            let ghost c0 = carry;
            let t: u64 = x as u64 + y as u64 + carry;
            let low = (t % 0x1_0000_0000) as u32;
            carry = t / 0x1_0000_0000;
            let ghost before = out@;
            out.push(low);
            proof {
                lemma_limbs_push(before, low);
                lemma_padded_step(self.limbs@, i as nat);
                lemma_padded_step(other.limbs@, i as nat);
                lemma_next_weight(i as nat);
                let w = pow2((32 * i) as nat) as int;
                let lo = low as int;
                let ca = carry as int;
                let xx = x as int;
                let yy = y as int;
                let cc = c0 as int;
                assert(lo * w + ca * (0x1_0000_0000 * w) == xx * w + yy * w + cc * w)
                    by (nonlinear_arith)
                    requires
                        lo + 0x1_0000_0000 * ca == xx + yy + cc,
                ;
            }
        }
        let ghost before = out@;
        out.push(carry as u32);
        proof {
            lemma_limbs_push(before, carry as u32);
            lemma_padded(self.limbs@, n as nat);
            lemma_padded(other.limbs@, n as nat);
        }
        Natural { limbs: out }
    }

    /// How `self` compares with `other`.
    pub fn order(&self, other: &Natural) -> (r: Order)
        ensures
            r == order_of(self@ as int, other@ as int),
    {
        let n: usize = if self.limbs.len() < other.limbs.len() {
            other.limbs.len()
        } else {
            self.limbs.len()
        };
        let mut out = Order::Same;
        proof {
            assert(padded(self.limbs@, 0) =~= Seq::<u32>::empty());
            assert(padded(other.limbs@, 0) =~= Seq::<u32>::empty());
        }
        for i in 0..n
            invariant
                out == order_of(
                    limbs_value(padded(self.limbs@, i as nat)) as int,
                    limbs_value(padded(other.limbs@, i as nat)) as int,
                ),
        {
            let x: u32 = if i < self.limbs.len() {
                self.limbs[i]
            } else {
                0
            };
            let y: u32 = if i < other.limbs.len() {
                other.limbs[i]
            } else {
                0
            };
            if x < y {
                out = Order::Less;
            } else if x > y {
                out = Order::More;
            }
            proof {
                lemma_padded_step(self.limbs@, i as nat);
                lemma_padded_step(other.limbs@, i as nat);
                lemma_limbs_bound(padded(self.limbs@, i as nat));
                lemma_limbs_bound(padded(other.limbs@, i as nat));
                let w = pow2((32 * i) as nat) as int;
                let xx = x as int;
                let yy = y as int;
                if x < y {
                    assert((xx + 1) * w <= yy * w) by (nonlinear_arith)
                        requires
                            xx + 1 <= yy,
                            w >= 0,
                    ;
                    assert((xx + 1) * w == xx * w + w) by (nonlinear_arith);
                } else if x > y {
                    assert((yy + 1) * w <= xx * w) by (nonlinear_arith)
                        requires
                            yy + 1 <= xx,
                            w >= 0,
                    ;
                    assert((yy + 1) * w == yy * w + w) by (nonlinear_arith);
                }
            }
        }
        proof {
            lemma_padded(self.limbs@, n as nat);
            lemma_padded(other.limbs@, n as nat);
        }
        out
    }
}

/// The first `n` limbs, with zeros where there are none.
spec fn padded(s: Seq<u32>, n: nat) -> Seq<u32> {
    Seq::new(n, |i: int| if i < s.len() { s[i] } else { 0 })
}

proof fn lemma_padded_step(s: Seq<u32>, n: nat)
    ensures
        limbs_value(padded(s, n + 1)) == limbs_value(padded(s, n)) + (if n < s.len() {
            s[n as int]
        } else {
            0
        }) as nat * pow2((32 * n) as nat),
{
    let x = if n < s.len() {
        s[n as int]
    } else {
        0u32
    };
    assert(padded(s, n + 1) =~= padded(s, n).push(x));
    lemma_limbs_push(padded(s, n), x);
}

proof fn lemma_padded(s: Seq<u32>, n: nat)
    requires
        s.len() <= n,
    ensures
        limbs_value(padded(s, n)) == limbs_value(s),
    decreases n - s.len(),
{
    if n == s.len() {
        assert(padded(s, n) =~= s);
    } else {
        lemma_padded(s, (n - 1) as nat);
        lemma_padded_step(s, (n - 1) as nat);
        assert(0 * pow2((32 * (n - 1)) as nat) == 0) by (nonlinear_arith);
    }
}

} // verus!
