//! A constant-product liquidity pool: share minting on deposit and swaps
//! under the x·y = k rule with a thirty-basis-point fee.

use vstd::prelude::*;
use vstd::arithmetic::div_mod::lemma_div_is_ordered;
use vstd::string::StringExecFns;

verus! {

/// The integer square root: the largest r with r·r ≤ n.
pub open spec fn spec_isqrt(n: nat) -> nat
    decreases n,
{
    if n == 0 {
        0
    } else {
        let r = spec_isqrt((n - 1) as nat);
        if (r + 1) * (r + 1) <= n {
            (r + 1) as nat
        } else {
            r
        }
    }
}

pub proof fn lemma_isqrt_bounds(n: nat)
    ensures
        spec_isqrt(n) * spec_isqrt(n) <= n,
        n < (spec_isqrt(n) + 1) * (spec_isqrt(n) + 1),
    decreases n,
{
    if n == 0 {
        let s = spec_isqrt(n);
        assert(s == 0);
        assert((s + 1) * (s + 1) == 1) by (nonlinear_arith)
            requires s == 0nat;
        assert(n < (spec_isqrt(n) + 1) * (spec_isqrt(n) + 1));
    } else {
        lemma_isqrt_bounds((n - 1) as nat);
        let r = spec_isqrt((n - 1) as nat) as int;
        assert(r * r <= n - 1);
        assert(n - 1 < (r + 1) * (r + 1));
        if (r + 1) * (r + 1) <= n {
            assert(spec_isqrt(n) == r + 1);
            assert(n <= (r + 1) * (r + 1));
            assert((r + 2) * (r + 2) > (r + 1) * (r + 1)) by (nonlinear_arith)
                requires r >= 0;
            assert(n < (spec_isqrt(n) + 1) * (spec_isqrt(n) + 1));
        } else {
            assert(spec_isqrt(n) == r);
            assert(spec_isqrt(n) * spec_isqrt(n) <= n);
            assert(n < (spec_isqrt(n) + 1) * (spec_isqrt(n) + 1));
        }
    }
}

/// The integer square root never exceeds its argument.
pub proof fn lemma_isqrt_le(n: nat)
    ensures
        spec_isqrt(n) <= n,
{
    lemma_isqrt_bounds(n);
    let s = spec_isqrt(n) as int;
    assert(s <= n as int) by (nonlinear_arith)
        requires
            s * s <= n as int,
            s >= 0;
}

/// The largest `r` with `r * r <= n`, found by bisection.
pub fn u64_isqrt(n: u64) -> (r: u64)
    ensures
        r as nat == spec_isqrt(n as nat),
{
    let mut lo: u64 = 0;
    let mut hi: u64 = 4294967296;
    proof {
        assert((hi as int) * (hi as int) > n as int) by (nonlinear_arith)
            requires hi == 4294967296u64 && n <= u64::MAX;
    }
    while lo + 1 < hi
        invariant
            lo < hi,
            hi <= 4294967296,
            (lo as int) * (lo as int) <= n as int,
            (hi as int) * (hi as int) > n as int,
        decreases hi - lo,
    {
        let mid = lo + (hi - lo) / 2;
        proof {
            assert((mid as int) * (mid as int) <= (4294967295int) * (4294967295int))
                by (nonlinear_arith)
                requires mid <= 4294967295int;
        }
        if mid * mid <= n {
            lo = mid;
        } else {
            hi = mid;
        }
    }
    proof {
        lemma_isqrt_bounds(n as nat);
        let s = spec_isqrt(n as nat) as int;
        let l = lo as int;
        assert(l == s) by (nonlinear_arith)
            requires
                l * l <= n as int,
                (l + 1) * (l + 1) > n as int,
                s * s <= n as int,
                (s + 1) * (s + 1) > n as int,
                l >= 0,
                s >= 0;
    }
    lo
}

pub struct LiquidityPool {
    pub token_a: String,
    pub token_b: String,
    pub reserve_a: u64,
    pub reserve_b: u64,
    pub total_shares: u64,
    pub fee: u64,
}

/// The shares a deposit mints: the geometric mean of the amounts for the
/// first deposit, the proportional share of the reserves afterwards.
pub open spec fn spec_new_shares(p: LiquidityPool, amount_a: u64, amount_b: u64) -> int {
    if p.total_shares == 0 {
        spec_isqrt((amount_a * amount_b) as nat) as int
    } else {
        vstd::math::min(
            amount_a * p.total_shares / (p.reserve_a as int),
            amount_b * p.total_shares / (p.reserve_b as int),
        )
    }
}

/// The fee-discounted input a swap actually trades.
pub open spec fn spec_amount_in_with_fee(p: LiquidityPool, amount_in: u64) -> int {
    amount_in * (10000 - p.fee) / 10000
}

/// The output of a swap under the constant-product rule.
pub open spec fn spec_swap_out(p: LiquidityPool, token_in: Seq<char>, amount_in: u64) -> int {
    let reserve_in: int = if token_in == p.token_a@ {
        p.reserve_a as int
    } else {
        p.reserve_b as int
    };
    let reserve_out: int = if token_in == p.token_a@ {
        p.reserve_b as int
    } else {
        p.reserve_a as int
    };
    let aif = spec_amount_in_with_fee(p, amount_in);
    reserve_out * aif / (reserve_in + aif)
}

impl LiquidityPool {
    /// An empty pool over the two tokens, charging thirty basis points.
    pub fn new(token_a: String, token_b: String) -> (p: Self)
        ensures
            p.token_a == token_a,
            p.token_b == token_b,
            p.reserve_a == 0,
            p.reserve_b == 0,
            p.total_shares == 0,
            p.fee == 30u64,
    {
        LiquidityPool { token_a, token_b, reserve_a: 0, reserve_b: 0, total_shares: 0, fee: 30 }
    }

    /// Deposits both amounts and mints shares: the geometric mean for the
    /// first deposit, the smaller proportional share afterwards.
    pub fn add_liquidity(&mut self, amount_a: u64, amount_b: u64) -> (shares: u64)
        requires
            old(self).total_shares == 0 ==> amount_a * amount_b <= u64::MAX,
            old(self).total_shares > 0 ==> old(self).reserve_a > 0 && old(self).reserve_b > 0
                && amount_a * old(self).total_shares <= u64::MAX
                && amount_b * old(self).total_shares <= u64::MAX,
            old(self).reserve_a + amount_a <= u64::MAX,
            old(self).reserve_b + amount_b <= u64::MAX,
            old(self).total_shares + spec_new_shares(*old(self), amount_a, amount_b) <= u64::MAX,
        ensures
            shares == spec_new_shares(*old(self), amount_a, amount_b),
            final(self).reserve_a == old(self).reserve_a + amount_a,
            final(self).reserve_b == old(self).reserve_b + amount_b,
            final(self).total_shares == old(self).total_shares + shares,
            final(self).token_a == old(self).token_a,
            final(self).token_b == old(self).token_b,
            final(self).fee == old(self).fee,
    {
        proof {
            if self.total_shares == 0 {
                lemma_isqrt_le((amount_a * amount_b) as nat);
            }
        }
        let shares = if self.total_shares == 0 {
            u64_isqrt(amount_a * amount_b)
        } else {
            let sa = amount_a * self.total_shares / self.reserve_a;
            let sb = amount_b * self.total_shares / self.reserve_b;
            if sa <= sb {
                sa
            } else {
                sb
            }
        };
        self.reserve_a = self.reserve_a + amount_a;
        self.reserve_b = self.reserve_b + amount_b;
        self.total_shares = self.total_shares + shares;
        shares
    }

    /// Swaps `amount_in` of one token for the other under the
    /// constant-product rule, after the fee; the traded-away reserve
    /// shrinks by exactly the returned output.
    pub fn swap(&mut self, token_in: String, amount_in: u64) -> (amount_out: u64)
        requires
            old(self).fee <= 10000,
            amount_in * (10000 - old(self).fee) <= u64::MAX,
            (if token_in@ == old(self).token_a@ {
                old(self).reserve_b as int
            } else {
                old(self).reserve_a as int
            }) * spec_amount_in_with_fee(*old(self), amount_in) <= u64::MAX,
            (if token_in@ == old(self).token_a@ {
                old(self).reserve_a as int
            } else {
                old(self).reserve_b as int
            }) + spec_amount_in_with_fee(*old(self), amount_in) > 0,
            (if token_in@ == old(self).token_a@ {
                old(self).reserve_a as int
            } else {
                old(self).reserve_b as int
            }) + spec_amount_in_with_fee(*old(self), amount_in) <= u64::MAX,
            (if token_in@ == old(self).token_a@ {
                old(self).reserve_a as int
            } else {
                old(self).reserve_b as int
            }) + amount_in <= u64::MAX,
        ensures
            amount_out == spec_swap_out(*old(self), token_in@, amount_in),
            token_in@ == old(self).token_a@ ==> {
                &&& final(self).reserve_a == old(self).reserve_a + amount_in
                &&& final(self).reserve_b == old(self).reserve_b - amount_out
            },
            token_in@ != old(self).token_a@ ==> {
                &&& final(self).reserve_b == old(self).reserve_b + amount_in
                &&& final(self).reserve_a == old(self).reserve_a - amount_out
            },
            final(self).token_a == old(self).token_a,
            final(self).token_b == old(self).token_b,
            final(self).total_shares == old(self).total_shares,
            final(self).fee == old(self).fee,
    {
        let is_a = token_in == self.token_a;
        let (reserve_in, reserve_out) = if is_a {
            (self.reserve_a, self.reserve_b)
        } else {
            (self.reserve_b, self.reserve_a)
        };
        let amount_in_with_fee = amount_in * (10000 - self.fee) / 10000;
        let amount_out = (reserve_out * amount_in_with_fee) / (reserve_in + amount_in_with_fee);
        proof {
            let ro = reserve_out as int;
            let aif = amount_in_with_fee as int;
            let ri = reserve_in as int;
            assert(ro * aif <= ro * (ri + aif)) by (nonlinear_arith)
                requires ro >= 0 && ri >= 0 && aif >= 0;
            lemma_div_is_ordered(ro * aif, ro * (ri + aif), ri + aif);
            assert(ro * (ri + aif) / (ri + aif) == ro) by {
                vstd::arithmetic::div_mod::lemma_div_by_multiple(ro, ri + aif);
            }
        }
        if is_a {
            self.reserve_a = self.reserve_a + amount_in;
            self.reserve_b = self.reserve_b - amount_out;
        } else {
            self.reserve_b = self.reserve_b + amount_in;
            self.reserve_a = self.reserve_a - amount_out;
        }
        amount_out
    }
}

} // verus!
