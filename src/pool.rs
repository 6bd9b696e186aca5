//! A constant-product liquidity pool: deposits mint shares at the pool's ratio,
//! withdrawals redeem them pro rata, all in floor-division integer arithmetic.
use vstd::prelude::*;
use vstd::arithmetic::div_mod::{lemma_div_by_multiple, lemma_multiply_divide_le, lemma_multiply_divide_lt};
use vstd::arithmetic::mul::{lemma_mul_inequality, lemma_mul_strict_inequality};
use crate::ledger::{AccountId, BalanceMap, balance_in};

verus! {

/// Scale of a share amount: six decimal digits.
pub const PRECISION: u128 = 1_000_000;

/// Shares issued for the first deposit into an empty pool.
pub const GENESIS_SHARES: u128 = 100 * PRECISION;

/// Fee parameters at or above this bound are stored as zero.
pub const FEE_BOUND: u128 = 1000;

#[derive(Debug, Clone, Copy, PartialEq, Eq, Structural)]
pub enum Error {
    /// The pool holds no assets.
    ZeroLiquidity,
    /// The amount is zero.
    ZeroAmount,
    /// The amount exceeds the caller's balance.
    InsufficientAmount,
    /// The two amounts are not in the pool's ratio.
    NonEquivalentValue,
    /// The deposit is worth less than one share unit.
    ThresholdNotReached,
    /// The share amount exceeds the shares issued.
    InvalidShare,
    /// The pool cannot cover the request.
    InsufficientLiquidity,
    /// The price moved past the tolerance given.
    SlippageExceeded,
}

/// The abstract state of a pool: its totals, its fee, and the per-account
/// balances of both assets and of shares.
pub struct PoolState {
    pub total_shares: u128,
    pub total_token1: u128,
    pub total_token2: u128,
    pub fees: u128,
    pub token1: Map<Seq<u8>, u128>,
    pub token2: Map<Seq<u8>, u128>,
    pub shares: Map<Seq<u8>, u128>,
}

/// The constant product of the pool.
pub open spec fn k_of(s: PoolState) -> int {
    s.total_token1 * s.total_token2
}

/// Zero when the amount is zero, insufficient when it exceeds the balance.
pub open spec fn amount_check(balance: u128, qty: u128) -> Result<(), Error> {
    if qty == 0 {
        Err(Error::ZeroAmount)
    } else if qty > balance {
        Err(Error::InsufficientAmount)
    } else {
        Ok(())
    }
}

/// Shares that a deposit of `a1` and `a2` mints, by the pool's ratio.
pub open spec fn share1_of(s: PoolState, a1: u128) -> int {
    s.total_shares * a1 / (s.total_token1 as int)
}

pub open spec fn share2_of(s: PoolState, a2: u128) -> int {
    s.total_shares * a2 / (s.total_token2 as int)
}

/// The shares minted for a deposit, once both amounts passed their checks.
pub open spec fn mint_outcome(s: PoolState, a1: u128, a2: u128) -> Result<u128, Error> {
    if s.total_shares == 0 {
        Ok(GENESIS_SHARES)
    } else if share1_of(s, a1) != share2_of(s, a2) {
        Err(Error::NonEquivalentValue)
    } else if share1_of(s, a1) == 0 {
        Err(Error::ThresholdNotReached)
    } else {
        Ok(share1_of(s, a1) as u128)
    }
}

/// What `provide` returns.
pub open spec fn provide_outcome(s: PoolState, c: Seq<u8>, a1: u128, a2: u128) -> Result<
    u128,
    Error,
> {
    match amount_check(balance_in(s.token1, c), a1) {
        Err(e) => Err(e),
        Ok(_) => match amount_check(balance_in(s.token2, c), a2) {
            Err(e) => Err(e),
            Ok(_) => mint_outcome(s, a1, a2),
        },
    }
}

/// The state after a deposit of `a1` and `a2` that minted `share`.
pub open spec fn after_provide(s: PoolState, c: Seq<u8>, a1: u128, a2: u128, share: u128) -> PoolState {
    PoolState {
        total_shares: (s.total_shares + share) as u128,
        total_token1: (s.total_token1 + a1) as u128,
        total_token2: (s.total_token2 + a2) as u128,
        fees: s.fees,
        token1: s.token1.insert(c, (balance_in(s.token1, c) - a1) as u128),
        token2: s.token2.insert(c, (balance_in(s.token2, c) - a2) as u128),
        shares: s.shares.insert(c, (balance_in(s.shares, c) + share) as u128),
    }
}

/// The amounts of both assets that `share` shares stand for.
pub open spec fn withdraw_outcome(s: PoolState, share: u128) -> Result<(u128, u128), Error> {
    if k_of(s) == 0 {
        Err(Error::ZeroLiquidity)
    } else if share > s.total_shares {
        Err(Error::InvalidShare)
    } else {
        Ok(
            (
                (share * s.total_token1 / (s.total_shares as int)) as u128,
                (share * s.total_token2 / (s.total_shares as int)) as u128,
            ),
        )
    }
}

/// What `withdraw` returns.
pub open spec fn withdrawal_outcome(s: PoolState, c: Seq<u8>, share: u128) -> Result<
    (u128, u128),
    Error,
> {
    match amount_check(balance_in(s.shares, c), share) {
        Err(e) => Err(e),
        Ok(_) => withdraw_outcome(s, share),
    }
}

/// The state after `share` shares were redeemed for `w1` and `w2`.
pub open spec fn after_withdraw(s: PoolState, c: Seq<u8>, share: u128, w1: u128, w2: u128) -> PoolState {
    PoolState {
        total_shares: (s.total_shares - share) as u128,
        total_token1: (s.total_token1 - w1) as u128,
        total_token2: (s.total_token2 - w2) as u128,
        fees: s.fees,
        token1: s.token1.insert(c, (balance_in(s.token1, c) + w1) as u128),
        token2: s.token2.insert(c, (balance_in(s.token2, c) + w2) as u128),
        shares: s.shares.insert(c, (balance_in(s.shares, c) - share) as u128),
    }
}

/// The amount of the first asset that matches `a2` of the second.
pub open spec fn equivalent1_outcome(s: PoolState, a2: u128) -> Result<u128, Error> {
    if k_of(s) == 0 {
        Err(Error::ZeroLiquidity)
    } else {
        Ok((s.total_token1 * a2 / (s.total_token2 as int)) as u128)
    }
}

/// The amount of the second asset that matches `a1` of the first.
pub open spec fn equivalent2_outcome(s: PoolState, a1: u128) -> Result<u128, Error> {
    if k_of(s) == 0 {
        Err(Error::ZeroLiquidity)
    } else {
        Ok((s.total_token2 * a1 / (s.total_token1 as int)) as u128)
    }
}

/// A deposit that passes the balance checks stays within `u128`: its
/// products, and the totals after it.
pub open spec fn provide_in_range(s: PoolState, c: Seq<u8>, a1: u128, a2: u128) -> bool {
    amount_check(balance_in(s.token1, c), a1) is Ok && amount_check(balance_in(s.token2, c), a2) is Ok
        ==> {
        &&& s.total_shares * a1 <= u128::MAX
        &&& s.total_shares * a2 <= u128::MAX
        &&& s.total_token1 + a1 <= u128::MAX
        &&& s.total_token2 + a2 <= u128::MAX
        &&& s.total_shares + (if s.total_shares == 0 {
            GENESIS_SHARES as int
        } else {
            share1_of(s, a1)
        }) <= u128::MAX
    }
}

/// The products of a withdrawal stay within `u128`.
pub open spec fn estimate_in_range(s: PoolState, share: u128) -> bool {
    share * s.total_token1 <= u128::MAX && share * s.total_token2 <= u128::MAX
}

/// A withdrawal of shares that the caller holds stays within `u128`: its
/// products, and the caller's balances after it.
pub open spec fn withdraw_in_range(s: PoolState, c: Seq<u8>, share: u128) -> bool {
    share <= balance_in(s.shares, c) ==> {
        &&& estimate_in_range(s, share)
        &&& s.total_shares == 0 || balance_in(s.token1, c) + share * s.total_token1 / (
        s.total_shares as int) <= u128::MAX
        &&& s.total_shares == 0 || balance_in(s.token2, c) + share * s.total_token2 / (
        s.total_shares as int) <= u128::MAX
    }
}

proof fn lemma_k_zero(t1: u128, t2: u128)
    ensures
        (t1 * t2 == 0) == (t1 == 0 || t2 == 0),
{
    if t1 != 0 && t2 != 0 {
        lemma_mul_strict_inequality(0, t1 as int, t2 as int);
    }
}

/// A pro-rata part of `t` for `share` out of `total` shares.
proof fn lemma_part_bounds(share: int, total: int, t: int)
    requires
        0 <= share <= total,
        0 < total,
        0 <= t,
    ensures
        0 <= share * t / total <= t,
        share < total && 0 < t ==> share * t / total < t,
        share == total ==> share * t / total == t,
{
    lemma_mul_inequality(share, total, t);
    assert(total * t == t * total) by (nonlinear_arith);
    assert(0 <= share * t) by (nonlinear_arith)
        requires
            0 <= share,
            0 <= t,
    ;
    lemma_multiply_divide_le(share * t, total, t);
    assert(0 <= share * t / total) by (nonlinear_arith)
        requires
            0 <= share * t,
            0 < total,
    ;
    if share < total && 0 < t {
        lemma_mul_strict_inequality(share, total, t);
        lemma_multiply_divide_lt(share * t, total, t);
    }
    if share == total {
        lemma_div_by_multiple(t, total);
    }
}

/// What every state of a pool satisfies: it holds both assets and shares, or
/// none of the three, and no account holds more shares than were issued.
pub open spec fn consistent(s: PoolState) -> bool {
    &&& (s.total_shares == 0) == (s.total_token1 == 0)
    &&& (s.total_shares == 0) == (s.total_token2 == 0)
    &&& forall|c: Seq<u8>| #[trigger] balance_in(s.shares, c) <= s.total_shares
}

/// Into an empty pool, every deposit that passes the balance checks mints
/// exactly the fixed genesis amount, whatever the two amounts are.
pub proof fn lemma_genesis_mint(s: PoolState, c: Seq<u8>, a1: u128, a2: u128)
    requires
        s.total_shares == 0,
    ensures
        amount_check(balance_in(s.token1, c), a1) is Ok && amount_check(balance_in(s.token2, c), a2) is Ok
            ==> provide_outcome(s, c, a1, a2) == Ok::<u128, Error>(100_000_000u128),
        provide_outcome(s, c, a1, a2) is Ok ==> provide_outcome(s, c, a1, a2)->Ok_0 == 100
            * 1_000_000,
{
}

/// Into a pool that has issued shares, a deposit that passes the balance
/// checks succeeds exactly when both amounts give the same pro-rata share
/// (and that share is not zero); when they differ it fails with
/// `NonEquivalentValue`.
pub proof fn lemma_ratio_rule(s: PoolState, c: Seq<u8>, a1: u128, a2: u128)
    requires
        s.total_shares > 0,
        amount_check(balance_in(s.token1, c), a1) is Ok,
        amount_check(balance_in(s.token2, c), a2) is Ok,
    ensures
        provide_outcome(s, c, a1, a2) is Ok <==> (share1_of(s, a1) == share2_of(s, a2) && share1_of(s, a1) != 0),
        share1_of(s, a1) != share2_of(s, a2) ==> provide_outcome(s, c, a1, a2) == Err::<u128, Error>(
            Error::NonEquivalentValue,
        ),
{
}

/// Redeeming part of the shares and at once depositing the assets received
/// mints no more shares than were redeemed: the caller's share balance ends
/// no higher than it began. Floor division only ever loses, and the loss is
/// bounded: the shares lost, times the pool's first asset after the
/// withdrawal, stay below the shares issued plus that amount.
pub proof fn lemma_withdraw_redeposit_bounded(s: PoolState, c: Seq<u8>, share: u128)
    requires
        consistent(s),
        share < s.total_shares,
        withdrawal_outcome(s, c, share) is Ok,
    ensures
        ({
            let (w1, w2) = withdrawal_outcome(s, c, share)->Ok_0;
            let mid = after_withdraw(s, c, share, w1, w2);
            match provide_outcome(mid, c, w1, w2) {
                Ok(minted) => minted <= share && (share - minted) * mid.total_token1
                    < s.total_shares + mid.total_token1 && balance_in(
                    after_provide(mid, c, w1, w2, minted).shares,
                    c,
                ) <= balance_in(s.shares, c),
                Err(_) => true,
            }
        }),
{
    let (w1, w2) = withdrawal_outcome(s, c, share)->Ok_0;
    let mid = after_withdraw(s, c, share, w1, w2);
    let ts = s.total_shares as int;
    let t1 = s.total_token1 as int;
    lemma_part_bounds(share as int, ts, t1);
    lemma_part_bounds(share as int, ts, s.total_token2 as int);
    let w = w1 as int;
    assert(w == share * t1 / ts);
    let rem = share * t1 - ts * w;
    assert(0 <= rem < ts) by {
        vstd::arithmetic::div_mod::lemma_fundamental_div_mod(share * t1, ts);
        vstd::arithmetic::div_mod::lemma_mod_bound(share * t1, ts);
        assert(ts * (share * t1 / ts) == ts * w);
    }
    let rest = ts - share;
    let left = t1 - w;
    assert(mid.total_shares == rest);
    assert(mid.total_token1 == left);
    assert(0 < left);
    assert(share * left - rest * w == rem) by (nonlinear_arith)
        requires
            rem == share * t1 - ts * w,
            rest == ts - share,
            left == t1 - w,
    ;
    if let Ok(minted) = provide_outcome(mid, c, w1, w2) {
        assert(rest > 0);
        lemma_multiply_divide_le(rest * w, left, share as int);
        assert(minted == share1_of(mid, w1));
        let m = minted as int;
        let q = rest * w - left * m;
        assert(0 <= q < left) by {
            vstd::arithmetic::div_mod::lemma_fundamental_div_mod(rest * w, left);
            vstd::arithmetic::div_mod::lemma_mod_bound(rest * w, left);
            assert(left * ((rest * w) / left) == left * m);
        }
        assert((share - m) * left < ts + left) by (nonlinear_arith)
            requires
                share * left - rest * w == rem,
                q == rest * w - left * m,
                0 <= rem < ts,
                0 <= q < left,
        ;
        assert(balance_in(s.shares, c) >= share);
    }
}

/// A liquidity pool over two assets, with the per-account balances it keeps.
pub struct Dex {
    total_shares: u128,
    total_token1: u128,
    total_token2: u128,
    shares: BalanceMap,
    token1_balance: BalanceMap,
    token2_balance: BalanceMap,
    fees: u128,
}

impl Dex {
    pub closed spec fn view(&self) -> PoolState {
        PoolState {
            total_shares: self.total_shares,
            total_token1: self.total_token1,
            total_token2: self.total_token2,
            fees: self.fees,
            token1: self.token1_balance@,
            token2: self.token2_balance@,
            shares: self.shares@,
        }
    }

    /// The ledgers are well formed, the shares issued are those held, and the
    /// pool holds either both assets and shares, or none of the three.
    pub closed spec fn wf(&self) -> bool {
        &&& self.shares.wf()
        &&& self.token1_balance.wf()
        &&& self.token2_balance.wf()
        &&& self.shares.total() == self.total_shares
        &&& (self.total_shares == 0) == (self.total_token1 == 0)
        &&& (self.total_shares == 0) == (self.total_token2 == 0)
        &&& self.fees < FEE_BOUND
    }

    /// Every well-formed pool is consistent.
    pub proof fn lemma_consistent(&self)
        requires
            self.wf(),
        ensures
            consistent(self@),
    {
        assert forall|c: Seq<u8>| #[trigger] balance_in(self@.shares, c) <= self@.total_shares by {
            self.shares.lemma_get_le_total(c);
        }
    }

    /// Checks a requested amount against the caller's balance in `ledger`.
    #[allow(non_snake_case)]
    fn validAmountCheck(ledger: &BalanceMap, key: &Vec<u8>, qty: u128) -> (r: Result<(), Error>)
        requires
            ledger.wf(),
        ensures
            r == amount_check(ledger.get_spec(key@), qty),
    {
        let my_balance = ledger.get(key);
        if qty == 0 {
            Err(Error::ZeroAmount)
        } else if qty > my_balance {
            Err(Error::InsufficientAmount)
        } else {
            Ok(())
        }
    }

    /// Fails with `ZeroLiquidity` while the constant product is zero.
    #[allow(non_snake_case)]
    fn activePool(&self) -> (r: Result<(), Error>)
        ensures
            r == (if k_of(self@) == 0 {
                Err::<(), Error>(Error::ZeroLiquidity)
            } else {
                Ok(())
            }),
    {
        proof {
            lemma_k_zero(self.total_token1, self.total_token2);
        }
        if self.total_token1 == 0 || self.total_token2 == 0 {
            Err(Error::ZeroLiquidity)
        } else {
            Ok(())
        }
    }

    /// An empty pool; a fee at or above the bound is stored as zero.
    pub fn new(fees: u128) -> (r: Dex)
        ensures
            r.wf(),
            r@.total_shares == 0,
            r@.total_token1 == 0,
            r@.total_token2 == 0,
            r@.fees == (if fees >= FEE_BOUND { 0 } else { fees }),
            r@.token1 == Map::<Seq<u8>, u128>::empty(),
            r@.token2 == Map::<Seq<u8>, u128>::empty(),
            r@.shares == Map::<Seq<u8>, u128>::empty(),
    {
        Dex {
            total_shares: 0,
            total_token1: 0,
            total_token2: 0,
            shares: BalanceMap::new(),
            token1_balance: BalanceMap::new(),
            token2_balance: BalanceMap::new(),
            fees: if fees >= FEE_BOUND { 0 } else { fees },
        }
    }

    /// Deposits `amount_token1` and `amount_token2` from the caller's balances
    /// into the pool and returns the shares minted for them: a fixed amount
    /// into an empty pool, else the pro-rata share, which both amounts must
    /// give alike. On an error nothing changes.
    pub fn provide(&mut self, caller: &AccountId, amount_token1: u128, amount_token2: u128) -> (r:
        Result<u128, Error>)
        requires
            old(self).wf(),
            provide_in_range(old(self)@, caller@, amount_token1, amount_token2),
        ensures
            final(self).wf(),
            r == provide_outcome(old(self)@, caller@, amount_token1, amount_token2),
            match r {
                Ok(share) => final(self)@ == after_provide(
                    old(self)@,
                    caller@,
                    amount_token1,
                    amount_token2,
                    share,
                ),
                Err(_) => final(self)@ == old(self)@,
            },
    {
        let key = caller.key();
        match Self::validAmountCheck(&self.token1_balance, &key, amount_token1) {
            Err(e) => return Err(e),
            Ok(_) => {},
        }
        match Self::validAmountCheck(&self.token2_balance, &key, amount_token2) {
            Err(e) => return Err(e),
            Ok(_) => {},
        }
        let share: u128;
        if self.total_shares == 0 {
            share = GENESIS_SHARES;
        } else {
            let share1 = self.total_shares * amount_token1 / self.total_token1;
            let share2 = self.total_shares * amount_token2 / self.total_token2;
            if share1 != share2 {
                return Err(Error::NonEquivalentValue);
            }
            share = share1;
        }
        if share == 0 {
            return Err(Error::ThresholdNotReached);
        }
        let token1 = self.token1_balance.get(&key);
        let token2 = self.token2_balance.get(&key);
        let my_shares = self.shares.get(&key);
        proof {
            self.shares.lemma_get_le_total(caller@);
        }
        self.token1_balance.set(&key, token1 - amount_token1);
        self.token2_balance.set(&key, token2 - amount_token2);
        self.total_token1 = self.total_token1 + amount_token1;
        self.total_token2 = self.total_token2 + amount_token2;
        self.total_shares = self.total_shares + share;
        self.shares.set(&key, my_shares + share);
        Ok(share)
    }

    /// Redeems `share` of the caller's shares for the pro-rata part of both
    /// assets, which it credits to the caller and returns. On an error
    /// nothing changes.
    pub fn withdraw(&mut self, caller: &AccountId, share: u128) -> (r: Result<(u128, u128), Error>)
        requires
            old(self).wf(),
            withdraw_in_range(old(self)@, caller@, share),
        ensures
            final(self).wf(),
            r == withdrawal_outcome(old(self)@, caller@, share),
            match r {
                Ok((w1, w2)) => final(self)@ == after_withdraw(old(self)@, caller@, share, w1, w2),
                Err(_) => final(self)@ == old(self)@,
            },
    {
        let key = caller.key();
        match Self::validAmountCheck(&self.shares, &key, share) {
            Err(e) => return Err(e),
            Ok(_) => {},
        }
        let (amount_token1, amount_token2) = match self.getWithdrawEstimate(share) {
            Err(e) => return Err(e),
            Ok(p) => p,
        };
        proof {
            self.shares.lemma_get_le_total(caller@);
            lemma_part_bounds(share as int, self.total_shares as int, self.total_token1 as int);
            lemma_part_bounds(share as int, self.total_shares as int, self.total_token2 as int);
        }
        let my_shares = self.shares.get(&key);
        let token1 = self.token1_balance.get(&key);
        let token2 = self.token2_balance.get(&key);
        self.shares.set(&key, my_shares - share);
        self.total_shares = self.total_shares - share;
        self.total_token1 = self.total_token1 - amount_token1;
        self.total_token2 = self.total_token2 - amount_token2;
        self.token1_balance.set(&key, token1 + amount_token1);
        self.token2_balance.set(&key, token2 + amount_token2);
        Ok((amount_token1, amount_token2))
    }

    /// The amounts of both assets that `share` shares stand for; fails while
    /// the pool is empty, or for more shares than were issued.
    #[allow(non_snake_case)]
    pub fn getWithdrawEstimate(&self, share: u128) -> (r: Result<(u128, u128), Error>)
        requires
            self.wf(),
            share <= self@.total_shares ==> estimate_in_range(self@, share),
        ensures
            r == withdraw_outcome(self@, share),
    {
        match self.activePool() {
            Err(e) => return Err(e),
            Ok(_) => {},
        }
        if share > self.total_shares {
            return Err(Error::InvalidShare);
        }
        let amount_token1 = share * self.total_token1 / self.total_shares;
        let amount_token2 = share * self.total_token2 / self.total_shares;
        Ok((amount_token1, amount_token2))
    }

    /// Credits the caller's balances of both assets; the pool is untouched.
    pub fn faucet(&mut self, caller: &AccountId, amount_token1: u128, amount_token2: u128)
        requires
            old(self).wf(),
            balance_in(old(self)@.token1, caller@) + amount_token1 <= u128::MAX,
            balance_in(old(self)@.token2, caller@) + amount_token2 <= u128::MAX,
        ensures
            final(self).wf(),
            final(self)@ == (PoolState {
                token1: old(self)@.token1.insert(
                    caller@,
                    (balance_in(old(self)@.token1, caller@) + amount_token1) as u128,
                ),
                token2: old(self)@.token2.insert(
                    caller@,
                    (balance_in(old(self)@.token2, caller@) + amount_token2) as u128,
                ),
                ..old(self)@
            }),
    {
        let key = caller.key();
        let token1 = self.token1_balance.get(&key);
        let token2 = self.token2_balance.get(&key);
        self.token1_balance.set(&key, token1 + amount_token1);
        self.token2_balance.set(&key, token2 + amount_token2);
    }

    /// The caller's balances of both assets and of shares.
    #[allow(non_snake_case)]
    pub fn getMyHoldings(&self, caller: &AccountId) -> (r: (u128, u128, u128))
        requires
            self.wf(),
        ensures
            r == (
                balance_in(self@.token1, caller@),
                balance_in(self@.token2, caller@),
                balance_in(self@.shares, caller@),
            ),
    {
        let key = caller.key();
        let token1 = self.token1_balance.get(&key);
        let token2 = self.token2_balance.get(&key);
        let my_shares = self.shares.get(&key);
        (token1, token2, my_shares)
    }

    /// The pool's totals of both assets and of shares, and its fee.
    #[allow(non_snake_case)]
    pub fn getPoolDetails(&self) -> (r: (u128, u128, u128, u128))
        ensures
            r == (self@.total_token1, self@.total_token2, self@.total_shares, self@.fees),
    {
        (self.total_token1, self.total_token2, self.total_shares, self.fees)
    }

    /// The amount of the first asset that matches `amount_token2` of the
    /// second at the pool's ratio; fails while the pool is empty.
    #[allow(non_snake_case)]
    pub fn getEquivalentToken1Estimate(&self, amount_token2: u128) -> (r: Result<u128, Error>)
        requires
            self@.total_token1 * amount_token2 <= u128::MAX,
        ensures
            r == equivalent1_outcome(self@, amount_token2),
    {
        match self.activePool() {
            Err(e) => return Err(e),
            Ok(_) => {},
        }
        Ok(self.total_token1 * amount_token2 / self.total_token2)
    }

    /// The amount of the second asset that matches `amount_token1` of the
    /// first at the pool's ratio; fails while the pool is empty.
    #[allow(non_snake_case)]
    pub fn getEquivalentToken2Estimate(&self, amount_token1: u128) -> (r: Result<u128, Error>)
        requires
            self@.total_token2 * amount_token1 <= u128::MAX,
        ensures
            r == equivalent2_outcome(self@, amount_token1),
    {
        match self.activePool() {
            Err(e) => return Err(e),
            Ok(_) => {},
        }
        Ok(self.total_token2 * amount_token1 / self.total_token1)
    }
}

} // verus!
