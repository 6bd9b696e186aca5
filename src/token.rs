//! A fungible token: supply, balances, allowances, and the events of each change.
use vstd::prelude::*;
use crate::ledger::{AccountId, BalanceMap, balance_in};

verus! {

#[derive(Debug, Clone, Copy, PartialEq, Eq, Structural)]
pub enum Error {
    /// The balance cannot fulfill the request.
    InsufficientBalance,
    /// The allowance cannot fulfill the request.
    InsufficientAllowance,
}

/// Tokens moved from one account to another; `None` stands for minting.
#[derive(Debug, Clone, Copy)]
pub struct Transfer {
    pub from: Option<AccountId>,
    pub to: Option<AccountId>,
    pub value: u128,
}

/// An owner let a spender move up to `value` of its tokens.
#[derive(Debug, Clone, Copy)]
pub struct Approval {
    pub owner: AccountId,
    pub spender: AccountId,
    pub value: u128,
}

/// New tokens credited to the minter.
#[derive(Debug, Clone, Copy)]
pub struct Mint {
    pub minter: AccountId,
    pub amount: u128,
}

/// Tokens destroyed from an account.
#[derive(Debug, Clone, Copy)]
pub struct Burn {
    pub from: AccountId,
    pub to: AccountId,
    pub amount: u128,
}

/// The abstract state of a token: its supply, the balances, and the
/// allowances keyed by the owner's bytes followed by the spender's.
pub struct TokenState {
    pub total_supply: u128,
    pub balances: Map<Seq<u8>, u128>,
    pub allowances: Map<Seq<u8>, u128>,
}

/// The key of the allowance that `owner` gave `spender`.
pub open spec fn allowance_key(owner: Seq<u8>, spender: Seq<u8>) -> Seq<u8> {
    owner + spender
}

/// The balances after `value` moved from `from` to `to`.
pub open spec fn moved(b: Map<Seq<u8>, u128>, from: Seq<u8>, to: Seq<u8>, value: u128) -> Map<
    Seq<u8>,
    u128,
> {
    let debited = b.insert(from, (balance_in(b, from) - value) as u128);
    debited.insert(to, (balance_in(debited, to) + value) as u128)
}

/// The account that burnt tokens go to: all bytes zero.
pub open spec fn is_zero_account(a: AccountId) -> bool {
    a@ == Seq::new(32, |i: int| 0u8)
}

fn zero_account() -> (r: AccountId)
    ensures
        is_zero_account(r),
{
    let r = AccountId { bytes: [0u8; 32] };
    assert(r@ =~= Seq::new(32, |i: int| 0u8));
    r
}

fn pair_key(owner: &AccountId, spender: &AccountId) -> (r: Vec<u8>)
    ensures
        r@ == allowance_key(owner@, spender@),
{
    let mut k = owner.key();
    let mut rest = spender.key();
    k.append(&mut rest);
    k
}

/// A fungible token: a supply and the balances and allowances of accounts.
pub struct CarbonToken {
    total_supply: u128,
    balances: BalanceMap,
    allowances: BalanceMap,
}

impl CarbonToken {
    pub closed spec fn view(&self) -> TokenState {
        TokenState {
            total_supply: self.total_supply,
            balances: self.balances@,
            allowances: self.allowances@,
        }
    }

    /// The ledgers are well formed and the supply is the sum of all balances.
    pub closed spec fn wf(&self) -> bool {
        &&& self.balances.wf()
        &&& self.allowances.wf()
        &&& self.balances.total() == self.total_supply
    }

    /// A token whose whole initial supply belongs to `caller`.
    pub fn new(caller: &AccountId, initial_supply: u128) -> (r: CarbonToken)
        ensures
            r.wf(),
            r@ == (TokenState {
                total_supply: initial_supply,
                balances: Map::<Seq<u8>, u128>::empty().insert(caller@, initial_supply),
                allowances: Map::<Seq<u8>, u128>::empty(),
            }),
    {
        let mut balances = BalanceMap::new();
        balances.set(&caller.key(), initial_supply);
        CarbonToken { total_supply: initial_supply, balances, allowances: BalanceMap::new() }
    }

    /// The total supply.
    pub fn total_supply(&self) -> (r: u128)
        ensures
            r == self@.total_supply,
    {
        self.total_supply
    }

    /// The balance of `owner`, zero for an account never seen.
    pub fn balance_of(&self, owner: &AccountId) -> (r: u128)
        requires
            self.wf(),
        ensures
            r == balance_in(self@.balances, owner@),
    {
        self.balances.get(&owner.key())
    }

    /// How much `spender` may still move from `owner`'s balance.
    pub fn allowance(&self, owner: &AccountId, spender: &AccountId) -> (r: u128)
        requires
            self.wf(),
        ensures
            r == balance_in(self@.allowances, allowance_key(owner@, spender@)),
    {
        self.allowances.get(&pair_key(owner, spender))
    }

    fn transfer_from_to(&mut self, from: &AccountId, to: &AccountId, value: u128) -> (r: Result<
        Transfer,
        Error,
    >)
        requires
            old(self).wf(),
        ensures
            final(self).wf(),
            final(self)@.total_supply == old(self)@.total_supply,
            final(self)@.allowances == old(self)@.allowances,
            balance_in(old(self)@.balances, from@) < value ==> r == Err::<Transfer, Error>(
                Error::InsufficientBalance,
            ) && final(self)@ == old(self)@,
            balance_in(old(self)@.balances, from@) >= value ==> r == Ok::<Transfer, Error>(
                Transfer { from: Some(*from), to: Some(*to), value },
            ) && final(self)@.balances == moved(old(self)@.balances, from@, to@, value),
    {
        let from_key = from.key();
        let to_key = to.key();
        let from_balance = self.balances.get(&from_key);
        if from_balance < value {
            return Err(Error::InsufficientBalance);
        }
        self.balances.set(&from_key, from_balance - value);
        let to_balance = self.balances.get(&to_key);
        proof {
            self.balances.lemma_get_le_total(to@);
        }
        self.balances.set(&to_key, to_balance + value);
        Ok(Transfer { from: Some(*from), to: Some(*to), value })
    }

    /// Moves `value` of the caller's tokens to `to`.
    pub fn transfer(&mut self, caller: &AccountId, to: &AccountId, value: u128) -> (r: Result<
        Transfer,
        Error,
    >)
        requires
            old(self).wf(),
        ensures
            final(self).wf(),
            balance_in(old(self)@.balances, caller@) < value ==> r == Err::<Transfer, Error>(
                Error::InsufficientBalance,
            ) && final(self)@ == old(self)@,
            balance_in(old(self)@.balances, caller@) >= value ==> r == Ok::<Transfer, Error>(
                Transfer { from: Some(*caller), to: Some(*to), value },
            ) && final(self)@ == (TokenState {
                balances: moved(old(self)@.balances, caller@, to@, value),
                ..old(self)@
            }),
    {
        self.transfer_from_to(caller, to, value)
    }

    /// Moves `value` of `from`'s tokens to `to` on the caller's behalf, and
    /// lowers the allowance `from` gave the caller by as much.
    pub fn transfer_from(&mut self, caller: &AccountId, from: &AccountId, to: &AccountId, value: u128) -> (r:
        Result<Transfer, Error>)
        requires
            old(self).wf(),
        ensures
            final(self).wf(),
            ({
                let s = old(self)@;
                let allowed = balance_in(s.allowances, allowance_key(from@, caller@));
                if allowed < value {
                    r == Err::<Transfer, Error>(Error::InsufficientAllowance) && final(self)@ == s
                } else if balance_in(s.balances, from@) < value {
                    r == Err::<Transfer, Error>(Error::InsufficientBalance) && final(self)@ == s
                } else {
                    r == Ok::<Transfer, Error>(Transfer { from: Some(*from), to: Some(*to), value })
                        && final(self)@ == (TokenState {
                        total_supply: s.total_supply,
                        balances: moved(s.balances, from@, to@, value),
                        allowances: s.allowances.insert(
                            allowance_key(from@, caller@),
                            (allowed - value) as u128,
                        ),
                    })
                }
            }),
    {
        let key = pair_key(from, caller);
        let allowance = self.allowances.get(&key);
        if allowance < value {
            return Err(Error::InsufficientAllowance);
        }
        let event = match self.transfer_from_to(from, to, value) {
            Err(e) => return Err(e),
            Ok(ev) => ev,
        };
        self.allowances.set(&key, allowance - value);
        Ok(event)
    }

    /// Lets `spender` move up to `value` of the caller's tokens.
    pub fn approve(&mut self, caller: &AccountId, spender: &AccountId, value: u128) -> (r: Result<
        Approval,
        Error,
    >)
        requires
            old(self).wf(),
        ensures
            final(self).wf(),
            r == Ok::<Approval, Error>(Approval { owner: *caller, spender: *spender, value }),
            final(self)@ == (TokenState {
                allowances: old(self)@.allowances.insert(allowance_key(caller@, spender@), value),
                ..old(self)@
            }),
    {
        let key = pair_key(caller, spender);
        self.allowances.set(&key, value);
        Ok(Approval { owner: *caller, spender: *spender, value })
    }

    /// Creates `amount` new tokens in the caller's balance.
    pub fn mint(&mut self, caller: &AccountId, amount: u128) -> (r: Result<Mint, Error>)
        requires
            old(self).wf(),
            old(self)@.total_supply + amount <= u128::MAX,
        ensures
            final(self).wf(),
            r == Ok::<Mint, Error>(Mint { minter: *caller, amount }),
            final(self)@ == (TokenState {
                total_supply: (old(self)@.total_supply + amount) as u128,
                balances: old(self)@.balances.insert(
                    caller@,
                    (balance_in(old(self)@.balances, caller@) + amount) as u128,
                ),
                allowances: old(self)@.allowances,
            }),
    {
        let current_total_supply = self.total_supply();
        self.total_supply = current_total_supply + amount;
        let key = caller.key();
        let minter_balance = self.balances.get(&key);
        proof {
            self.balances.lemma_get_le_total(caller@);
        }
        self.balances.set(&key, minter_balance + amount);
        Ok(Mint { minter: *caller, amount })
    }

    /// Destroys `amount` of the caller's tokens.
    pub fn burn(&mut self, caller: &AccountId, amount: u128) -> (r: Result<Burn, Error>)
        requires
            old(self).wf(),
        ensures
            final(self).wf(),
            ({
                let s = old(self)@;
                if balance_in(s.balances, caller@) < amount || s.total_supply < amount {
                    r == Err::<Burn, Error>(Error::InsufficientBalance) && final(self)@ == s
                } else {
                    r is Ok && r->Ok_0.from == *caller && is_zero_account(r->Ok_0.to)
                        && r->Ok_0.amount == amount
                        && final(self)@ == (TokenState {
                        total_supply: (s.total_supply - amount) as u128,
                        balances: s.balances.insert(
                            caller@,
                            (balance_in(s.balances, caller@) - amount) as u128,
                        ),
                        allowances: s.allowances,
                    })
                }
            }),
    {
        let key = caller.key();
        let burner_balance = self.balances.get(&key);
        let current_total_supply = self.total_supply();
        if burner_balance < amount || current_total_supply < amount {
            return Err(Error::InsufficientBalance);
        }
        self.total_supply = current_total_supply - amount;
        self.balances.set(&key, burner_balance - amount);
        Ok(Burn { from: *caller, to: zero_account(), amount })
    }
}

} // verus!
