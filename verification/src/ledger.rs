//! The multi-token balance store the engine moves funds through.
//!
//! The engine consumes the ledger through exactly the operations below:
//! query a free balance or a total issuance, transfer, mint, burn, and create
//! a fresh token with the next monotonically increasing id. There are no
//! balance locks and no existential deposits in this store, so a withdrawal
//! is possible exactly when the free balance covers it.

use vstd::prelude::*;

use crate::{AccountId, Balance, Error, TokenId};

verus! {

broadcast use vstd::std_specs::hash::group_hash_axioms;

/// Packed map key for a (token, account) balance entry.
pub open spec fn bal_key_spec(token: TokenId, who: AccountId) -> u128 {
    (token * 0x10000000000000000 + who) as u128
}

fn bal_key(token: TokenId, who: AccountId) -> (k: u128)
    ensures
        k == bal_key_spec(token, who),
{
    (token as u128) * 0x10000000000000000 + (who as u128)
}

/// The balances map seen over (token, account) keys, total with default 0.
pub open spec fn bal_view(m: Map<u128, Balance>) -> Map<(TokenId, AccountId), Balance> {
    Map::new(
        |k: (TokenId, AccountId)| true,
        |k: (TokenId, AccountId)|
            if m.contains_key(bal_key_spec(k.0, k.1)) {
                m[bal_key_spec(k.0, k.1)]
            } else {
                0
            },
    )
}

/// The issuance map seen over token ids, total with default 0.
pub open spec fn iss_view(m: Map<u128, Balance>) -> Map<TokenId, Balance> {
    Map::new(
        |t: TokenId| true,
        |t: TokenId|
            if m.contains_key(t as u128) {
                m[t as u128]
            } else {
                0
            },
    )
}

proof fn lemma_bal_key_injective(t1: TokenId, w1: AccountId, t2: TokenId, w2: AccountId)
    ensures
        bal_key_spec(t1, w1) == bal_key_spec(t2, w2) ==> t1 == t2 && w1 == w2,
{
}

proof fn lemma_bal_view_insert(m: Map<u128, Balance>, t: TokenId, who: AccountId, v: Balance)
    ensures
        bal_view(m.insert(bal_key_spec(t, who), v)) == bal_view(m).insert((t, who), v),
{
    assert forall|t2: TokenId, w2: AccountId|
        bal_key_spec(t2, w2) == bal_key_spec(t, who) implies t2 == t && w2 == who by {
        lemma_bal_key_injective(t2, w2, t, who);
    }
    assert(bal_view(m.insert(bal_key_spec(t, who), v)) =~= bal_view(m).insert((t, who), v));
}

proof fn lemma_iss_view_insert(m: Map<u128, Balance>, t: TokenId, v: Balance)
    ensures
        iss_view(m.insert(t as u128, v)) == iss_view(m).insert(t, v),
{
    assert(iss_view(m.insert(t as u128, v)) =~= iss_view(m).insert(t, v));
}

/// Mathematical model of the ledger: total maps from token (and account) to
/// amounts, plus the next unassigned token id.
#[verifier::ext_equal]
pub ghost struct LedgerView {
    pub balances: Map<(TokenId, AccountId), Balance>,
    pub issuance: Map<TokenId, Balance>,
    pub next_id: TokenId,
}

impl LedgerView {
    /// Free balance of `who` in `token`.
    pub open spec fn bal(self, token: TokenId, who: AccountId) -> Balance {
        self.balances[(token, who)]
    }

    /// Total issuance of `token`.
    pub open spec fn iss(self, token: TokenId) -> Balance {
        self.issuance[token]
    }

    /// Both maps are total: every token and account has an entry (0 by
    /// default). Every `Ledger` view has this shape.
    pub open spec fn wf(self) -> bool {
        &&& forall|token: TokenId, who: AccountId|
            #[trigger] self.balances.contains_key((token, who))
        &&& forall|token: TokenId| #[trigger] self.issuance.contains_key(token)
    }

    /// The empty store: no balances, no issuance, ids start at 0.
    pub open spec fn initial() -> LedgerView {
        LedgerView {
            balances: Map::new(|k: (TokenId, AccountId)| true, |k: (TokenId, AccountId)| 0),
            issuance: Map::new(|t: TokenId| true, |t: TokenId| 0),
            next_id: 0,
        }
    }

    /// State after moving `amount` of `token` from `from` to `to`.
    pub open spec fn with_transfer(
        self,
        token: TokenId,
        from: AccountId,
        to: AccountId,
        amount: Balance,
    ) -> LedgerView
        recommends
            self.bal(token, from) >= amount,
            from != to ==> self.bal(token, to) + amount <= u128::MAX,
    {
        if from == to {
            self
        } else {
            LedgerView {
                balances: self.balances.insert(
                    (token, from),
                    (self.bal(token, from) - amount) as u128,
                ).insert((token, to), (self.bal(token, to) + amount) as u128),
                ..self
            }
        }
    }

    /// State after minting `amount` of `token` to `who`.
    pub open spec fn with_mint(self, token: TokenId, who: AccountId, amount: Balance) -> LedgerView
        recommends
            self.bal(token, who) + amount <= u128::MAX,
            self.iss(token) + amount <= u128::MAX,
    {
        LedgerView {
            balances: self.balances.insert((token, who), (self.bal(token, who) + amount) as u128),
            issuance: self.issuance.insert(token, (self.iss(token) + amount) as u128),
            ..self
        }
    }

    /// State after burning `amount` of `token` held by `who`.
    pub open spec fn with_burn(self, token: TokenId, who: AccountId, amount: Balance) -> LedgerView
        recommends
            self.bal(token, who) >= amount,
            self.iss(token) >= amount,
    {
        LedgerView {
            balances: self.balances.insert((token, who), (self.bal(token, who) - amount) as u128),
            issuance: self.issuance.insert(token, (self.iss(token) - amount) as u128),
            ..self
        }
    }

    /// State after creating a fresh token with initial holder `who`.
    pub open spec fn with_new_token(self, who: AccountId, amount: Balance) -> LedgerView
        recommends
            self.next_id < u32::MAX,
    {
        LedgerView {
            balances: self.balances.insert((self.next_id, who), amount),
            issuance: self.issuance.insert(self.next_id, amount),
            next_id: (self.next_id + 1) as u32,
        }
    }
}

/// The balance store itself. Balances are keyed by a packed
/// (token, account) pair; issuance by the token id.
pub struct Ledger {
    balances: vstd::hash_map::HashMapWithView<u128, Balance>,
    issuance: vstd::hash_map::HashMapWithView<u128, Balance>,
    next_id: TokenId,
}

impl View for Ledger {
    type V = LedgerView;

    closed spec fn view(&self) -> LedgerView {
        LedgerView {
            balances: bal_view(self.balances@),
            issuance: iss_view(self.issuance@),
            next_id: self.next_id,
        }
    }
}

impl Ledger {
    /// An empty store.
    pub fn new() -> (r: Ledger)
        ensures
            r@ == LedgerView::initial(),
    {
        let r = Ledger {
            balances: vstd::hash_map::HashMapWithView::new(),
            issuance: vstd::hash_map::HashMapWithView::new(),
            next_id: 0,
        };
        proof {
            assert(r@ =~= LedgerView::initial());
        }
        r
    }

    /// Free balance of `who` in `token`.
    pub fn free_balance(&self, token: TokenId, who: AccountId) -> (r: Balance)
        ensures
            r == self@.bal(token, who),
    {
        let k = bal_key(token, who);
        match self.balances.get(&k) {
            Some(v) => *v,
            None => 0,
        }
    }

    /// Total issuance of `token`.
    pub fn total_issuance(&self, token: TokenId) -> (r: Balance)
        ensures
            r == self@.iss(token),
    {
        match self.issuance.get(&(token as u128)) {
            Some(v) => *v,
            None => 0,
        }
    }

    /// The id the next created token will get.
    pub fn next_token_id(&self) -> (r: TokenId)
        ensures
            r == self@.next_id,
    {
        self.next_id
    }

    /// Whether `amount` of `token` could be slashed from `who`.
    pub fn can_slash(&self, token: TokenId, who: AccountId, amount: Balance) -> (r: bool)
        ensures
            r == (self@.bal(token, who) >= amount),
    {
        self.free_balance(token, who) >= amount
    }

    fn set_balance(&mut self, token: TokenId, who: AccountId, v: Balance)
        ensures
            final(self)@ == (LedgerView {
                balances: old(self)@.balances.insert((token, who), v),
                ..old(self)@
            }),
    {
        let k = bal_key(token, who);
        self.balances.insert(k, v);
        proof {
            lemma_bal_view_insert(old(self).balances@, token, who, v);
            assert(final(self)@ =~= LedgerView {
                balances: old(self)@.balances.insert((token, who), v),
                ..old(self)@
            });
        }
    }

    fn set_issuance(&mut self, token: TokenId, v: Balance)
        ensures
            final(self)@ == (LedgerView {
                issuance: old(self)@.issuance.insert(token, v),
                ..old(self)@
            }),
    {
        self.issuance.insert(token as u128, v);
        proof {
            lemma_iss_view_insert(old(self).issuance@, token, v);
            assert(final(self)@ =~= LedgerView {
                issuance: old(self)@.issuance.insert(token, v),
                ..old(self)@
            });
        }
    }

    /// Move `amount` of `token` from `from` to `to`; refused when the free
    /// balance does not cover it. The precondition is the machine limit on
    /// the receiving balance.
    pub fn transfer(
        &mut self,
        token: TokenId,
        from: AccountId,
        to: AccountId,
        amount: Balance,
    ) -> (r: Result<(), Error>)
        requires
            old(self)@.bal(token, from) >= amount && from != to ==> old(self)@.bal(token, to)
                + amount <= u128::MAX,
        ensures
            r == (if old(self)@.bal(token, from) < amount {
                Err::<(), Error>(Error::BalanceTooLow)
            } else {
                Ok::<(), Error>(())
            }),
            final(self)@ == (if old(self)@.bal(token, from) < amount {
                old(self)@
            } else {
                old(self)@.with_transfer(token, from, to, amount)
            }),
    {
        let from_balance = self.free_balance(token, from);
        if from_balance < amount {
            return Err(Error::BalanceTooLow);
        }
        if from == to {
            return Ok(());
        }
        let to_balance = self.free_balance(token, to);
        self.set_balance(token, from, from_balance - amount);
        self.set_balance(token, to, to_balance + amount);
        proof {
            assert(self@ =~= old(self)@.with_transfer(token, from, to, amount));
        }
        Ok(())
    }

    /// Mint `amount` of `token` to `who`. The preconditions are the machine
    /// limits on the enlarged balance and issuance.
    pub fn mint(&mut self, token: TokenId, who: AccountId, amount: Balance)
        requires
            old(self)@.bal(token, who) + amount <= u128::MAX,
            old(self)@.iss(token) + amount <= u128::MAX,
        ensures
            final(self)@ == old(self)@.with_mint(token, who, amount),
    {
        let b = self.free_balance(token, who);
        let i = self.total_issuance(token);
        self.set_balance(token, who, b + amount);
        self.set_issuance(token, i + amount);
        proof {
            assert(self@ =~= old(self)@.with_mint(token, who, amount));
        }
    }

    /// Burn `amount` of `token` held by `who`, shrinking the total issuance;
    /// refused when the balance or the issuance does not cover it.
    pub fn burn_and_settle(&mut self, token: TokenId, who: AccountId, amount: Balance) -> (r:
        Result<(), Error>)
        ensures
            r == (if old(self)@.bal(token, who) >= amount && old(self)@.iss(token) >= amount {
                Ok::<(), Error>(())
            } else {
                Err::<(), Error>(Error::BalanceTooLow)
            }),
            final(self)@ == (if old(self)@.bal(token, who) >= amount && old(self)@.iss(token) >= amount {
                old(self)@.with_burn(token, who, amount)
            } else {
                old(self)@
            }),
    {
        let b = self.free_balance(token, who);
        let i = self.total_issuance(token);
        if b < amount || i < amount {
            return Err(Error::BalanceTooLow);
        }
        self.set_balance(token, who, b - amount);
        self.set_issuance(token, i - amount);
        proof {
            assert(self@ =~= old(self)@.with_burn(token, who, amount));
        }
        Ok(())
    }

    /// Create a fresh token with the next id, issuing `amount` to `who`.
    pub fn create(&mut self, who: AccountId, amount: Balance) -> (id: TokenId)
        requires
            old(self)@.next_id < u32::MAX,
        ensures
            id == old(self)@.next_id,
            final(self)@ == old(self)@.with_new_token(who, amount),
    {
        let id = self.next_id;
        self.set_balance(id, who, amount);
        self.set_issuance(id, amount);
        self.next_id = id + 1;
        proof {
            assert(self@ =~= old(self)@.with_new_token(who, amount));
        }
        id
    }
}

} // verus!
