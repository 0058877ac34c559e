//! The pool registry and engine state.
//!
//! A pool over the unordered pair {A, B} is stored as two directed entries,
//! (A,B) and (B,A), each holding the reserve of its first coordinate. The
//! engine also keeps the pair-to-liquidity-token mapping in both directions,
//! the treasury and deferred-burn accumulators, the ledger, and the event
//! log.

use vstd::prelude::*;

use crate::ledger::{iss_view, Ledger, LedgerView};
use crate::{AccountId, Balance, Error, Event, TokenId};

verus! {

broadcast use vstd::std_specs::hash::group_hash_axioms;

/// The engine's own ledger account; all pooled reserves live here.
/// It is the 8-byte module tag `79b14c96`, prefixed by `modl` and read as a
/// little-endian account id.
pub const VAULT_ID: AccountId = 0x316239376c646f6d;

/// Packed map key for a directed token pair.
pub open spec fn pair_key_spec(a: TokenId, b: TokenId) -> u128 {
    (a * 0x100000000 + b) as u128
}

fn pair_key(a: TokenId, b: TokenId) -> (k: u128)
    ensures
        k == pair_key_spec(a, b),
{
    (a as u128) * 0x100000000 + (b as u128)
}

/// A pair-keyed map seen over directed pairs; partial, a pair is present
/// exactly when its entry is.
pub open spec fn pair_view<V>(m: Map<u128, V>) -> Map<(TokenId, TokenId), V> {
    Map::new(
        |p: (TokenId, TokenId)| m.contains_key(pair_key_spec(p.0, p.1)),
        |p: (TokenId, TokenId)| m[pair_key_spec(p.0, p.1)],
    )
}

/// A token-keyed map of pairs, total with default (0, 0).
pub open spec fn lp_view(m: Map<u128, (TokenId, TokenId)>) -> Map<TokenId, (TokenId, TokenId)> {
    Map::new(
        |t: TokenId| true,
        |t: TokenId|
            if m.contains_key(t as u128) {
                m[t as u128]
            } else {
                (0, 0)
            },
    )
}

proof fn lemma_pair_view_insert<V>(m: Map<u128, V>, a: TokenId, b: TokenId, v: V)
    ensures
        pair_view(m.insert(pair_key_spec(a, b), v)) == pair_view(m).insert((a, b), v),
{
    assert(pair_view(m.insert(pair_key_spec(a, b), v)) =~= pair_view(m).insert((a, b), v));
}

proof fn lemma_pair_view_remove<V>(m: Map<u128, V>, a: TokenId, b: TokenId)
    ensures
        pair_view(m.remove(pair_key_spec(a, b))) == pair_view(m).remove((a, b)),
{
    assert(pair_view(m.remove(pair_key_spec(a, b))) =~= pair_view(m).remove((a, b)));
}

proof fn lemma_lp_view_insert(m: Map<u128, (TokenId, TokenId)>, t: TokenId, v: (TokenId, TokenId))
    ensures
        lp_view(m.insert(t as u128, v)) == lp_view(m).insert(t, v),
{
    assert(lp_view(m.insert(t as u128, v)) =~= lp_view(m).insert(t, v));
}

proof fn lemma_iss_view_insert(m: Map<u128, Balance>, t: TokenId, v: Balance)
    ensures
        iss_view(m.insert(t as u128, v)) == iss_view(m).insert(t, v),
{
    assert(iss_view(m.insert(t as u128, v)) =~= iss_view(m).insert(t, v));
}

/// Mathematical model of the whole engine state.
#[verifier::ext_equal]
pub ghost struct XykView {
    /// Directed pool entries: (A,B) maps to the reserve of A in pool {A,B}.
    pub pools: Map<(TokenId, TokenId), Balance>,
    /// Pair (as created) to its liquidity token.
    pub liquidity_assets: Map<(TokenId, TokenId), TokenId>,
    /// Liquidity token back to its pair; total, default (0, 0).
    pub liquidity_pools: Map<TokenId, (TokenId, TokenId)>,
    /// Fee proceeds retained for the treasury; total, default 0.
    pub treasury: Map<TokenId, Balance>,
    /// Fee proceeds queued for a later native-token burn; total, default 0.
    pub treasury_burn: Map<TokenId, Balance>,
    /// The balance store.
    pub ledger: LedgerView,
    /// All events recorded so far, oldest first.
    pub events: Seq<Event>,
}

impl XykView {
    /// Whether the directed entry (a, b) exists.
    pub open spec fn has_pool(self, a: TokenId, b: TokenId) -> bool {
        self.pools.contains_key((a, b))
    }

    /// Reserve held under the directed entry (a, b); 0 when absent.
    pub open spec fn reserve(self, a: TokenId, b: TokenId) -> Balance {
        if self.pools.contains_key((a, b)) {
            self.pools[(a, b)]
        } else {
            0
        }
    }

    /// The liquidity token of the pair, looked up in either order; 0 when
    /// neither direction is recorded.
    pub open spec fn liq_token(self, a: TokenId, b: TokenId) -> TokenId {
        if self.liquidity_assets.contains_key((a, b)) {
            self.liquidity_assets[(a, b)]
        } else if self.liquidity_assets.contains_key((b, a)) {
            self.liquidity_assets[(b, a)]
        } else {
            0
        }
    }

    /// The pair a liquidity token was created for; (0, 0) when unknown.
    pub open spec fn pair_of(self, ltid: TokenId) -> (TokenId, TokenId) {
        self.liquidity_pools[ltid]
    }

    /// Treasury accumulator of `t`.
    pub open spec fn treasury_of(self, t: TokenId) -> Balance {
        self.treasury[t]
    }

    /// Deferred-burn accumulator of `t`.
    pub open spec fn treasury_burn_of(self, t: TokenId) -> Balance {
        self.treasury_burn[t]
    }

    /// Free balance of `who` in `token`.
    pub open spec fn bal(self, token: TokenId, who: AccountId) -> Balance {
        self.ledger.bal(token, who)
    }

    /// Total issuance of `token`.
    pub open spec fn iss(self, token: TokenId) -> Balance {
        self.ledger.iss(token)
    }

    /// The engine before any pool exists.
    pub open spec fn initial() -> XykView {
        XykView {
            pools: Map::empty(),
            liquidity_assets: Map::empty(),
            liquidity_pools: Map::new(|t: TokenId| true, |t: TokenId| (0, 0)),
            treasury: Map::new(|t: TokenId| true, |t: TokenId| 0),
            treasury_burn: Map::new(|t: TokenId| true, |t: TokenId| 0),
            ledger: LedgerView::initial(),
            events: Seq::empty(),
        }
    }

    /// The state invariant: every directed entry has its mirror, pairs two
    /// distinct tokens, and both reserves of a live pool are positive.
    pub open spec fn inv(self) -> bool {
        &&& forall|a: TokenId, b: TokenId|
            #[trigger] self.pools.contains_key((a, b)) ==> self.pools.contains_key((b, a))
        &&& forall|a: TokenId, b: TokenId| #[trigger] self.pools.contains_key((a, b)) ==> a != b
        &&& forall|a: TokenId, b: TokenId|
            #[trigger] self.pools.contains_key((a, b)) ==> self.pools[(a, b)] >= 1
        &&& self.ledger.wf()
    }
}

/// The engine. All mutation goes through the operations on this type.
pub struct Module {
    pools: vstd::hash_map::HashMapWithView<u128, Balance>,
    liquidity_assets: vstd::hash_map::HashMapWithView<u128, TokenId>,
    liquidity_pools: vstd::hash_map::HashMapWithView<u128, (TokenId, TokenId)>,
    treasury: vstd::hash_map::HashMapWithView<u128, Balance>,
    treasury_burn: vstd::hash_map::HashMapWithView<u128, Balance>,
    ledger: Ledger,
    events: Vec<Event>,
}

impl View for Module {
    type V = XykView;

    closed spec fn view(&self) -> XykView {
        XykView {
            pools: pair_view(self.pools@),
            liquidity_assets: pair_view(self.liquidity_assets@),
            liquidity_pools: lp_view(self.liquidity_pools@),
            treasury: iss_view(self.treasury@),
            treasury_burn: iss_view(self.treasury_burn@),
            ledger: self.ledger@,
            events: self.events@,
        }
    }
}

impl Module {
    /// A fresh engine over an empty ledger.
    pub fn new() -> (r: Module)
        ensures
            r@ == XykView::initial(),
            r@.inv(),
    {
        let r = Module {
            pools: vstd::hash_map::HashMapWithView::new(),
            liquidity_assets: vstd::hash_map::HashMapWithView::new(),
            liquidity_pools: vstd::hash_map::HashMapWithView::new(),
            treasury: vstd::hash_map::HashMapWithView::new(),
            treasury_burn: vstd::hash_map::HashMapWithView::new(),
            ledger: Ledger::new(),
            events: Vec::new(),
        };
        proof {
            assert(r@ =~~= XykView::initial());
        }
        r
    }

    /// The engine's vault account.
    pub fn account_id() -> (r: AccountId)
        ensures
            r == VAULT_ID,
    {
        VAULT_ID
    }

    /// Create a fresh token on the ledger, issuing `amount` to `who`.
    /// Stands for the external token registrar; pools trade tokens made here.
    pub fn create_token(&mut self, who: AccountId, amount: Balance) -> (id: TokenId)
        requires
            old(self)@.ledger.next_id < u32::MAX,
        ensures
            id == old(self)@.ledger.next_id,
            final(self)@ == (XykView {
                ledger: old(self)@.ledger.with_new_token(who, amount),
                ..old(self)@
            }),
            old(self)@.inv() ==> final(self)@.inv(),
    {
        let id = self.ledger.create(who, amount);
        proof {
            assert(self@ =~~= XykView {
                ledger: old(self)@.ledger.with_new_token(who, amount),
                ..old(self)@
            });
        }
        id
    }

    /// Free balance of `who` in `token`.
    pub fn free_balance(&self, token: TokenId, who: AccountId) -> (r: Balance)
        ensures
            r == self@.bal(token, who),
    {
        self.ledger.free_balance(token, who)
    }

    /// Total issuance of `token`.
    pub fn total_issuance(&self, token: TokenId) -> (r: Balance)
        ensures
            r == self@.iss(token),
    {
        self.ledger.total_issuance(token)
    }

    /// Reserve held under the directed entry (a, b); 0 when absent.
    pub fn asset_pool(&self, a: TokenId, b: TokenId) -> (r: Balance)
        ensures
            r == self@.reserve(a, b),
    {
        let k = pair_key(a, b);
        match self.pools.get(&k) {
            Some(v) => *v,
            None => 0,
        }
    }

    /// Whether the directed entry (a, b) exists.
    pub fn contains_pool(&self, a: TokenId, b: TokenId) -> (r: bool)
        ensures
            r == self@.has_pool(a, b),
    {
        let k = pair_key(a, b);
        self.pools.contains_key(&k)
    }

    /// The liquidity token of the pair, looked up in either order.
    pub fn get_liquidity_asset(&self, first_asset_id: TokenId, second_asset_id: TokenId) -> (r:
        TokenId)
        ensures
            r == self@.liq_token(first_asset_id, second_asset_id),
    {
        let k = pair_key(first_asset_id, second_asset_id);
        match self.liquidity_assets.get(&k) {
            Some(v) => *v,
            None => {
                let k2 = pair_key(second_asset_id, first_asset_id);
                match self.liquidity_assets.get(&k2) {
                    Some(v) => *v,
                    None => 0,
                }
            },
        }
    }

    /// Whether the directed pair (a, b) has a liquidity token recorded.
    pub fn has_liquidity_asset(&self, a: TokenId, b: TokenId) -> (r: bool)
        ensures
            r == self@.liquidity_assets.contains_key((a, b)),
    {
        let k = pair_key(a, b);
        self.liquidity_assets.contains_key(&k)
    }

    /// The pair a liquidity token was created for; (0, 0) when unknown.
    pub fn liquidity_pool(&self, ltid: TokenId) -> (r: (TokenId, TokenId))
        ensures
            r == self@.pair_of(ltid),
    {
        match self.liquidity_pools.get(&(ltid as u128)) {
            Some(v) => *v,
            None => (0, 0),
        }
    }

    /// Treasury accumulator of `t`.
    pub fn treasury(&self, t: TokenId) -> (r: Balance)
        ensures
            r == self@.treasury_of(t),
    {
        match self.treasury.get(&(t as u128)) {
            Some(v) => *v,
            None => 0,
        }
    }

    /// Deferred-burn accumulator of `t`.
    pub fn treasury_burn(&self, t: TokenId) -> (r: Balance)
        ensures
            r == self@.treasury_burn_of(t),
    {
        match self.treasury_burn.get(&(t as u128)) {
            Some(v) => *v,
            None => 0,
        }
    }

    /// The events recorded so far, oldest first.
    pub fn events(&self) -> (r: &Vec<Event>)
        ensures
            r@ == self@.events,
    {
        &self.events
    }

    pub(crate) fn pools_insert(&mut self, a: TokenId, b: TokenId, v: Balance)
        ensures
            final(self)@ == (XykView { pools: old(self)@.pools.insert((a, b), v), ..old(self)@ }),
    {
        let k = pair_key(a, b);
        self.pools.insert(k, v);
        proof {
            lemma_pair_view_insert(old(self).pools@, a, b, v);
            assert(self@ =~~= XykView {
                pools: old(self)@.pools.insert((a, b), v),
                ..old(self)@
            });
        }
    }

    pub(crate) fn pools_remove(&mut self, a: TokenId, b: TokenId)
        ensures
            final(self)@ == (XykView { pools: old(self)@.pools.remove((a, b)), ..old(self)@ }),
    {
        let k = pair_key(a, b);
        self.pools.remove(&k);
        proof {
            lemma_pair_view_remove(old(self).pools@, a, b);
            assert(self@ =~~= XykView {
                pools: old(self)@.pools.remove((a, b)),
                ..old(self)@
            });
        }
    }

    pub(crate) fn liquidity_assets_insert(&mut self, a: TokenId, b: TokenId, ltid: TokenId)
        ensures
            final(self)@ == (XykView {
                liquidity_assets: old(self)@.liquidity_assets.insert((a, b), ltid),
                ..old(self)@
            }),
    {
        let k = pair_key(a, b);
        self.liquidity_assets.insert(k, ltid);
        proof {
            lemma_pair_view_insert(old(self).liquidity_assets@, a, b, ltid);
            assert(self@ =~~= XykView {
                liquidity_assets: old(self)@.liquidity_assets.insert((a, b), ltid),
                ..old(self)@
            });
        }
    }

    pub(crate) fn liquidity_pools_insert(&mut self, ltid: TokenId, pair: (TokenId, TokenId))
        ensures
            final(self)@ == (XykView {
                liquidity_pools: old(self)@.liquidity_pools.insert(ltid, pair),
                ..old(self)@
            }),
    {
        self.liquidity_pools.insert(ltid as u128, pair);
        proof {
            lemma_lp_view_insert(old(self).liquidity_pools@, ltid, pair);
            assert(self@ =~~= XykView {
                liquidity_pools: old(self)@.liquidity_pools.insert(ltid, pair),
                ..old(self)@
            });
        }
    }

    pub(crate) fn treasury_insert(&mut self, t: TokenId, v: Balance)
        ensures
            final(self)@ == (XykView { treasury: old(self)@.treasury.insert(t, v), ..old(self)@ }),
    {
        self.treasury.insert(t as u128, v);
        proof {
            lemma_iss_view_insert(old(self).treasury@, t, v);
            assert(self@ =~~= XykView {
                treasury: old(self)@.treasury.insert(t, v),
                ..old(self)@
            });
        }
    }

    pub(crate) fn treasury_burn_insert(&mut self, t: TokenId, v: Balance)
        ensures
            final(self)@ == (XykView {
                treasury_burn: old(self)@.treasury_burn.insert(t, v),
                ..old(self)@
            }),
    {
        self.treasury_burn.insert(t as u128, v);
        proof {
            lemma_iss_view_insert(old(self).treasury_burn@, t, v);
            assert(self@ =~~= XykView {
                treasury_burn: old(self)@.treasury_burn.insert(t, v),
                ..old(self)@
            });
        }
    }

    pub(crate) fn ledger_transfer(
        &mut self,
        token: TokenId,
        from: AccountId,
        to: AccountId,
        amount: Balance,
    ) -> (r: Result<(), Error>)
        requires
            old(self)@.bal(token, from) >= amount && from != to ==> old(self)@.bal(token, to)
                + amount <= u128::MAX,
        ensures
            r == (if old(self)@.bal(token, from) < amount {
                Err::<(), Error>(Error::BalanceTooLow)
            } else {
                Ok::<(), Error>(())
            }),
            final(self)@ == (if old(self)@.bal(token, from) < amount {
                old(self)@
            } else {
                XykView {
                    ledger: old(self)@.ledger.with_transfer(token, from, to, amount),
                    ..old(self)@
                }
            }),
    {
        let r = self.ledger.transfer(token, from, to, amount);
        proof {
            if old(self)@.bal(token, from) < amount {
                assert(self@ =~~= old(self)@);
            } else {
                assert(self@ =~~= (XykView {
                    ledger: old(self)@.ledger.with_transfer(token, from, to, amount),
                    ..old(self)@
                }));
            }
        }
        r
    }

    pub(crate) fn ledger_mint(&mut self, token: TokenId, who: AccountId, amount: Balance)
        requires
            old(self)@.bal(token, who) + amount <= u128::MAX,
            old(self)@.iss(token) + amount <= u128::MAX,
        ensures
            final(self)@ == (XykView {
                ledger: old(self)@.ledger.with_mint(token, who, amount),
                ..old(self)@
            }),
    {
        self.ledger.mint(token, who, amount);
        proof {
            assert(self@ =~~= (XykView {
                ledger: old(self)@.ledger.with_mint(token, who, amount),
                ..old(self)@
            }));
        }
    }

    pub(crate) fn ledger_burn_and_settle(
        &mut self,
        token: TokenId,
        who: AccountId,
        amount: Balance,
    ) -> (r: Result<(), Error>)
        ensures
            r == (if old(self)@.bal(token, who) >= amount && old(self)@.iss(token) >= amount {
                Ok::<(), Error>(())
            } else {
                Err::<(), Error>(Error::BalanceTooLow)
            }),
            final(self)@ == (if old(self)@.bal(token, who) >= amount && old(self)@.iss(token)
                >= amount {
                XykView {
                    ledger: old(self)@.ledger.with_burn(token, who, amount),
                    ..old(self)@
                }
            } else {
                old(self)@
            }),
    {
        let r = self.ledger.burn_and_settle(token, who, amount);
        proof {
            if old(self)@.bal(token, who) >= amount && old(self)@.iss(token) >= amount {
                assert(self@ =~~= (XykView {
                    ledger: old(self)@.ledger.with_burn(token, who, amount),
                    ..old(self)@
                }));
            } else {
                assert(self@ =~~= old(self)@);
            }
        }
        r
    }

    pub(crate) fn record_event(&mut self, e: Event)
        ensures
            final(self)@ == (XykView { events: old(self)@.events.push(e), ..old(self)@ }),
    {
        self.events.push(e);
        proof {
            assert(self@ =~~= XykView { events: old(self)@.events.push(e), ..old(self)@ });
        }
    }
}

} // verus!
