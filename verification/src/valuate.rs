//! Valuing liquidity tokens in native-token units, for stake-weighting
//! consumers, and the reverse query of the deposits a share count stands for.

use vstd::prelude::*;

use crate::wide::{clip_u128, wide_add, wide_div, wide_mul, Wide};
use crate::xyk::{Module, XykView};
use crate::{Balance, Error, TokenId, MANGATA_ID};

verus! {

/// The pair of a liquidity token, oriented with the native token first;
/// refused when neither side is native. An unknown token maps to the
/// default pair (0, 0), whose first side is native.
pub open spec fn mng_pool_of(v: XykView, ltid: TokenId) -> Result<(TokenId, TokenId), Error> {
    let p = v.pair_of(ltid);
    if p.0 == MANGATA_ID {
        Ok((p.0, p.1))
    } else if p.1 == MANGATA_ID {
        Ok((p.1, p.0))
    } else {
        Err(Error::NotMangataLiquidityAsset)
    }
}

/// Native-token value of `amount` shares of `ltid`: the native reserve of
/// its pool, scaled by the share of the total issuance. Zero for a token
/// whose pool has no native side.
pub open spec fn valuation_int(v: XykView, ltid: TokenId, amount: Balance) -> int
    recommends
        mng_pool_of(v, ltid) is Ok ==> v.iss(ltid) >= 1,
{
    match mng_pool_of(v, ltid) {
        Ok(p) => v.reserve(p.0, p.1) * amount / v.iss(ltid) as int,
        Err(_) => 0,
    }
}

impl Module {
    /// The pair of a liquidity token with the native token first; fails
    /// with `NotMangataLiquidityAsset` when neither side is native.
    pub fn get_liquidity_token_mng_pool(&self, liquidity_token_id: TokenId) -> (r: Result<
        (TokenId, TokenId),
        Error,
    >)
        ensures
            r == mng_pool_of(self@, liquidity_token_id),
    {
        let p = self.liquidity_pool(liquidity_token_id);
        if p.0 == MANGATA_ID {
            Ok((p.0, p.1))
        } else if p.1 == MANGATA_ID {
            Ok((p.1, p.0))
        } else {
            Err(Error::NotMangataLiquidityAsset)
        }
    }

    /// Value `liquidity_token_amount` shares in native-token units; zero for
    /// a token without a native pool. When the pool has a native side, the
    /// valuation divides by the token's total issuance, which must then be
    /// positive.
    pub fn valuate_liquidity_token(
        &self,
        liquidity_token_id: TokenId,
        liquidity_token_amount: Balance,
    ) -> (r: Balance)
        requires
            mng_pool_of(self@, liquidity_token_id) is Ok ==> self@.iss(liquidity_token_id) >= 1,
        ensures
            r == clip_u128(valuation_int(self@, liquidity_token_id, liquidity_token_amount)),
    {
        let pool = match self.get_liquidity_token_mng_pool(liquidity_token_id) {
            Ok(p) => p,
            Err(_) => {
                return 0;
            },
        };
        let mng_token_reserve = self.asset_pool(pool.0, pool.1);
        let liquidity_token_reserve = self.total_issuance(liquidity_token_id);
        proof {
            vstd::arithmetic::mul::lemma_mul_upper_bound(
                mng_token_reserve as int,
                u128::MAX as int,
                liquidity_token_amount as int,
                u128::MAX as int,
            );
        }
        wide_div(
            wide_mul(Wide::from_u128(mng_token_reserve), Wide::from_u128(liquidity_token_amount)),
            Wide::from_u128(liquidity_token_reserve),
        ).to_u128_saturating()
    }

    /// Scale a share amount by the ratio of a native amount to a native
    /// valuation; zero when the valuation is zero.
    pub fn scale_liquidity_by_mng_valuation(
        mng_valuation: Balance,
        liquidity_token_amount: Balance,
        mng_token_amount: Balance,
    ) -> (r: Balance)
        ensures
            r == (if mng_valuation == 0 {
                0u128
            } else {
                clip_u128(liquidity_token_amount * mng_token_amount / mng_valuation as int)
            }),
    {
        if mng_valuation == 0 {
            return 0;
        }
        proof {
            vstd::arithmetic::mul::lemma_mul_upper_bound(
                liquidity_token_amount as int,
                u128::MAX as int,
                mng_token_amount as int,
                u128::MAX as int,
            );
        }
        wide_div(
            wide_mul(Wide::from_u128(liquidity_token_amount), Wide::from_u128(mng_token_amount)),
            Wide::from_u128(mng_valuation),
        ).to_u128_saturating()
    }

    /// The deposits of both pool tokens that minting `liquidity_token_amount`
    /// shares would require, each rounded up by one; the token's total
    /// issuance must be positive, as the proportion divides by it.
    pub fn get_tokens_required_for_minting(
        &self,
        liquidity_asset_id: TokenId,
        liquidity_token_amount: Balance,
    ) -> (r: (TokenId, Balance, TokenId, Balance))
        requires
            self@.iss(liquidity_asset_id) >= 1,
        ensures
            r.0 == self@.pair_of(liquidity_asset_id).0,
            r.2 == self@.pair_of(liquidity_asset_id).1,
            r.1 == clip_u128(
                self@.reserve(r.0, r.2) * liquidity_token_amount / self@.iss(liquidity_asset_id)
                    as int + 1,
            ),
            r.3 == clip_u128(
                self@.reserve(r.2, r.0) * liquidity_token_amount / self@.iss(liquidity_asset_id)
                    as int + 1,
            ),
    {
        let pair = self.liquidity_pool(liquidity_asset_id);
        let first_asset_id = pair.0;
        let second_asset_id = pair.1;
        let first_asset_reserve = self.asset_pool(first_asset_id, second_asset_id);
        let second_asset_reserve = self.asset_pool(second_asset_id, first_asset_id);
        let total_liquidity_assets = self.total_issuance(liquidity_asset_id);
        proof {
            vstd::arithmetic::mul::lemma_mul_upper_bound(
                first_asset_reserve as int,
                u128::MAX as int,
                liquidity_token_amount as int,
                u128::MAX as int,
            );
            vstd::arithmetic::mul::lemma_mul_upper_bound(
                second_asset_reserve as int,
                u128::MAX as int,
                liquidity_token_amount as int,
                u128::MAX as int,
            );
            assert((first_asset_reserve as int) * (liquidity_token_amount as int) >= 0)
                by (nonlinear_arith);
            assert((second_asset_reserve as int) * (liquidity_token_amount as int) >= 0)
                by (nonlinear_arith);
            vstd::arithmetic::div_mod::lemma_div_nonincreasing(
                (first_asset_reserve as int) * (liquidity_token_amount as int),
                total_liquidity_assets as int,
            );
            vstd::arithmetic::div_mod::lemma_div_nonincreasing(
                (second_asset_reserve as int) * (liquidity_token_amount as int),
                total_liquidity_assets as int,
            );
            vstd::arithmetic::div_mod::lemma_div_pos_is_pos(
                (first_asset_reserve as int) * (liquidity_token_amount as int),
                total_liquidity_assets as int,
            );
            vstd::arithmetic::div_mod::lemma_div_pos_is_pos(
                (second_asset_reserve as int) * (liquidity_token_amount as int),
                total_liquidity_assets as int,
            );
        }
        let first_asset_amount = wide_add(
            wide_div(
                wide_mul(
                    Wide::from_u128(first_asset_reserve),
                    Wide::from_u128(liquidity_token_amount),
                ),
                Wide::from_u128(total_liquidity_assets),
            ),
            Wide::from_u128(1),
        ).to_u128_saturating();
        let second_asset_amount = wide_add(
            wide_div(
                wide_mul(
                    Wide::from_u128(second_asset_reserve),
                    Wide::from_u128(liquidity_token_amount),
                ),
                Wide::from_u128(total_liquidity_assets),
            ),
            Wide::from_u128(1),
        ).to_u128_saturating();
        (first_asset_id, first_asset_amount, second_asset_id, second_asset_amount)
    }
}

} // verus!
