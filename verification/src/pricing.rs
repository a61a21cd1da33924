//! What the game's prices are, in terms of the tokens it holds and the genes
//! alive: once both are nonzero the gene price is the one by the other, and
//! every price and payment scales with it and with the swallower's current
//! genes.
use vstd::prelude::*;

use crate::pallet::{
    gene_price_of, mint_price_of, pow10, protection_fee_of, refund_of, reward_fee_of, PalletView, SwallowerHash,
};

verus! {

/// `x`, or `u64::MAX` where `x` is larger.
pub open spec fn capped(x: int) -> int {
    if x > u64::MAX {
        u64::MAX as int
    } else {
        x
    }
}

/// The game holds tokens and genes and has its asset: a gene costs the
/// tokens over the genes.
pub open spec fn priced(s: PalletView) -> bool {
    s.asset_id is Some && s.gene_amount != 0 && s.asset_amount != 0
}

/// The price of a gene: with the asset chosen, the tokens the game holds
/// over the genes alive once both are nonzero, one whole token before; with
/// no asset chosen there is none.
pub proof fn lemma_gene_price(s: PalletView, decimals: u8)
    ensures
        s.asset_id is None ==> gene_price_of(s, decimals) == Err::<u64, crate::pallet::DispatchError>(
            crate::pallet::DispatchError::Module(crate::pallet::Error::NotExistAssetId),
        ),
        priced(s) ==> gene_price_of(s, decimals) == Ok::<u64, crate::pallet::DispatchError>(
            s.asset_amount / s.gene_amount,
        ),
        s.asset_id is Some && !priced(s) && pow10(decimals as nat) <= u64::MAX ==> gene_price_of(
            s,
            decimals,
        ) == Ok::<u64, crate::pallet::DispatchError>(pow10(decimals as nat) as u64),
{
}

/// A new swallower costs its initial genes at the gene price: the tokens
/// over the genes, times the initial gene count; while the game holds no
/// tokens or no genes, one whole token a gene. The price is refused only
/// where it does not fit.
pub proof fn lemma_mint_price(s: PalletView, decimals: u8, init_gene_limit: u32)
    requires
        s.asset_id is Some,
    ensures
        priced(s) ==> mint_price_of(s, decimals, init_gene_limit) == (if (s.asset_amount
            / s.gene_amount) * init_gene_limit > u64::MAX {
            Err(crate::pallet::DispatchError::Arithmetic(crate::pallet::ArithmeticError::Overflow))
        } else {
            Ok(((s.asset_amount / s.gene_amount) * init_gene_limit) as u64)
        }),
        !priced(s) && pow10(decimals as nat) <= u64::MAX && pow10(decimals as nat)
            * init_gene_limit <= u64::MAX ==> mint_price_of(
            s,
            decimals,
            init_gene_limit,
        ) == Ok::<u64, crate::pallet::DispatchError>(
            (pow10(decimals as nat) * init_gene_limit) as u64,
        ),
{
    crate::pallet::lemma_pow10_mono(0, decimals as nat);
}

/// The refund for burning a stored swallower is its current genes at the
/// gene price, less the destroy fee; the genes it was minted with play no
/// part.
pub proof fn lemma_refund(s: PalletView, hash: SwallowerHash, decimals: u8, p: u64)
    requires
        gene_price_of(s, decimals) == Ok::<u64, crate::pallet::DispatchError>(p),
        s.swallowers.dom().contains(hash),
        s.swallower_config.destroy_fee_percent <= 100,
        p * s.swallowers[hash].gene.len() <= u64::MAX,
    ensures
        refund_of(s, hash, decimals) == Ok::<u64, crate::pallet::DispatchError>(
            (capped(
                p * s.swallowers[hash].gene.len() * (100 - s.swallower_config.destroy_fee_percent),
            ) / 100) as u64,
        ),
{
}

/// Protection for `height` blocks costs the swallower's current genes at
/// the gene price, for every block, times the protection fee ratio (each
/// product stopping at `u64::MAX`).
pub proof fn lemma_protection_fee(
    s: PalletView,
    hash: SwallowerHash,
    height: u32,
    decimals: u8,
    p: u64,
)
    requires
        gene_price_of(s, decimals) == Ok::<u64, crate::pallet::DispatchError>(p),
        s.swallowers.dom().contains(hash),
        s.swallowers[hash].gene.len() <= u32::MAX,
    ensures
        protection_fee_of(s, hash, height, decimals) == Ok::<u64, crate::pallet::DispatchError>(
            (capped(
                capped(
                    capped(p * s.swallowers[hash].gene.len())
                        * height,
                ) * s.swallower_config.protect_fee_ratio,
            ) / 100) as u64,
        ),
{
}

/// The battle zone reward is the swallower's current genes at the gene
/// price times the reward ratio; the genes it was minted with play no part.
pub proof fn lemma_reward_fee(s: PalletView, hash: SwallowerHash, decimals: u8, p: u64)
    requires
        gene_price_of(s, decimals) == Ok::<u64, crate::pallet::DispatchError>(p),
        s.swallowers.dom().contains(hash),
        s.swallowers[hash].gene.len() <= u32::MAX,
        s.swallowers[hash].gene.len() * p <= u64::MAX,
        s.swallowers[hash].gene.len() * p * s.swallower_config.battle_zone_reward_ratio
            <= u64::MAX,
    ensures
        reward_fee_of(s, hash, decimals) == Ok::<u64, crate::pallet::DispatchError>(
            ((s.swallowers[hash].gene.len() * p * s.swallower_config.battle_zone_reward_ratio)
                / 100) as u64,
        ),
{
    let n = s.swallowers[hash].gene.len();
    assert(((n as u32) as u64) == n);
}

} // verus!
