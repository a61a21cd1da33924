//! Properties of the game that span its calls.
use vstd::prelude::*;

use crate::pallet::{
    after_safe_zone_check, burn_outcome, change_swallower_name_outcome, entered_safe_zone,
    exited_safe_zone, in_safe_zone, mint_record_outcome, mint_swallower_outcome, owned,
    protected_at, sat_add, sat_sub, user_claim_reward_outcome, AccountId, AssetId, Balance,
    BlockNumber, DispatchError, Origin, PalletView, SwallowerHash,
};
use crate::pallet::{paid_in, paid_out};
use crate::types::{remove_first, TransInfo};

verus! {

/// No two stored swallowers share a name.
pub open spec fn names_distinct(s: PalletView) -> bool {
    forall|a: SwallowerHash, b: SwallowerHash|
        #![trigger s.swallowers[a], s.swallowers[b]]
        s.swallowers.dom().contains(a) && s.swallowers.dom().contains(b) && a != b
            ==> s.swallowers[a].name != s.swallowers[b].name
}

/// A swallower put in the safe zone until block `end` is protected at every
/// block up to `end`, and at none after.
pub proof fn lemma_safe_zone_entry_protects(
    s: PalletView,
    hash: SwallowerHash,
    start: BlockNumber,
    end: BlockNumber,
    bn: BlockNumber,
)
    ensures
        in_safe_zone(entered_safe_zone(s, hash, start, end), hash, bn) == (bn <= end),
{
}

/// A swallower taken out of the safe zone is protected at no block.
pub proof fn lemma_exit_unprotects(
    s: PalletView,
    hash: SwallowerHash,
    bn: BlockNumber,
    later: BlockNumber,
)
    ensures
        !in_safe_zone(exited_safe_zone(s, hash, bn), hash, later),
{
}

/// Checking a protection changes no answer: the swallower is protected after
/// the check exactly when it was before, and so is every other one.
pub proof fn lemma_check_keeps_protection(s: PalletView, hash: SwallowerHash, bn: BlockNumber)
    ensures
        in_safe_zone(after_safe_zone_check(s, hash, bn), hash, bn) == in_safe_zone(s, hash, bn),
        protected_at(after_safe_zone_check(s, hash, bn), bn) == protected_at(s, bn),
{
    assert(protected_at(after_safe_zone_check(s, hash, bn), bn) =~= protected_at(s, bn));
}

/// A minted swallower is the minter's newest, stored under its key with the
/// name given and the minted genes, counted with its genes, and protected
/// from the block it was minted until the first protection period is over.
pub proof fn lemma_mint_gives_protected_swallower(
    s: PalletView,
    minter: AccountId,
    name: Seq<u8>,
    asset_id: AssetId,
    price: Balance,
    dna: Seq<u8>,
    bn: BlockNumber,
    max_owned: u32,
    at: BlockNumber,
)
    requires
        mint_record_outcome(s, minter, name, asset_id, price, dna, bn, max_owned) is Ok,
        bn <= at <= sat_add(bn, s.protect_zone_config.first_mint_protect_duration as u64),
    ensures
        ({
            let s2 = mint_record_outcome(s, minter, name, asset_id, price, dna, bn, max_owned)->Ok_0;
            let h = owned(s2, minter).last();
            &&& owned(s2, minter) == owned(s, minter).push(h)
            &&& s2.swallowers.dom().contains(h)
            &&& s2.swallowers[h].name == name
            &&& s2.swallowers[h].gene == dna
            &&& s2.swallowers[h].owner == Some(minter)
            &&& s2.swallowers[h].hash == Some(h)
            &&& in_safe_zone(s2, h, at)
            &&& s2.swallower_amount == sat_add(s.swallower_amount, 1)
            &&& s2.gene_amount == sat_add(s.gene_amount, dna.len() as u64)
        }),
{
}

/// A burned swallower is no longer stored, owned once less by its owner,
/// unprotected, and no longer counted.
pub proof fn lemma_burn_removes(
    s: PalletView,
    hash: SwallowerHash,
    sender: AccountId,
    asset_id: AssetId,
    fee: Balance,
)
    requires
        burn_outcome(s, hash, sender, asset_id, fee) is Ok,
    ensures
        ({
            let s2 = burn_outcome(s, hash, sender, asset_id, fee)->Ok_0;
            &&& !s2.swallowers.dom().contains(hash)
            &&& !s2.safe_zone.dom().contains(hash)
            &&& owned(s2, sender) == remove_first(owned(s, sender), hash)
            &&& owned(s2, sender).len() + 1 == owned(s, sender).len()
            &&& s2.swallower_amount == sat_sub(s.swallower_amount, 1)
        }),
{
    crate::types::lemma_first_index_of(owned(s, sender), hash);
}

/// A swallower rewarded at block `bn` cannot be rewarded again before the
/// reward interval has passed.
pub proof fn lemma_reward_cooldown(
    s: PalletView,
    origin: Origin,
    hash: SwallowerHash,
    decimals: u8,
    bn: BlockNumber,
    decimals2: u8,
    later: BlockNumber,
)
    requires
        user_claim_reward_outcome(s, origin, hash, decimals, bn) is Ok,
        later < bn + s.swallower_config.battle_zone_reward_block,
    ensures
        user_claim_reward_outcome(
            user_claim_reward_outcome(s, origin, hash, decimals, bn)->Ok_0,
            origin,
            hash,
            decimals2,
            later,
        ) is Err,
{
}

/// Minting keeps the names of the stored swallowers distinct.
pub proof fn lemma_mint_keeps_names_distinct(
    s: PalletView,
    origin: Origin,
    name: Seq<u8>,
    decimals: u8,
    init_gene_limit: u32,
    balance: Balance,
    random: Seq<u8>,
    bn: BlockNumber,
    max_owned: u32,
)
    requires
        names_distinct(s),
        mint_swallower_outcome(
            s,
            origin,
            name,
            decimals,
            init_gene_limit,
            balance,
            random,
            bn,
            max_owned,
        ) is Ok,
    ensures
        names_distinct(
            mint_swallower_outcome(
                s,
                origin,
                name,
                decimals,
                init_gene_limit,
                balance,
                random,
                bn,
                max_owned,
            )->Ok_0,
        ),
{
    let s2 = mint_swallower_outcome(
        s,
        origin,
        name,
        decimals,
        init_gene_limit,
        balance,
        random,
        bn,
        max_owned,
    )->Ok_0;
    assert forall|a: SwallowerHash, b: SwallowerHash|
        s2.swallowers.dom().contains(a) && s2.swallowers.dom().contains(b) && a != b implies #[trigger] s2.swallowers[a].name
        != #[trigger] s2.swallowers[b].name by {
        if s2.swallowers[a].name == name && s.swallowers.dom().contains(a) && s2.swallowers[a]
            == s.swallowers[a] {
            assert(s.swallowers.dom().contains(a) && s.swallowers[a].name == name);
        }
        if s2.swallowers[b].name == name && s.swallowers.dom().contains(b) && s2.swallowers[b]
            == s.swallowers[b] {
            assert(s.swallowers.dom().contains(b) && s.swallowers[b].name == name);
        }
    }
}

/// Renaming keeps the names of the stored swallowers distinct.
pub proof fn lemma_rename_keeps_names_distinct(
    s: PalletView,
    origin: Origin,
    hash: SwallowerHash,
    name: Seq<u8>,
    decimals: u8,
    balance: Balance,
)
    requires
        names_distinct(s),
        change_swallower_name_outcome(s, origin, hash, name, decimals, balance) is Ok,
    ensures
        names_distinct(
            change_swallower_name_outcome(s, origin, hash, name, decimals, balance)->Ok_0,
        ),
{
    let s2 = change_swallower_name_outcome(s, origin, hash, name, decimals, balance)->Ok_0;
    assert forall|a: SwallowerHash, b: SwallowerHash|
        s2.swallowers.dom().contains(a) && s2.swallowers.dom().contains(b) && a != b implies #[trigger] s2.swallowers[a].name
        != #[trigger] s2.swallowers[b].name by {
        if a != hash {
            assert(s.swallowers.dom().contains(a));
        }
        if b != hash {
            assert(s.swallowers.dom().contains(b));
        }
    }
}

/// A fee paid in and then paid back out leaves the game's tokens as they
/// were; the log holds both transfers, the second the reverse of the first.
pub proof fn lemma_pay_in_then_back(s: PalletView, t: TransInfo)
    requires
        paid_in(s, t) is Ok,
    ensures
        paid_out(paid_in(s, t)->Ok_0, t) == Ok::<PalletView, DispatchError>(
            PalletView {
                payments: if t.fee == 0 {
                    s.payments
                } else {
                    s.payments.push((t.asset_id, t.sender, t.manager, t.fee, true)).push(
                        (t.asset_id, t.manager, t.sender, t.fee, true),
                    )
                },
                ..s
            },
        ),
{
}

} // verus!
