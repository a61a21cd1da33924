//! The pallet: its storage, its errors and events, what it asks of the
//! runtime, and its calls.
use vstd::prelude::*;

use crate::battle::{
    challenger_losses, facer_losses, feasible, lemma_battle_feasible, lemma_gain, lemma_keep,
    lemma_lose, lemma_losses_split, lemma_tally_step, tally, tally_step, BattleTally,
};
use crate::hashing::{dna_digest, dna_of, hash_of_swallower, swallower_digest};
use crate::table::{Duplicate, Table, TableKey};
use crate::types::{
    default_fee_config, default_protect_config, first_index_of, lemma_first_index_at, lemma_first_index_of, BattleZoneReward, FeeConfig,
    ProtectConfig, ProtectState, Swallower, SwallowerView, TransInfo, added, subtracted, copy_bytes,
    remove_first, Winner, battle_part, duels,
};

verus! {

/// Accounts are numbered.
pub type AccountId = u64;

/// Blocks are numbered.
pub type BlockNumber = u64;

/// Amounts of the game's asset.
pub type Balance = u64;

/// The asset the game is paid in.
pub type AssetId = u32;

/// The key of a swallower.
pub type SwallowerHash = [u8; 32];

/// A swallower as the pallet stores it.
pub type SwallowerStruct = Swallower<AccountId, SwallowerHash>;

/// A transfer of the game's asset: the asset, the payer, the payee, the
/// amount, and whether the payer's account must be kept alive.
pub type Payment = (AssetId, AccountId, AccountId, Balance, bool);

/// Who calls.
#[derive(Clone, Copy, PartialEq, Eq, Structural, Debug)]
pub enum Origin {
    Root,
    Signed(AccountId),
    /// An unsigned call.
    Unsigned,
}

#[derive(Clone, Copy, PartialEq, Eq, Structural, Debug)]
pub enum ArithmeticError {
    Overflow,
    DivisionByZero,
}

/// The errors of the pallet.
#[derive(Clone, Copy, PartialEq, Eq, Structural, Debug)]
pub enum Error {
    NotAdmin,
    NotExistAdmin,
    NotExistAssetId,
    /// The payer's balance does not cover the fee.
    NotEnoughMoney,
    ExceedMaxSwallowerOwned,
    NameRepeated,
    NotOwner,
    SwallowerNotExist,
    SwallowerInSafeZone,
    SwallowerNotInSafeZone,
    /// A swallower cannot be challenged by its own owner.
    WithSelf,
    HashNotFound,
    OverMaxHeight,
    /// Too few swallowers stay in the battle zone for a reward.
    RewardRatioLessThanAmount,
    /// The swallower was rewarded too recently.
    RewardTooClose,
}

/// Why a call failed.
#[derive(Clone, Copy, PartialEq, Eq, Structural, Debug)]
pub enum DispatchError {
    BadOrigin,
    Module(Error),
    Arithmetic(ArithmeticError),
    /// An error of the runtime's assets, by the code the runtime gives it.
    Assets(u32),
}

/// The events of the pallet.
#[derive(Clone, Debug, PartialEq, Eq)]
pub enum Event {
    SetAdmin(AccountId),
    SetAssetId(AssetId),
    Mint(AccountId, Vec<u8>, AssetId, Balance, SwallowerHash),
    Burn(AccountId, AssetId, Balance, SwallowerHash),
    ChangeName(AccountId, Vec<u8>, AssetId, Balance, SwallowerHash),
    EntreSafeZone(SwallowerHash, BlockNumber, BlockNumber),
    ExitZone(SwallowerHash, BlockNumber),
    /// Whether the challenger won, the genes the challenger won, the genes
    /// the facer won, and the pairs of genes lost in a draw.
    BattleResult(bool, Vec<u8>, Vec<u8>, Vec<(u8, u8)>),
    BattleZoneReward(SwallowerHash, BlockNumber, Balance),
}

/// The mathematical value of an event.
pub enum EventView {
    SetAdmin(AccountId),
    SetAssetId(AssetId),
    Mint(AccountId, Seq<u8>, AssetId, Balance, SwallowerHash),
    Burn(AccountId, AssetId, Balance, SwallowerHash),
    ChangeName(AccountId, Seq<u8>, AssetId, Balance, SwallowerHash),
    EntreSafeZone(SwallowerHash, BlockNumber, BlockNumber),
    ExitZone(SwallowerHash, BlockNumber),
    BattleResult(bool, Seq<u8>, Seq<u8>, Seq<(u8, u8)>),
    BattleZoneReward(SwallowerHash, BlockNumber, Balance),
}

impl View for Event {
    type V = EventView;

    open spec fn view(&self) -> EventView {
        match self {
            Event::SetAdmin(a) => EventView::SetAdmin(*a),
            Event::SetAssetId(a) => EventView::SetAssetId(*a),
            Event::Mint(a, n, i, b, h) => EventView::Mint(*a, n@, *i, *b, *h),
            Event::Burn(a, i, b, h) => EventView::Burn(*a, *i, *b, *h),
            Event::ChangeName(a, n, i, b, h) => EventView::ChangeName(*a, n@, *i, *b, *h),
            Event::EntreSafeZone(h, s, e) => EventView::EntreSafeZone(*h, *s, *e),
            Event::ExitZone(h, b) => EventView::ExitZone(*h, *b),
            Event::BattleResult(w, c, f, n) => EventView::BattleResult(*w, c@, f@, n@),
            Event::BattleZoneReward(h, b, f) => EventView::BattleZoneReward(*h, *b, *f),
        }
    }
}

/// What the pallet asks of the runtime it runs in: the block, randomness,
/// the assets it is paid in, and its two limits.
pub trait Config {
    /// The current block.
    fn block_number(&self) -> BlockNumber;

    /// Randomness for `subject`.
    fn random(&self, subject: &[u8]) -> [u8; 32];

    /// The balance of `who` in the asset.
    fn balance(&self, asset_id: AssetId, who: AccountId) -> Balance;

    /// The decimals of the asset.
    fn decimals(&self, asset_id: AssetId) -> u8;

    /// Moves `amount` of the asset from `source` to `dest`.
    fn transfer(
        &mut self,
        asset_id: AssetId,
        source: AccountId,
        dest: AccountId,
        amount: Balance,
        keep_alive: bool,
    ) -> Result<(), DispatchError>;

    /// The number of initial genes a swallower is priced at.
    fn init_gene_limit(&self) -> u32;

    /// The most swallowers one account may own.
    fn max_swallower_owen(&self) -> u32;
}

/// The storage of the pallet.
pub struct Pallet {
    gene_amount: u64,
    swallower_amount: u64,
    swallower_no: u64,
    asset_amount: Balance,
    swallower_config: FeeConfig,
    protect_zone_config: ProtectConfig,
    asset_id: Option<AssetId>,
    admin: Option<AccountId>,
    manager: AccountId,
    owner_swallower: Table<AccountId, Vec<SwallowerHash>>,
    swallowers: Table<SwallowerHash, SwallowerStruct>,
    safe_zone: Table<SwallowerHash, ProtectState<BlockNumber>>,
    battle_zone_reward_map: Table<SwallowerHash, BattleZoneReward<BlockNumber, Balance>>,
    events: Vec<Event>,
    payments: Ghost<Seq<Payment>>,
}

/// The mathematical value of the storage.
#[verifier::ext_equal]
pub struct PalletView {
    /// The genes of all swallowers.
    pub gene_amount: u64,
    /// The swallowers alive.
    pub swallower_amount: u64,
    /// The number of the last swallower minted.
    pub swallower_no: u64,
    /// The tokens the game holds, kept by the manager.
    pub asset_amount: Balance,
    pub swallower_config: FeeConfig,
    pub protect_zone_config: ProtectConfig,
    pub asset_id: Option<AssetId>,
    pub admin: Option<AccountId>,
    pub manager: AccountId,
    /// The swallowers each account owns, in the order minted.
    pub owner_swallower: Map<AccountId, Seq<SwallowerHash>>,
    pub swallowers: Map<SwallowerHash, SwallowerView<AccountId, SwallowerHash>>,
    /// The swallowers in the safe zone.
    pub safe_zone: Map<SwallowerHash, ProtectState<BlockNumber>>,
    /// The last battle zone reward of each swallower.
    pub battle_zone_reward_map: Map<SwallowerHash, BattleZoneReward<BlockNumber, Balance>>,
    /// The events deposited, oldest first.
    pub events: Seq<EventView>,
    /// The transfers the game had the runtime make, oldest first.
    pub payments: Seq<Payment>,
}

impl View for Pallet {
    type V = PalletView;

    closed spec fn view(&self) -> PalletView {
        PalletView {
            gene_amount: self.gene_amount,
            swallower_amount: self.swallower_amount,
            swallower_no: self.swallower_no,
            asset_amount: self.asset_amount,
            swallower_config: self.swallower_config,
            protect_zone_config: self.protect_zone_config,
            asset_id: self.asset_id,
            admin: self.admin,
            manager: self.manager,
            owner_swallower: self.owner_swallower@,
            swallowers: self.swallowers@,
            safe_zone: self.safe_zone@,
            battle_zone_reward_map: self.battle_zone_reward_map@,
            events: self.events@.map_values(|e: Event| e@),
            payments: self.payments@,
        }
    }
}

// ---------------------------------------------------------------------------
// The model: what the storage holds, and how each call changes it.
// ---------------------------------------------------------------------------
/// Every stored swallower has an owner and at least one gene.
pub open spec fn stored_swallowers_valid(s: PalletView) -> bool {
    forall|h: SwallowerHash| #[trigger]
        s.swallowers.dom().contains(h) ==> s.swallowers[h].owner.is_some()
            && s.swallowers[h].gene.len() > 0
}

/// The swallowers `who` owns.
pub open spec fn owned(s: PalletView, who: AccountId) -> Seq<SwallowerHash> {
    if s.owner_swallower.dom().contains(who) {
        s.owner_swallower[who]
    } else {
        Seq::empty()
    }
}

/// Some stored swallower is named `name`.
pub open spec fn name_exists(s: PalletView, name: Seq<u8>) -> bool {
    exists|h: SwallowerHash| #[trigger]
        s.swallowers.dom().contains(h) && s.swallowers[h].name == name
}

/// The swallower is protected at block `bn`.
pub open spec fn in_safe_zone(s: PalletView, hash: SwallowerHash, bn: BlockNumber) -> bool {
    s.safe_zone.dom().contains(hash) && s.safe_zone[hash].end_block >= bn
}

/// The storage after checking the protection of `hash` at block `bn`: an
/// expired protection is taken away.
pub open spec fn after_safe_zone_check(
    s: PalletView,
    hash: SwallowerHash,
    bn: BlockNumber,
) -> PalletView {
    if s.safe_zone.dom().contains(hash) && s.safe_zone[hash].end_block < bn {
        PalletView { safe_zone: s.safe_zone.remove(hash), ..s }
    } else {
        s
    }
}

/// The swallowers protected at block `bn`.
pub open spec fn protected_at(s: PalletView, bn: BlockNumber) -> Set<SwallowerHash> {
    s.safe_zone.dom().filter(|h: SwallowerHash| s.safe_zone[h].end_block >= bn)
}

/// The storage with `e` deposited last.
pub open spec fn with_event(s: PalletView, e: EventView) -> PalletView {
    PalletView { events: s.events.push(e), ..s }
}

/// Addition that stops at `u64::MAX`.
pub open spec fn sat_add(a: u64, b: u64) -> u64 {
    if a + b > u64::MAX {
        u64::MAX
    } else {
        (a + b) as u64
    }
}

/// Subtraction that stops at zero.
pub open spec fn sat_sub(a: u64, b: u64) -> u64 {
    if a < b {
        0
    } else {
        (a - b) as u64
    }
}

/// Multiplication that stops at `u64::MAX`.
pub open spec fn sat_mul(a: u64, b: u64) -> u64 {
    if a * b > u64::MAX {
        u64::MAX
    } else {
        (a * b) as u64
    }
}

/// `10` to the power `d`.
pub open spec fn pow10(d: nat) -> int
    decreases d,
{
    if d == 0 {
        1
    } else {
        10 * pow10((d - 1) as nat)
    }
}

/// The price of one gene: the tokens the game holds over the genes alive,
/// or one whole token while either is zero.
pub open spec fn gene_price_of(s: PalletView, decimals: u8) -> Result<Balance, DispatchError> {
    if s.asset_id.is_none() {
        Err(DispatchError::Module(Error::NotExistAssetId))
    } else if s.gene_amount != 0 && s.asset_amount != 0 {
        Ok((s.asset_amount / s.gene_amount) as u64)
    } else if pow10(decimals as nat) <= u64::MAX {
        Ok(pow10(decimals as nat) as u64)
    } else {
        Err(DispatchError::Arithmetic(ArithmeticError::Overflow))
    }
}

/// The storage after `t.fee` was paid into the game's tokens from the
/// player to the manager, the payment recorded.
pub open spec fn paid_in(s: PalletView, t: TransInfo) -> Result<PalletView, DispatchError> {
    match added(s.asset_amount, t.fee) {
        Ok(a) => Ok(
            PalletView {
                asset_amount: a,
                payments: if t.fee == 0 {
                    s.payments
                } else {
                    s.payments.push((t.asset_id, t.sender, t.manager, t.fee, true))
                },
                ..s
            },
        ),
        Err(e) => Err(e),
    }
}

/// The storage after `t.fee` was paid out of the game's tokens from the
/// manager to the player, the payment recorded.
pub open spec fn paid_out(s: PalletView, t: TransInfo) -> Result<PalletView, DispatchError> {
    match subtracted(s.asset_amount, t.fee) {
        Ok(a) => Ok(
            PalletView {
                asset_amount: a,
                payments: if t.fee == 0 {
                    s.payments
                } else {
                    s.payments.push((t.asset_id, t.manager, t.sender, t.fee, true))
                },
                ..s
            },
        ),
        Err(e) => Err(e),
    }
}

/// The result of a call that pays, and the storage after it, agree with
/// `outcome`: an error the game decides comes exactly as the outcome says
/// and changes nothing; where the outcome succeeds, the call succeeds with
/// it, or, where the outcome makes a transfer, the runtime refuses it with
/// an error that is not the game's, and nothing changes.
pub open spec fn settles(
    r: Result<(), DispatchError>,
    before: PalletView,
    after: PalletView,
    outcome: Result<PalletView, DispatchError>,
) -> bool {
    match outcome {
        Err(e) => r == Err::<(), DispatchError>(e) && after == before,
        Ok(s1) => (r is Ok && after == s1) || (r matches Err(e) && !(e is Module) && after
            == before && s1.payments != before.payments),
    }
}

/// The call's result and the storage after it agree with `outcome`: on
/// success the storage is the outcome's, on failure it is unchanged.
pub open spec fn follows(
    r: Result<(), DispatchError>,
    before: PalletView,
    after: PalletView,
    outcome: Result<PalletView, DispatchError>,
) -> bool {
    match r {
        Ok(_) => outcome == Ok::<PalletView, DispatchError>(after),
        Err(e) => outcome == Err::<PalletView, DispatchError>(e) && after == before,
    }
}

// ---------------------------------------------------------------------------
// Helpers on plain values.
// ---------------------------------------------------------------------------
/// The two byte strings are equal.
pub fn bytes_eq(a: &Vec<u8>, b: &Vec<u8>) -> (r: bool)
    ensures
        r == (a@ == b@),
{
    if a.len() != b.len() {
        return false;
    }
    let mut i: usize = 0;
    while i < a.len()
        invariant
            a@.len() == b@.len(),
            0 <= i <= a@.len(),
            forall|j: int| 0 <= j < i ==> a@[j] == b@[j],
        decreases a@.len() - i,
    {
        if a[i] != b[i] {
            return false;
        }
        i = i + 1;
    }
    assert(a@ =~= b@);
    true
}

/// The position of the first `h` in `v`, or its length if there is none.
pub fn hash_position(v: &Vec<SwallowerHash>, h: &SwallowerHash) -> (r: usize)
    ensures
        r as int == first_index_of(v@, *h),
{
    let mut i: usize = 0;
    while i < v.len()
        invariant
            0 <= i <= v@.len(),
            forall|j: int| 0 <= j < i ==> v@[j] != *h,
        decreases v@.len() - i,
    {
        if v[i].same(h) {
            proof {
                lemma_first_index_at(v@, *h, i as int);
            }
            return i;
        }
        i = i + 1;
    }
    proof {
        lemma_first_index_of(v@, *h);
        if first_index_of(v@, *h) < v@.len() {
            assert(v@[first_index_of(v@, *h)] == *h);
        }
    }
    i
}

/// `10` to the power `d`, if it fits.
pub fn checked_pow10(d: u8) -> (r: Option<u64>)
    ensures
        match r {
            Some(v) => v == pow10(d as nat),
            None => pow10(d as nat) > u64::MAX,
        },
{
    let mut acc: u64 = 1;
    let mut i: u8 = 0;
    while i < d
        invariant
            0 <= i <= d,
            acc == pow10(i as nat),
        decreases d - i,
    {
        match acc.checked_mul(10) {
            Some(v) => {
                acc = v;
            },
            None => {
                proof {
                    lemma_pow10_mono(i as nat + 1, d as nat);
                }
                return None;
            },
        }
        i = i + 1;
    }
    Some(acc)
}

/// The powers of ten grow with the exponent, from one.
pub proof fn lemma_pow10_mono(a: nat, b: nat)
    requires
        a <= b,
    ensures
        pow10(a) <= pow10(b),
        pow10(a) >= 1,
    decreases b,
{
    if b > 0 {
        if a < b {
            lemma_pow10_mono(a, (b - 1) as nat);
        }
        lemma_pow10_mono(0, (b - 1) as nat);
    }
}

/// The product of `a` and `b`, or `u64::MAX` where it does not fit.
pub fn saturating_mul(a: u64, b: u64) -> (r: u64)
    ensures
        r == sat_mul(a, b),
{
    match a.checked_mul(b) {
        Some(v) => v,
        None => u64::MAX,
    }
}

/// A copy of the bytes of a digest.
pub fn digest_to_vec(a: &[u8; 16]) -> (r: Vec<u8>)
    ensures
        r@ == a@,
{
    let mut r: Vec<u8> = Vec::new();
    let mut i: usize = 0;
    while i < 16
        invariant
            0 <= i <= 16,
            a@.len() == 16,
            r@ =~= a@.subrange(0, i as int),
        decreases 16 - i,
    {
        r.push(a[i]);
        i = i + 1;
    }
    assert(r@ =~= a@);
    r
}

/// The storage after the swallower `hash` entered the safe zone from block
/// `start` to block `end`.
pub open spec fn entered_safe_zone(
    s: PalletView,
    hash: SwallowerHash,
    start: BlockNumber,
    end: BlockNumber,
) -> PalletView {
    with_event(
        PalletView {
            safe_zone: s.safe_zone.insert(hash, ProtectState { start_block: start, end_block: end }),
            ..s
        },
        EventView::EntreSafeZone(hash, start, end),
    )
}

/// The storage after the swallower `hash` left the safe zone at block `bn`.
pub open spec fn exited_safe_zone(s: PalletView, hash: SwallowerHash, bn: BlockNumber) -> PalletView {
    with_event(
        PalletView { safe_zone: s.safe_zone.remove(hash), ..s },
        EventView::ExitZone(hash, bn),
    )
}

/// The outcome of `set_admin`: only the root may name the admin.
pub open spec fn set_admin_outcome(s: PalletView, origin: Origin, admin: AccountId) -> Result<
    PalletView,
    DispatchError,
> {
    match origin {
        Origin::Root => Ok(with_event(PalletView { admin: Some(admin), ..s }, EventView::SetAdmin(admin))),
        _ => Err(DispatchError::BadOrigin),
    }
}

/// The outcome of `set_asset_id`: only the admin may choose the asset.
pub open spec fn set_asset_id_outcome(s: PalletView, origin: Origin, asset_id: AssetId) -> Result<
    PalletView,
    DispatchError,
> {
    match origin {
        Origin::Signed(who) => match s.admin {
            None => Err(DispatchError::Module(Error::NotExistAdmin)),
            Some(admin) => if who != admin {
                Err(DispatchError::Module(Error::NotAdmin))
            } else {
                Ok(
                    with_event(
                        PalletView { asset_id: Some(asset_id), ..s },
                        EventView::SetAssetId(asset_id),
                    ),
                )
            },
        },
        _ => Err(DispatchError::BadOrigin),
    }
}

/// The swallower minted as number `no` from `dna`, before it has a key.
pub open spec fn minted(no: u64, name: Seq<u8>, dna: Seq<u8>, owner: AccountId) -> SwallowerView<
    AccountId,
    SwallowerHash,
> {
    SwallowerView { no, name, init_gene: dna, gene: dna, owner: Some(owner), hash: None }
}

/// The storage after `minter` was given a new swallower from `dna`, paid
/// `price`, at block `bn`: it is numbered, keyed by its digest, owned,
/// counted with its genes, and protected for the first protection period.
pub open spec fn mint_record_outcome(
    s: PalletView,
    minter: AccountId,
    name: Seq<u8>,
    asset_id: AssetId,
    price: Balance,
    dna: Seq<u8>,
    bn: BlockNumber,
    max_owned: u32,
) -> Result<PalletView, DispatchError> {
    if owned(s, minter).len() >= max_owned {
        Err(DispatchError::Module(Error::ExceedMaxSwallowerOwned))
    } else {
        let no = sat_add(s.swallower_no, 1);
        let h = swallower_digest(minted(no, name, dna, minter));
        let end = sat_add(bn, s.protect_zone_config.first_mint_protect_duration as u64);
        let s1 = with_event(
            PalletView {
                swallower_no: no,
                owner_swallower: s.owner_swallower.insert(minter, owned(s, minter).push(h)),
                swallowers: s.swallowers.insert(
                    h,
                    SwallowerView { hash: Some(h), ..minted(no, name, dna, minter) },
                ),
                swallower_amount: sat_add(s.swallower_amount, 1),
                gene_amount: sat_add(s.gene_amount, dna.len() as u64),
                ..s
            },
            EventView::Mint(minter, name, asset_id, price, h),
        );
        Ok(entered_safe_zone(s1, h, bn, end))
    }
}

/// The price of a new swallower: its initial genes at the gene price.
pub open spec fn mint_price_of(s: PalletView, decimals: u8, init_gene_limit: u32) -> Result<
    Balance,
    DispatchError,
> {
    match gene_price_of(s, decimals) {
        Err(e) => Err(e),
        Ok(price_gene) => if price_gene * init_gene_limit > u64::MAX {
            Err(DispatchError::Arithmetic(ArithmeticError::Overflow))
        } else {
            Ok((price_gene * init_gene_limit) as u64)
        },
    }
}

/// The storage after `minter` paid `t` and was given a new swallower from
/// `dna` at block `bn`: the ownership limit is checked before the payment.
pub open spec fn mint_paid_outcome(
    s: PalletView,
    minter: AccountId,
    name: Seq<u8>,
    t: TransInfo,
    dna: Seq<u8>,
    bn: BlockNumber,
    max_owned: u32,
) -> Result<PalletView, DispatchError> {
    if owned(s, minter).len() >= max_owned {
        Err(DispatchError::Module(Error::ExceedMaxSwallowerOwned))
    } else {
        match paid_in(s, t) {
            Err(e) => Err(e),
            Ok(s1) => mint_record_outcome(s1, minter, name, t.asset_id, t.fee, dna, bn, max_owned),
        }
    }
}

/// The outcome of `mint_swallower`, given what the runtime reports: the
/// asset's decimals, the initial gene count, the caller's balance, the
/// randomness, the block and the ownership limit; the payment is assumed
/// to go through.
pub open spec fn mint_swallower_outcome(
    s: PalletView,
    origin: Origin,
    name: Seq<u8>,
    decimals: u8,
    init_gene_limit: u32,
    balance: Balance,
    random: Seq<u8>,
    bn: BlockNumber,
    max_owned: u32,
) -> Result<PalletView, DispatchError> {
    match origin {
        Origin::Signed(who) => if name_exists(s, name) {
            Err(DispatchError::Module(Error::NameRepeated))
        } else {
            match s.asset_id {
                None => Err(DispatchError::Module(Error::NotExistAssetId)),
                Some(asset_id) => match mint_price_of(s, decimals, init_gene_limit) {
                    Err(e) => Err(e),
                    Ok(price) => if balance < price {
                        Err(DispatchError::Module(Error::NotEnoughMoney))
                    } else {
                        mint_paid_outcome(
                            s,
                            who,
                            name,
                            TransInfo { asset_id, sender: who, manager: s.manager, fee: price },
                            dna_digest(random, bn, name),
                            bn,
                            max_owned,
                        )
                    },
                },
            }
        },
        _ => Err(DispatchError::BadOrigin),
    }
}

/// The storage after the swallower `hash` of `sender` was burned, the
/// refund `fee` paid: it is no longer owned, stored, counted or protected.
pub open spec fn burn_outcome(
    s: PalletView,
    hash: SwallowerHash,
    sender: AccountId,
    asset_id: AssetId,
    fee: Balance,
) -> Result<PalletView, DispatchError> {
    if !owned(s, sender).contains(hash) {
        Err(DispatchError::Module(Error::HashNotFound))
    } else if !s.swallowers.dom().contains(hash) {
        Err(DispatchError::Module(Error::SwallowerNotExist))
    } else {
        let len = s.swallowers[hash].gene.len();
        Ok(
            with_event(
                PalletView {
                    owner_swallower: s.owner_swallower.insert(
                        sender,
                        remove_first(owned(s, sender), hash),
                    ),
                    swallowers: s.swallowers.remove(hash),
                    gene_amount: if len > 0 {
                        sat_sub(s.gene_amount, len as u64)
                    } else {
                        s.gene_amount
                    },
                    swallower_amount: sat_sub(s.swallower_amount, 1),
                    safe_zone: s.safe_zone.remove(hash),
                    ..s
                },
                EventView::Burn(sender, asset_id, fee, hash),
            ),
        )
    }
}

/// The refund for burning a swallower of `count` genes at `price_gene`:
/// the genes at the gene price, less the destroy fee.
pub open spec fn burn_refund(price_gene: Balance, count: nat, destroy_fee_percent: u32) -> Result<
    Balance,
    DispatchError,
> {
    if price_gene * count > u64::MAX {
        Err(DispatchError::Arithmetic(ArithmeticError::Overflow))
    } else {
        Ok(
            (sat_mul((price_gene * count) as u64, (100 - destroy_fee_percent) as u64)
                / 100) as u64,
        )
    }
}

/// The storage after the swallower `hash` of `t.sender` was burned and `t`
/// refunded: that the swallower is owned and stored is checked before the
/// refund.
pub open spec fn burn_paid_outcome(s: PalletView, hash: SwallowerHash, t: TransInfo) -> Result<
    PalletView,
    DispatchError,
> {
    if !owned(s, t.sender).contains(hash) {
        Err(DispatchError::Module(Error::HashNotFound))
    } else if !s.swallowers.dom().contains(hash) {
        Err(DispatchError::Module(Error::SwallowerNotExist))
    } else {
        match paid_out(s, t) {
            Err(e) => Err(e),
            Ok(s1) => burn_outcome(s1, hash, t.sender, t.asset_id, t.fee),
        }
    }
}

/// The refund for burning the swallower `hash`: its genes at the gene price,
/// less the destroy fee.
pub open spec fn refund_of(s: PalletView, hash: SwallowerHash, decimals: u8) -> Result<
    Balance,
    DispatchError,
> {
    match gene_price_of(s, decimals) {
        Err(e) => Err(e),
        Ok(price_gene) => if !s.swallowers.dom().contains(hash) {
            Err(DispatchError::Module(Error::SwallowerNotExist))
        } else {
            burn_refund(
                price_gene,
                s.swallowers[hash].gene.len(),
                s.swallower_config.destroy_fee_percent,
            )
        },
    }
}

/// The outcome of `burn_swallower`, given the asset's decimals and the
/// manager's balance that the runtime reports; the refund is assumed to go
/// through.
pub open spec fn burn_swallower_outcome(
    s: PalletView,
    origin: Origin,
    hash: SwallowerHash,
    decimals: u8,
    manager_balance: Balance,
) -> Result<PalletView, DispatchError> {
    match origin {
        Origin::Signed(who) => if !owned(s, who).contains(hash) {
            Err(DispatchError::Module(Error::NotOwner))
        } else {
            match s.asset_id {
                None => Err(DispatchError::Module(Error::NotExistAssetId)),
                Some(asset_id) => match refund_of(s, hash, decimals) {
                    Err(e) => Err(e),
                    Ok(refund) => if manager_balance < refund {
                        Err(DispatchError::Module(Error::NotEnoughMoney))
                    } else {
                        burn_paid_outcome(
                            s,
                            hash,
                            TransInfo { asset_id, sender: who, manager: s.manager, fee: refund },
                        )
                    },
                },
            }
        },
        _ => Err(DispatchError::BadOrigin),
    }
}

/// The storage after the swallower `hash` was renamed `name`, the fee paid
/// in.
pub open spec fn change_name_outcome(
    s: PalletView,
    sender: AccountId,
    name: Seq<u8>,
    hash: SwallowerHash,
    asset_id: AssetId,
    fee: Balance,
) -> Result<PalletView, DispatchError> {
    if s.asset_amount + fee > u64::MAX {
        Err(DispatchError::Arithmetic(ArithmeticError::Overflow))
    } else if !s.swallowers.dom().contains(hash) {
        Err(DispatchError::Module(Error::SwallowerNotExist))
    } else {
        Ok(
            with_event(
                PalletView {
                    asset_amount: (s.asset_amount + fee) as u64,
                    swallowers: s.swallowers.insert(
                        hash,
                        SwallowerView { name: name, ..s.swallowers[hash] },
                    ),
                    ..s
                },
                EventView::ChangeName(sender, name, asset_id, fee, hash),
            ),
        )
    }
}

/// The storage after `sender` paid `fee` to the manager and the swallower
/// `hash` was renamed `name`: the renaming is checked before the payment.
pub open spec fn change_name_paid_outcome(
    s: PalletView,
    sender: AccountId,
    name: Seq<u8>,
    hash: SwallowerHash,
    asset_id: AssetId,
    fee: Balance,
) -> Result<PalletView, DispatchError> {
    match change_name_outcome(s, sender, name, hash, asset_id, fee) {
        Err(e) => Err(e),
        Ok(_) => change_name_outcome(
            PalletView { payments: s.payments.push((asset_id, sender, s.manager, fee, false)), ..s },
            sender,
            name,
            hash,
            asset_id,
            fee,
        ),
    }
}

/// The fee for renaming a swallower: the configured number of whole tokens.
pub open spec fn rename_fee_of(s: PalletView, decimals: u8) -> Result<Balance, DispatchError> {
    if pow10(decimals as nat) > u64::MAX {
        Err(DispatchError::Arithmetic(ArithmeticError::Overflow))
    } else {
        Ok(sat_mul(s.swallower_config.change_name_fee, pow10(decimals as nat) as u64))
    }
}

/// The outcome of `change_swallower_name`, given the asset's decimals and
/// the caller's balance that the runtime reports; the fee is assumed to go
/// through.
pub open spec fn change_swallower_name_outcome(
    s: PalletView,
    origin: Origin,
    hash: SwallowerHash,
    name: Seq<u8>,
    decimals: u8,
    balance: Balance,
) -> Result<PalletView, DispatchError> {
    match origin {
        Origin::Signed(who) => if !owned(s, who).contains(hash) {
            Err(DispatchError::Module(Error::NotOwner))
        } else if name_exists(s, name) {
            Err(DispatchError::Module(Error::NameRepeated))
        } else {
            match s.asset_id {
                None => Err(DispatchError::Module(Error::NotExistAssetId)),
                Some(asset_id) => match rename_fee_of(s, decimals) {
                    Err(e) => Err(e),
                    Ok(fee) => if balance < fee {
                        Err(DispatchError::Module(Error::NotEnoughMoney))
                    } else {
                        change_name_paid_outcome(s, who, name, hash, asset_id, fee)
                    },
                },
            }
        },
        _ => Err(DispatchError::BadOrigin),
    }
}

/// The protection fee for `height` blocks of a swallower of `gene_len`
/// genes.
pub open spec fn protect_fee(price_gene: Balance, gene_len: u64, height: u64, ratio: u32) -> Balance {
    (sat_mul(sat_mul(sat_mul(price_gene, gene_len), height), ratio as u64) / 100) as u64
}

/// The fee for protecting the swallower `hash` for `height` blocks.
pub open spec fn protection_fee_of(s: PalletView, hash: SwallowerHash, height: u32, decimals: u8) -> Result<
    Balance,
    DispatchError,
> {
    match gene_price_of(s, decimals) {
        Err(e) => Err(e),
        Ok(price_gene) => if !s.swallowers.dom().contains(hash) {
            Err(DispatchError::Module(Error::SwallowerNotExist))
        } else {
            Ok(
                protect_fee(
                    price_gene,
                    (s.swallowers[hash].gene.len() as u32) as u64,
                    height as u64,
                    s.swallower_config.protect_fee_ratio,
                ),
            )
        },
    }
}

/// The swallower `hash` claimed a battle zone reward less than the reward
/// interval before block `bn`, and must stay in the battle zone.
pub open spec fn reward_locked(s: PalletView, hash: SwallowerHash, bn: BlockNumber) -> bool {
    s.battle_zone_reward_map.dom().contains(hash) && s.battle_zone_reward_map[hash].block_number
        + s.swallower_config.battle_zone_reward_block > bn
}

/// The storage a call on the swallower `hash` at block `bn` leaves when it
/// is refused after the caller was found to own `hash`: an expired
/// protection of `hash` is taken away.
pub open spec fn checked_for_owner(s: PalletView, origin: Origin, hash: SwallowerHash, bn: BlockNumber) -> PalletView {
    match origin {
        Origin::Signed(who) => if owned(s, who).contains(hash) {
            after_safe_zone_check(s, hash, bn)
        } else {
            s
        },
        _ => s,
    }
}

/// The outcome of `user_entre_safe_zone`, given the asset's decimals, the
/// caller's balance and the block that the runtime reports; the fee is
/// assumed to go through.
pub open spec fn user_entre_safe_zone_outcome(
    s: PalletView,
    origin: Origin,
    hash: SwallowerHash,
    height: BlockNumber,
    decimals: u8,
    balance: Balance,
    bn: BlockNumber,
) -> Result<PalletView, DispatchError> {
    match origin {
        Origin::Signed(who) => if !owned(s, who).contains(hash) {
            Err(DispatchError::Module(Error::NotOwner))
        } else if in_safe_zone(s, hash, bn) {
            Err(DispatchError::Module(Error::SwallowerInSafeZone))
        } else if reward_locked(s, hash, bn) {
            Err(DispatchError::Module(Error::RewardTooClose))
        } else if height >= s.swallower_config.protect_max_length as u64 {
            Err(DispatchError::Module(Error::OverMaxHeight))
        } else {
            match protection_fee_of(s, hash, height as u32, decimals) {
                Err(e) => Err(e),
                Ok(fee) => if balance < fee {
                    Err(DispatchError::Module(Error::NotEnoughMoney))
                } else {
                    match paid_in(
                        after_safe_zone_check(s, hash, bn),
                        TransInfo { asset_id: s.asset_id->Some_0, sender: who, manager: s.manager, fee },
                    ) {
                        Err(e) => Err(e),
                        Ok(s1) => Ok(entered_safe_zone(s1, hash, bn, sat_add(bn, height))),
                    }
                },
            }
        },
        _ => Err(DispatchError::BadOrigin),
    }
}

/// The result and the storage after `user_exit_safe_zone` at block `bn`:
/// the check of the protection takes an expired one away, whether the call
/// then succeeds or not.
pub open spec fn user_exit_safe_zone_outcome(
    s: PalletView,
    origin: Origin,
    hash: SwallowerHash,
    bn: BlockNumber,
) -> (Result<(), DispatchError>, PalletView) {
    match origin {
        Origin::Signed(who) => if !owned(s, who).contains(hash) {
            (Err(DispatchError::Module(Error::NotOwner)), s)
        } else if !in_safe_zone(s, hash, bn) {
            (
                Err(DispatchError::Module(Error::SwallowerNotInSafeZone)),
                after_safe_zone_check(s, hash, bn),
            )
        } else {
            (Ok(()), exited_safe_zone(s, hash, bn))
        },
        _ => (Err(DispatchError::BadOrigin), s),
    }
}

/// The reward for a swallower of `gene_len` genes at `price_gene`.
pub open spec fn battle_zone_reward_fee(price_gene: Balance, gene_len: u64, ratio: u32) -> Result<
    Balance,
    DispatchError,
> {
    if gene_len * price_gene > u64::MAX || gene_len * price_gene * ratio > u64::MAX {
        Err(DispatchError::Arithmetic(ArithmeticError::Overflow))
    } else {
        Ok(((gene_len * price_gene * ratio) / 100) as u64)
    }
}

/// The arithmetic of `user_claim_reward_in_battle_zone` on the storage
/// fits.
pub open spec fn claim_arithmetic_fits(s: PalletView, hash: SwallowerHash) -> bool {
    &&& s.swallower_amount * s.swallower_config.reward_trigger_ratio <= u64::MAX
    &&& s.battle_zone_reward_map.dom().contains(hash) ==> s.battle_zone_reward_map[hash].block_number
        + s.swallower_config.battle_zone_reward_block <= u64::MAX
}

/// The outcome of `user_claim_reward_in_battle_zone`, given the asset's
/// decimals and the block that the runtime reports; the reward is assumed
/// to go through.
pub open spec fn user_claim_reward_outcome(
    s: PalletView,
    origin: Origin,
    hash: SwallowerHash,
    decimals: u8,
    bn: BlockNumber,
) -> Result<PalletView, DispatchError> {
    match origin {
        Origin::Signed(who) => if !owned(s, who).contains(hash) {
            Err(DispatchError::Module(Error::NotOwner))
        } else if in_safe_zone(s, hash, bn) {
            Err(DispatchError::Module(Error::SwallowerInSafeZone))
        } else {
            match reward_open_of(s, hash, bn) {
                Err(e) => Err(e),
                Ok(_) => match reward_fee_of(s, hash, decimals) {
                    Err(e) => Err(e),
                    Ok(fee) => rewarded(
                        after_safe_zone_check(s, hash, bn),
                        hash,
                        TransInfo { asset_id: s.asset_id->Some_0, sender: who, manager: s.manager, fee },
                        bn,
                    ),
                },
            }
        },
        _ => Err(DispatchError::BadOrigin),
    }
}

/// The storage after the reward `t` was paid for the swallower `hash` at
/// block `bn` and recorded.
pub open spec fn rewarded(s: PalletView, hash: SwallowerHash, t: TransInfo, bn: BlockNumber) -> Result<
    PalletView,
    DispatchError,
> {
    match paid_out(s, t) {
        Err(e) => Err(e),
        Ok(s1) => Ok(
            with_event(
                PalletView {
                    battle_zone_reward_map: s1.battle_zone_reward_map.insert(
                        hash,
                        BattleZoneReward { block_number: bn, fee: t.fee },
                    ),
                    ..s1
                },
                EventView::BattleZoneReward(hash, bn, t.fee),
            ),
        ),
    }
}

/// Whether the battle zone pays a reward to the swallower `hash` at block
/// `bn`: more swallowers must stay out of the safe zone than the reward
/// trigger ratio of all, and the last reward of `hash` must lie the reward
/// interval back.
pub open spec fn reward_open_of(s: PalletView, hash: SwallowerHash, bn: BlockNumber) -> Result<
    (),
    DispatchError,
> {
    if protected_at(s, bn).len() > s.swallower_amount {
        Err(DispatchError::Arithmetic(ArithmeticError::Overflow))
    } else if s.swallower_amount - protected_at(s, bn).len() <= (s.swallower_amount
        * s.swallower_config.reward_trigger_ratio) / 100 {
        Err(DispatchError::Module(Error::RewardRatioLessThanAmount))
    } else if s.battle_zone_reward_map.dom().contains(hash)
        && s.battle_zone_reward_map[hash].block_number + s.swallower_config.battle_zone_reward_block
        > bn {
        Err(DispatchError::Module(Error::RewardTooClose))
    } else {
        Ok(())
    }
}

/// The battle zone reward of the swallower `hash`: its genes at the gene
/// price, times the reward ratio.
pub open spec fn reward_fee_of(s: PalletView, hash: SwallowerHash, decimals: u8) -> Result<
    Balance,
    DispatchError,
> {
    if !s.swallowers.dom().contains(hash) {
        Err(DispatchError::Module(Error::SwallowerNotExist))
    } else {
        match gene_price_of(s, decimals) {
            Err(e) => Err(e),
            Ok(price_gene) => battle_zone_reward_fee(
                price_gene,
                (s.swallowers[hash].gene.len() as u32) as u64,
                s.swallower_config.battle_zone_reward_ratio,
            ),
        }
    }
}

/// The genes alive after `draws` draws, two genes lost in each.
pub open spec fn draw_genes_left(gene_amount: u64, draws: nat) -> u64 {
    if gene_amount < 2 * draws {
        0
    } else {
        (gene_amount - 2 * draws) as u64
    }
}

/// The storage after a fighter of a battle came out of it with its new
/// genes: stored again, or burned if it has none left; and its key.
pub open spec fn settle(s: PalletView, sw: SwallowerView<AccountId, SwallowerHash>) -> Result<
    (PalletView, SwallowerHash),
    DispatchError,
> {
    match sw.hash {
        None => Err(DispatchError::Module(Error::HashNotFound)),
        Some(h) => if sw.gene.len() == 0 {
            match s.asset_id {
                None => Err(DispatchError::Module(Error::NotExistAssetId)),
                Some(asset_id) => match burn_outcome(s, h, sw.owner->Some_0, asset_id, 0) {
                    Err(e) => Err(e),
                    Ok(s1) => Ok((s1, h)),
                },
            }
        } else {
            Ok((PalletView { swallowers: s.swallowers.insert(h, sw), ..s }, h))
        },
    }
}

/// The outcome of a battle at block `bn` whose positions came out as `ws`:
/// both fighters change their genes, draws are taken from the gene count,
/// each fighter is stored or burned, and the loser (the challenger, unless
/// it won more positions than the facer) is put in the safe zone.
pub open spec fn handle_battle_result_outcome(
    s: PalletView,
    ws: Seq<Winner>,
    c: SwallowerView<AccountId, SwallowerHash>,
    f: SwallowerView<AccountId, SwallowerHash>,
    bn: BlockNumber,
) -> Result<PalletView, DispatchError> {
    let t = tally(c.gene, f.gene, ws);
    let s0 = PalletView { gene_amount: draw_genes_left(s.gene_amount, t.draws.len()), ..s };
    match settle(s0, SwallowerView { gene: t.challenger_gene, ..c }) {
        Err(e) => Err(e),
        Ok((s1, ch)) => match settle(s1, SwallowerView { gene: t.facer_gene, ..f }) {
            Err(e) => Err(e),
            Ok((s2, fh)) => {
                let success = t.challenger_wins.len() > t.facer_wins.len();
                let end = sat_add(bn, s.protect_zone_config.auto_enter_safe_zone_block_number as u64);
                Ok(
                    with_event(
                        entered_safe_zone(
                            s2,
                            if success {
                                fh
                            } else {
                                ch
                            },
                            bn,
                            end,
                        ),
                        EventView::BattleResult(
                            success,
                            t.challenger_wins,
                            t.facer_wins,
                            t.draws,
                        ),
                    ),
                )
            },
        },
    }
}

/// The positions of a battle: the battle parts hold as many genes as the
/// shorter chain, at most `max`, and begin at the first random byte modulo
/// that length.
pub open spec fn battle_winners(
    c: SwallowerView<AccountId, SwallowerHash>,
    f: SwallowerView<AccountId, SwallowerHash>,
    random0: u8,
    max: u8,
) -> Seq<Winner> {
    let ml = if c.gene.len() <= f.gene.len() {
        c.gene.len()
    } else {
        f.gene.len()
    };
    let ml = if ml <= max {
        ml
    } else {
        max as nat
    };
    let start = (random0 as nat) % ml;
    duels(battle_part(c.gene, start as int, ml as int), battle_part(f.gene, start as int, ml as int))
}

/// The storage after a battle at block `bn` whose positions came out as
/// `ws`, its fee `t` paid: the count of the game's tokens is checked first,
/// then the battle is fought, and the fee is paid last.
pub open spec fn battle_paid_outcome(
    s: PalletView,
    ws: Seq<Winner>,
    c: SwallowerView<AccountId, SwallowerHash>,
    f: SwallowerView<AccountId, SwallowerHash>,
    t: TransInfo,
    bn: BlockNumber,
) -> Result<PalletView, DispatchError> {
    match added(s.asset_amount, t.fee) {
        Err(e) => Err(e),
        Ok(_) => match handle_battle_result_outcome(s, ws, c, f, bn) {
            Err(e) => Err(e),
            Ok(s2) => paid_in(s2, t),
        },
    }
}

/// The storage a challenge at block `bn` leaves when it is refused after
/// both swallowers were found and the facer's owner is not the caller: the
/// expired protections of both are taken away.
pub open spec fn checked_for_battle(
    s: PalletView,
    origin: Origin,
    challenger: SwallowerHash,
    facer: SwallowerHash,
    bn: BlockNumber,
) -> PalletView {
    match origin {
        Origin::Signed(sender) => if s.swallowers.dom().contains(facer) && s.swallowers.dom().contains(
            challenger,
        ) && s.swallowers[facer].owner != Some(sender) {
            after_safe_zone_check(after_safe_zone_check(s, challenger, bn), facer, bn)
        } else {
            s
        },
        _ => s,
    }
}

/// The fee for a challenge: the gene price times the challenge fee ratio.
pub open spec fn challenge_fee_of(s: PalletView, decimals: u8) -> Result<Balance, DispatchError> {
    match gene_price_of(s, decimals) {
        Err(e) => Err(e),
        Ok(price_gene) => Ok(
            (sat_mul(price_gene, s.swallower_config.challenge_fee_ratio as u64) / 100) as u64,
        ),
    }
}

/// The outcome of `make_battle`, given the asset's decimals, the caller's
/// balance, the first random byte and the block that the runtime reports;
/// the fee is assumed to go through.
pub open spec fn make_battle_outcome(
    s: PalletView,
    origin: Origin,
    challenger: SwallowerHash,
    facer: SwallowerHash,
    decimals: u8,
    balance: Balance,
    random0: u8,
    bn: BlockNumber,
) -> Result<PalletView, DispatchError> {
    match origin {
        Origin::Signed(sender) => if !s.swallowers.dom().contains(facer) {
            Err(DispatchError::Module(Error::SwallowerNotExist))
        } else if !s.swallowers.dom().contains(challenger) {
            Err(DispatchError::Module(Error::SwallowerNotExist))
        } else if s.swallowers[facer].owner == Some(sender) {
            Err(DispatchError::Module(Error::WithSelf))
        } else if in_safe_zone(s, challenger, bn) || in_safe_zone(s, facer, bn) {
            Err(DispatchError::Module(Error::SwallowerInSafeZone))
        } else {
            match challenge_fee_of(s, decimals) {
                Err(e) => Err(e),
                Ok(fee) => {
                    if balance < fee {
                        Err(DispatchError::Module(Error::NotEnoughMoney))
                    } else {
                        let s1 = after_safe_zone_check(
                            after_safe_zone_check(s, challenger, bn),
                            facer,
                            bn,
                        );
                        battle_paid_outcome(
                            s1,
                            battle_winners(
                                s.swallowers[challenger],
                                s.swallowers[facer],
                                random0,
                                s.swallower_config.max_challenge_length,
                            ),
                            s.swallowers[challenger],
                            s.swallowers[facer],
                            TransInfo {
                                asset_id: s.asset_id->Some_0,
                                sender,
                                manager: s.manager,
                                fee,
                            },
                            bn,
                        )
                    }
                },
            }
        },
        _ => Err(DispatchError::BadOrigin),
    }
}

/// Between `a` and `b` a battle changed at most the genes, swallowers,
/// owners and protections, and added events.
pub open spec fn battle_frame(a: PalletView, b: PalletView) -> bool {
    &&& b.swallower_no == a.swallower_no
    &&& b.asset_amount == a.asset_amount
    &&& b.swallower_config == a.swallower_config
    &&& b.protect_zone_config == a.protect_zone_config
    &&& b.asset_id == a.asset_id
    &&& b.admin == a.admin
    &&& b.manager == a.manager
    &&& b.battle_zone_reward_map == a.battle_zone_reward_map
    &&& b.payments == a.payments
    &&& a.events.len() <= b.events.len()
    &&& b.events.subrange(0, a.events.len() as int) == a.events
}

/// The genesis of the pallet: an optional admin and asset.
pub struct GenesisConfig {
    pub admin: Option<AccountId>,
    pub asset_id: Option<u32>,
}

impl Default for GenesisConfig {
    fn default() -> (r: Self)
        ensures
            r.admin.is_none(),
            r.asset_id.is_none(),
    {
        GenesisConfig { admin: None, asset_id: None }
    }
}

impl GenesisConfig {
    /// Sets the admin and the asset that are given.
    pub fn build(&self, pallet: &mut Pallet)
        requires
            old(pallet).wf(),
        ensures
            final(pallet).wf(),
            final(pallet)@ == (PalletView {
                admin: if self.admin.is_some() {
                    self.admin
                } else {
                    old(pallet)@.admin
                },
                asset_id: if self.asset_id.is_some() {
                    self.asset_id
                } else {
                    old(pallet)@.asset_id
                },
                ..old(pallet)@
            }),
    {
        if let Some(m) = self.admin {
            pallet.admin = Some(m);
        }
        if let Some(a) = self.asset_id {
            pallet.asset_id = Some(a);
        }
        assert(pallet@ =~= (PalletView {
            admin: if self.admin.is_some() {
                self.admin
            } else {
                old(pallet)@.admin
            },
            asset_id: if self.asset_id.is_some() {
                self.asset_id
            } else {
                old(pallet)@.asset_id
            },
            ..old(pallet)@
        }));
    }
}

impl Pallet {
    /// The tables are well formed and every stored swallower has an owner and
    /// at least one gene.
    pub closed spec fn wf(&self) -> bool {
        &&& self.owner_swallower.wf()
        &&& self.swallowers.wf()
        &&& self.safe_zone.wf()
        &&& self.battle_zone_reward_map.wf()
        &&& stored_swallowers_valid(self@)
    }

    /// In a well-formed storage every stored swallower has an owner and at
    /// least one gene.
    pub proof fn lemma_wf_valid(&self)
        requires
            self.wf(),
        ensures
            stored_swallowers_valid(self@),
    {
    }

    /// An empty game with the default configuration.
    pub fn new() -> (r: Self)
        ensures
            r.wf(),
            r@.gene_amount == 0,
            r@.swallower_amount == 0,
            r@.swallower_no == 0,
            r@.asset_amount == 0,
            r@.swallower_config == default_fee_config(),
            r@.protect_zone_config == default_protect_config(),
            r@.asset_id.is_none(),
            r@.admin.is_none(),
            r@.manager == 0,
            r@.owner_swallower == Map::<AccountId, Seq<SwallowerHash>>::empty(),
            r@.swallowers == Map::<SwallowerHash, SwallowerView<AccountId, SwallowerHash>>::empty(),
            r@.safe_zone == Map::<SwallowerHash, ProtectState<BlockNumber>>::empty(),
            r@.battle_zone_reward_map == Map::<
                SwallowerHash,
                BattleZoneReward<BlockNumber, Balance>,
            >::empty(),
            r@.events == Seq::<EventView>::empty(),
            r@.payments == Seq::<Payment>::empty(),
    {
        let r = Pallet {
            gene_amount: 0,
            swallower_amount: 0,
            swallower_no: 0,
            asset_amount: 0,
            swallower_config: FeeConfig::default(),
            protect_zone_config: ProtectConfig::default(),
            asset_id: None,
            admin: None,
            manager: 0,
            owner_swallower: Table::new(),
            swallowers: Table::new(),
            safe_zone: Table::new(),
            battle_zone_reward_map: Table::new(),
            events: Vec::new(),
            payments: Ghost(Seq::empty()),
        };
        assert(r@.events =~= Seq::<EventView>::empty());
        r
    }

    pub fn gene_amount(&self) -> (r: u64)
        ensures
            r == self@.gene_amount,
    {
        self.gene_amount
    }

    pub fn swallower_amount(&self) -> (r: u64)
        ensures
            r == self@.swallower_amount,
    {
        self.swallower_amount
    }

    pub fn swallower_no(&self) -> (r: u64)
        ensures
            r == self@.swallower_no,
    {
        self.swallower_no
    }

    pub fn asset_amount(&self) -> (r: Balance)
        ensures
            r == self@.asset_amount,
    {
        self.asset_amount
    }

    pub fn swallower_config(&self) -> (r: FeeConfig)
        ensures
            r == self@.swallower_config,
    {
        self.swallower_config
    }

    pub fn protect_zone_config(&self) -> (r: ProtectConfig)
        ensures
            r == self@.protect_zone_config,
    {
        self.protect_zone_config
    }

    pub fn asset_id(&self) -> (r: Option<AssetId>)
        ensures
            r == self@.asset_id,
    {
        self.asset_id
    }

    pub fn admin(&self) -> (r: Option<AccountId>)
        ensures
            r == self@.admin,
    {
        self.admin
    }

    pub fn manager(&self) -> (r: AccountId)
        ensures
            r == self@.manager,
    {
        self.manager
    }

    /// The swallowers `who` owns.
    pub fn owner_swallower(&self, who: AccountId) -> (r: Vec<SwallowerHash>)
        requires
            self.wf(),
        ensures
            r@ == owned(self@, who),
    {
        match self.owner_swallower.get(&who) {
            Some(v) => v.duplicate(),
            None => Vec::new(),
        }
    }

    /// The swallower stored under `hash`.
    pub fn swallowers(&self, hash: &SwallowerHash) -> (r: Option<SwallowerStruct>)
        requires
            self.wf(),
        ensures
            match r {
                Some(s) => self@.swallowers.dom().contains(*hash) && s@ == self@.swallowers[*hash],
                None => !self@.swallowers.dom().contains(*hash),
            },
    {
        match self.swallowers.get(hash) {
            Some(s) => Some(s.duplicate()),
            None => None,
        }
    }

    /// The protection of the swallower stored under `hash`.
    pub fn safe_zone(&self, hash: &SwallowerHash) -> (r: Option<ProtectState<BlockNumber>>)
        requires
            self.wf(),
        ensures
            match r {
                Some(p) => self@.safe_zone.dom().contains(*hash) && p == self@.safe_zone[*hash],
                None => !self@.safe_zone.dom().contains(*hash),
            },
    {
        match self.safe_zone.get(hash) {
            Some(p) => Some(*p),
            None => None,
        }
    }

    /// The last battle zone reward of the swallower stored under `hash`.
    pub fn battle_zone_reward_map(&self, hash: &SwallowerHash) -> (r: Option<
        BattleZoneReward<BlockNumber, Balance>,
    >)
        requires
            self.wf(),
        ensures
            match r {
                Some(p) => self@.battle_zone_reward_map.dom().contains(*hash) && p
                    == self@.battle_zone_reward_map[*hash],
                None => !self@.battle_zone_reward_map.dom().contains(*hash),
            },
    {
        match self.battle_zone_reward_map.get(hash) {
            Some(p) => Some(*p),
            None => None,
        }
    }

    /// The events deposited, oldest first.
    pub fn events(&self) -> (r: &Vec<Event>)
        ensures
            r@.map_values(|e: Event| e@) == self@.events,
    {
        &self.events
    }

    fn deposit_event(&mut self, e: Event)
        ensures
            final(self)@ == with_event(old(self)@, e@),
            final(self).owner_swallower == old(self).owner_swallower,
            final(self).swallowers == old(self).swallowers,
            final(self).safe_zone == old(self).safe_zone,
            final(self).battle_zone_reward_map == old(self).battle_zone_reward_map,
    {
        let ghost old_events = self@.events;
        self.events.push(e);
        assert(self@.events =~= old_events.push(e@));
        assert(self@ =~= with_event(old(self)@, e@));
    }

    /// `who` owns the swallower stored under `hash`.
    fn owns(&self, who: AccountId, hash: &SwallowerHash) -> (r: bool)
        requires
            self.wf(),
        ensures
            r == owned(self@, who).contains(*hash),
    {
        match self.owner_swallower.get(&who) {
            Some(v) => {
                let i = hash_position(v, hash);
                proof {
                    lemma_first_index_of(v@, *hash);
                }
                i < v.len()
            },
            None => false,
        }
    }

    /// The price of one gene, for an asset of `decimals` decimals.
    pub fn gene_price(&self, decimals: u8) -> (r: Result<Balance, DispatchError>)
        ensures
            r == gene_price_of(self@, decimals),
    {
        if self.asset_id.is_none() {
            return Err(DispatchError::Module(Error::NotExistAssetId));
        }
        if self.gene_amount != 0 && self.asset_amount != 0 {
            Ok(self.asset_amount / self.gene_amount)
        } else {
            match checked_pow10(decimals) {
                Some(v) => Ok(v),
                None => Err(DispatchError::Arithmetic(ArithmeticError::Overflow)),
            }
        }
    }

    /// The price of a new swallower of `init_gene_limit` initial genes, for
    /// an asset of `decimals` decimals.
    pub fn mint_price(&self, decimals: u8, init_gene_limit: u32) -> (r: Result<Balance, DispatchError>)
        ensures
            r == mint_price_of(self@, decimals, init_gene_limit),
    {
        let price_gene = self.gene_price(decimals)?;
        match price_gene.checked_mul(init_gene_limit as u64) {
            Some(p) => Ok(p),
            None => Err(DispatchError::Arithmetic(ArithmeticError::Overflow)),
        }
    }

    /// The refund for burning the swallower `hash`, for an asset of
    /// `decimals` decimals.
    pub fn refund(&self, hash: &SwallowerHash, decimals: u8) -> (r: Result<Balance, DispatchError>)
        requires
            self.wf(),
            self@.swallower_config.destroy_fee_percent <= 100,
        ensures
            r == refund_of(self@, *hash, decimals),
    {
        let price_gene = self.gene_price(decimals)?;
        let swallower_gene_count = match self.swallowers.get(hash) {
            Some(sw) => sw.gene.len(),
            None => {
                return Err(DispatchError::Module(Error::SwallowerNotExist));
            },
        };
        let return_balance = match price_gene.checked_mul(swallower_gene_count as u64) {
            Some(v) => v,
            None => {
                return Err(DispatchError::Arithmetic(ArithmeticError::Overflow));
            },
        };
        Ok(saturating_mul(return_balance, (100 - self.swallower_config.destroy_fee_percent) as u64)
            / 100)
    }

    /// The fee for renaming a swallower, for an asset of `decimals`
    /// decimals.
    pub fn rename_fee(&self, decimals: u8) -> (r: Result<Balance, DispatchError>)
        ensures
            r == rename_fee_of(self@, decimals),
    {
        match checked_pow10(decimals) {
            Some(unit) => Ok(saturating_mul(self.swallower_config.change_name_fee, unit)),
            None => Err(DispatchError::Arithmetic(ArithmeticError::Overflow)),
        }
    }

    /// The fee for protecting the swallower `hash` for `height` blocks, for
    /// an asset of `decimals` decimals.
    pub fn protection_fee(&self, hash: &SwallowerHash, height: u32, decimals: u8) -> (r: Result<
        Balance,
        DispatchError,
    >)
        requires
            self.wf(),
        ensures
            r == protection_fee_of(self@, *hash, height, decimals),
    {
        let gene_price = self.gene_price(decimals)?;
        let gene_len = match self.swallowers.get(hash) {
            Some(sw) => sw.gene.len() as u32,
            None => {
                return Err(DispatchError::Module(Error::SwallowerNotExist));
            },
        };
        Ok(saturating_mul(
            saturating_mul(saturating_mul(gene_price, gene_len as u64), height as u64),
            self.swallower_config.protect_fee_ratio as u64,
        ) / 100)
    }

    /// The fee for a challenge, for an asset of `decimals` decimals.
    pub fn challenge_fee(&self, decimals: u8) -> (r: Result<Balance, DispatchError>)
        ensures
            r == challenge_fee_of(self@, decimals),
    {
        let price_gene = self.gene_price(decimals)?;
        Ok(saturating_mul(price_gene, self.swallower_config.challenge_fee_ratio as u64) / 100)
    }

    /// Whether the battle zone pays a reward to the swallower `hash` at block
    /// `block_number`.
    pub fn reward_open(&self, hash: &SwallowerHash, block_number: BlockNumber) -> (r: Result<
        (),
        DispatchError,
    >)
        requires
            self.wf(),
            claim_arithmetic_fits(self@, *hash),
        ensures
            r == reward_open_of(self@, *hash, block_number),
    {
        let swallower_amount = self.swallower_amount;
        let trigger_reward_ratio = swallower_amount * self.swallower_config.reward_trigger_ratio as u64
            / 100;
        let swallower_amount_in_safe_zone = self.count_protected(block_number);
        if swallower_amount_in_safe_zone > swallower_amount {
            return Err(DispatchError::Arithmetic(ArithmeticError::Overflow));
        }
        let swallower_amount_in_battle = swallower_amount - swallower_amount_in_safe_zone;
        if swallower_amount_in_battle <= trigger_reward_ratio {
            return Err(DispatchError::Module(Error::RewardRatioLessThanAmount));
        }
        match self.battle_zone_reward_map.get(hash) {
            Some(battle_zone_reward) => {
                if battle_zone_reward.block_number
                    + self.swallower_config.battle_zone_reward_block as u64 > block_number {
                    return Err(DispatchError::Module(Error::RewardTooClose));
                }
            },
            None => {},
        }
        Ok(())
    }

    /// The battle zone reward of the swallower `hash`, for an asset of
    /// `decimals` decimals.
    pub fn reward_fee(&self, hash: &SwallowerHash, decimals: u8) -> (r: Result<Balance, DispatchError>)
        requires
            self.wf(),
        ensures
            r == reward_fee_of(self@, *hash, decimals),
    {
        let gene_len = match self.swallowers.get(hash) {
            Some(sw) => (sw.gene.len() as u32) as u64,
            None => {
                return Err(DispatchError::Module(Error::SwallowerNotExist));
            },
        };
        let gene_price = self.gene_price(decimals)?;
        let product = match gene_len.checked_mul(gene_price) {
            Some(v) => v,
            None => {
                return Err(DispatchError::Arithmetic(ArithmeticError::Overflow));
            },
        };
        match product.checked_mul(self.swallower_config.battle_zone_reward_ratio as u64) {
            Some(v) => Ok(v / 100),
            None => Err(DispatchError::Arithmetic(ArithmeticError::Overflow)),
        }
    }

    /// Some stored swallower is named `name`.
    pub fn check_exist_name(&self, name: &Vec<u8>) -> (r: bool)
        requires
            self.wf(),
        ensures
            r == name_exists(self@, name@),
    {
        let mut i: usize = 0;
        while i < self.swallowers.len()
            invariant
                self.swallowers.wf(),
                0 <= i <= self.swallowers.spec_len(),
                forall|j: int|
                    0 <= j < i ==> (#[trigger] self.swallowers.value_view_at(j)).name != name@,
            decreases self.swallowers.spec_len() - i,
        {
            if bytes_eq(&self.swallowers.value(i).name, name) {
                proof {
                    self.swallowers.lemma_entry(i as int);
                    assert(self@.swallowers.dom().contains(self.swallowers.key_at(i as int)));
                }
                return true;
            }
            i = i + 1;
        }
        proof {
            if name_exists(self@, name@) {
                let h = choose|h: SwallowerHash| #[trigger]
                    self@.swallowers.dom().contains(h) && self@.swallowers[h].name == name@;
                self.swallowers.lemma_key(h);
                let j = self.swallowers.index_of(h);
                self.swallowers.lemma_entry(j);
                assert(self.swallowers.value_view_at(j).name != name@);
            }
        }
        false
    }

    /// Whether the swallower is protected at block `block_number`; an expired
    /// protection is taken away.
    pub fn check_in_safe_zone(&mut self, hash: SwallowerHash, block_number: BlockNumber) -> (r:
        bool)
        requires
            old(self).wf(),
        ensures
            final(self).wf(),
            r == in_safe_zone(old(self)@, hash, block_number),
            final(self)@ == after_safe_zone_check(old(self)@, hash, block_number),
    {
        match self.safe_zone.get(&hash) {
            Some(p) => {
                if p.end_block >= block_number {
                    true
                } else {
                    let _ = self.safe_zone.remove(&hash);
                    assert(self@ =~= after_safe_zone_check(old(self)@, hash, block_number));
                    false
                }
            },
            None => false,
        }
    }

    /// The number of swallowers protected at block `block_number`.
    pub fn count_protected(&self, block_number: BlockNumber) -> (r: u64)
        requires
            self.wf(),
        ensures
            r == protected_at(self@, block_number).len(),
            protected_at(self@, block_number).finite(),
    {
        let ghost pred = |h: SwallowerHash| self@.safe_zone[h].end_block >= block_number;
        let mut count: u64 = 0;
        let mut i: usize = 0;
        proof {
            self.safe_zone.lemma_keys_upto_ends();
            assert(self.safe_zone.keys_upto(0).filter(pred) =~= Set::<SwallowerHash>::empty());
        }
        while i < self.safe_zone.len()
            invariant
                self.safe_zone.wf(),
                0 <= i <= self.safe_zone.spec_len(),
                count <= i,
                pred == (|h: SwallowerHash| self@.safe_zone[h].end_block >= block_number),
                self.safe_zone.keys_upto(i as int).filter(pred).finite(),
                count == self.safe_zone.keys_upto(i as int).filter(pred).len(),
            decreases self.safe_zone.spec_len() - i,
        {
            let k = self.safe_zone.key(i);
            let p = self.safe_zone.value(i);
            proof {
                self.safe_zone.lemma_keys_upto_step(i as int);
                self.safe_zone.lemma_entry(i as int);
                let before = self.safe_zone.keys_upto(i as int);
                let after = self.safe_zone.keys_upto(i + 1);
                if pred(k) {
                    assert(after.filter(pred) =~= before.filter(pred).insert(k));
                } else {
                    assert(after.filter(pred) =~= before.filter(pred));
                }
            }
            if p.end_block >= block_number {
                count = count + 1;
            }
            i = i + 1;
        }
        proof {
            self.safe_zone.lemma_keys_upto_ends();
            assert(self.safe_zone.keys_upto(self.safe_zone.spec_len() as int).filter(pred)
                =~= protected_at(self@, block_number));
        }
        count
    }
}

impl Pallet {
    /// Sets the admin; only the root may.
    pub fn set_admin(&mut self, origin: Origin, admin: AccountId) -> (r: Result<(), DispatchError>)
        requires
            old(self).wf(),
        ensures
            final(self).wf(),
            follows(r, old(self)@, final(self)@, set_admin_outcome(old(self)@, origin, admin)),
    {
        match origin {
            Origin::Root => {},
            _ => {
                return Err(DispatchError::BadOrigin);
            },
        }
        self.admin = Some(admin);
        self.deposit_event(Event::SetAdmin(admin));
        Ok(())
    }

    /// Sets the asset the game is paid in; only the admin may.
    pub fn set_asset_id(&mut self, origin: Origin, asset_id: AssetId) -> (r: Result<
        (),
        DispatchError,
    >)
        requires
            old(self).wf(),
        ensures
            final(self).wf(),
            follows(r, old(self)@, final(self)@, set_asset_id_outcome(old(self)@, origin, asset_id)),
    {
        let sender = match origin {
            Origin::Signed(who) => who,
            _ => {
                return Err(DispatchError::BadOrigin);
            },
        };
        let admin = match self.admin {
            Some(a) => a,
            None => {
                return Err(DispatchError::Module(Error::NotExistAdmin));
            },
        };
        if sender != admin {
            return Err(DispatchError::Module(Error::NotAdmin));
        }
        self.asset_id = Some(asset_id);
        self.deposit_event(Event::SetAssetId(asset_id));
        Ok(())
    }

    /// Puts the swallower `hash` in the safe zone from block `start_block` to
    /// block `end_block`; a fee, if any, is paid before.
    pub fn entre_safe_zone(
        &mut self,
        swallower_hash: SwallowerHash,
        start_block: BlockNumber,
        end_block: BlockNumber,
    )
        requires
            old(self).wf(),
        ensures
            final(self).wf(),
            final(self)@ == entered_safe_zone(old(self)@, swallower_hash, start_block, end_block),
    {
        let protect_state = ProtectState::new(start_block, end_block);
        self.safe_zone.insert(swallower_hash, protect_state);
        self.deposit_event(Event::EntreSafeZone(swallower_hash, start_block, end_block));
        assert(self@ =~= entered_safe_zone(old(self)@, swallower_hash, start_block, end_block));
    }

    /// Takes the swallower `hash` out of the safe zone at block `block_number`.
    pub fn exit_safe_zone(&mut self, swallower_hash: SwallowerHash, block_number: BlockNumber)
        requires
            old(self).wf(),
        ensures
            final(self).wf(),
            final(self)@ == exited_safe_zone(old(self)@, swallower_hash, block_number),
    {
        let _ = self.safe_zone.remove(&swallower_hash);
        self.deposit_event(Event::ExitZone(swallower_hash, block_number));
        assert(self@ =~= exited_safe_zone(old(self)@, swallower_hash, block_number));
    }

    /// Gives `minter` a new swallower whose genes are `dna`, after the price
    /// was paid, at block `block_number`.
    pub fn mint_record(
        &mut self,
        minter: AccountId,
        name: Vec<u8>,
        asset_id: AssetId,
        price: Balance,
        dna: [u8; 16],
        block_number: BlockNumber,
        max_owned: u32,
    ) -> (r: Result<(), DispatchError>)
        requires
            old(self).wf(),
        ensures
            final(self).wf(),
            follows(
                r,
                old(self)@,
                final(self)@,
                mint_record_outcome(
                    old(self)@,
                    minter,
                    name@,
                    asset_id,
                    price,
                    dna@,
                    block_number,
                    max_owned,
                ),
            ),
    {
        proof {
            broadcast use vstd::array::array_len_matches_n;

            assert(dna@.len() == 16);
        }
        let mut list = match self.owner_swallower.get(&minter) {
            Some(v) => v.duplicate(),
            None => Vec::new(),
        };
        if list.len() >= max_owned as usize {
            return Err(DispatchError::Module(Error::ExceedMaxSwallowerOwned));
        }
        let ghost s0 = self@;
        let no = self.swallower_no.saturating_add(1);
        self.swallower_no = no;
        let gene = digest_to_vec(&dna);
        let mut swallower = Swallower::new(copy_bytes(&name), gene, no, minter);
        assert(swallower@ == minted(no, name@, dna@, minter));
        let swallower_hash = hash_of_swallower(&swallower);
        swallower.hash = Some(swallower_hash);
        list.push(swallower_hash);
        self.owner_swallower.insert(minter, list);
        self.swallowers.insert(swallower_hash, swallower);
        self.swallower_amount = self.swallower_amount.saturating_add(1);
        self.gene_amount = self.gene_amount.saturating_add(16);
        self.deposit_event(Event::Mint(minter, name, asset_id, price, swallower_hash));
        let end_block = block_number.saturating_add(
            self.protect_zone_config.first_mint_protect_duration as u64,
        );
        proof {
            assert forall|h: SwallowerHash| #[trigger]
                self@.swallowers.dom().contains(h) implies self@.swallowers[h].owner.is_some()
                && self@.swallowers[h].gene.len() > 0 by {
                if h != swallower_hash {
                    assert(s0.swallowers.dom().contains(h));
                }
            }
        }
        self.entre_safe_zone(swallower_hash, block_number, end_block);
        proof {
            let h = swallower_hash;
            let s1 = with_event(
                PalletView {
                    swallower_no: no,
                    owner_swallower: s0.owner_swallower.insert(minter, owned(s0, minter).push(h)),
                    swallowers: s0.swallowers.insert(
                        h,
                        SwallowerView { hash: Some(h), ..minted(no, name@, dna@, minter) },
                    ),
                    swallower_amount: sat_add(s0.swallower_amount, 1),
                    gene_amount: sat_add(s0.gene_amount, dna@.len() as u64),
                    ..s0
                },
                EventView::Mint(minter, name@, asset_id, price, h),
            );
            assert(self@ =~= entered_safe_zone(s1, h, block_number, end_block));
        }
        Ok(())
    }
}

/// The positions of a battle between `challenger` and `facer`, given the
/// first random byte: the battle parts hold as many genes as the shorter
/// chain, at most `max`, and begin at the random byte modulo that length.
pub fn battle_positions(challenger: &SwallowerStruct, facer: &SwallowerStruct, random0: u8, max: u8) -> (r:
    Vec<Winner>)
    requires
        challenger.gene@.len() > 0,
        facer.gene@.len() > 0,
        max > 0,
    ensures
        r@ == battle_winners(challenger@, facer@, random0, max),
        feasible(challenger.gene@, facer.gene@, r@),
{
    let challenge_gene_len = challenger.gene.len();
    let facer_gene_len = facer.gene.len();
    let shorter = if challenge_gene_len <= facer_gene_len {
        challenge_gene_len
    } else {
        facer_gene_len
    };
    let min_length = if shorter <= max as usize {
        shorter
    } else {
        max as usize
    };
    let start_position = (random0 as usize) % min_length;
    let winners = challenger.battle(facer, start_position, min_length);
    proof {
        lemma_battle_feasible(
            challenger.gene@,
            facer.gene@,
            start_position as int,
            min_length as int,
        );
    }
    winners
}

impl Pallet {
    /// The genes of a new swallower named `name` at block `block_number`: the
    /// digest of the runtime's randomness, the block and the name.
    pub fn gen_dna<T: Config>(runtime: &T, name: &Vec<u8>, block_number: BlockNumber) -> (r: [u8;
        16])
        ensures
            exists|random: [u8; 32]| r@ == dna_digest(random@, block_number, name@),
    {
        let random = runtime.random("dna".as_bytes());
        let r = dna_of(&random, block_number, name);
        assert(r@ == dna_digest(random@, block_number, name@));
        r
    }

    /// Takes the price from the minter and gives the minter a new swallower
    /// from `dna` at block `block_number`; a minter at the ownership limit
    /// pays nothing.
    fn mint<T: Config>(
        &mut self,
        runtime: &mut T,
        minter: AccountId,
        name: Vec<u8>,
        trans_info: &TransInfo,
        dna: [u8; 16],
        block_number: BlockNumber,
        max_owned: u32,
    ) -> (r: Result<(), DispatchError>)
        requires
            old(self).wf(),
        ensures
            final(self).wf(),
            settles(
                r,
                old(self)@,
                final(self)@,
                mint_paid_outcome(
                    old(self)@,
                    minter,
                    name@,
                    *trans_info,
                    dna@,
                    block_number,
                    max_owned,
                ),
            ),
    {
        let owned_now = match self.owner_swallower.get(&minter) {
            Some(v) => v.len(),
            None => 0,
        };
        if owned_now >= max_owned as usize {
            return Err(DispatchError::Module(Error::ExceedMaxSwallowerOwned));
        }
        trans_info.transfer_to_manager(runtime, self)?;
        let ghost s1 = self@;
        let ghost name_view = name@;
        assert(owned(s1, minter) == owned(old(self)@, minter));
        match self.mint_record(
            minter,
            name,
            trans_info.asset_id,
            trans_info.fee,
            dna,
            block_number,
            max_owned,
        ) {
            Ok(()) => Ok(()),
            Err(e) => {
                assert(false);
                Err(e)
            },
        }
    }

    /// Mints a swallower named `name` for the caller, who pays the initial
    /// genes at the gene price.
    pub fn mint_swallower<T: Config>(&mut self, runtime: &mut T, origin: Origin, name: Vec<u8>) -> (r:
        Result<(), DispatchError>)
        requires
            old(self).wf(),
        ensures
            final(self).wf(),
            r is Err ==> final(self)@ == old(self)@,
            !(origin is Signed) ==> r == Err::<(), DispatchError>(DispatchError::BadOrigin),
            origin is Signed && name_exists(old(self)@, name@) ==> r == Err::<(), DispatchError>(
                DispatchError::Module(Error::NameRepeated),
            ),
            origin is Signed && !name_exists(old(self)@, name@) && old(self)@.asset_id is None
                ==> r == Err::<(), DispatchError>(DispatchError::Module(Error::NotExistAssetId)),
            exists|
                decimals: u8,
                init_gene_limit: u32,
                balance: Balance,
                random: [u8; 32],
                bn: BlockNumber,
                max_owned: u32,
            |
                dna_digest(random@, bn, name@).len() == 16 && settles(
                    r,
                    old(self)@,
                    final(self)@,
                    #[trigger] mint_swallower_outcome(
                        old(self)@,
                        origin,
                        name@,
                        decimals,
                        init_gene_limit,
                        balance,
                        random@,
                        bn,
                        max_owned,
                    ),
                ),
    {
        let decimals = match self.asset_id {
            Some(a) => runtime.decimals(a),
            None => 0,
        };
        let init_gene_limit = runtime.init_gene_limit();
        let balance = match (origin, self.asset_id) {
            (Origin::Signed(who), Some(a)) => runtime.balance(a, who),
            _ => 0,
        };
        let random = runtime.random("dna".as_bytes());
        let block_number = runtime.block_number();
        let max_owned = runtime.max_swallower_owen();
        self.mint_swallower_with(
            runtime,
            origin,
            name,
            decimals,
            init_gene_limit,
            balance,
            &random,
            block_number,
            max_owned,
        )
    }

    /// Mints a swallower named `name` for the caller, given what the runtime
    /// reports: the asset's decimals, the initial gene count, the caller's
    /// balance, the randomness, the block and the ownership limit. The
    /// runtime is asked only for the payment.
    pub fn mint_swallower_with<T: Config>(
        &mut self,
        runtime: &mut T,
        origin: Origin,
        name: Vec<u8>,
        decimals: u8,
        init_gene_limit: u32,
        balance: Balance,
        random: &[u8; 32],
        block_number: BlockNumber,
        max_owned: u32,
    ) -> (r: Result<(), DispatchError>)
        requires
            old(self).wf(),
        ensures
            final(self).wf(),
            settles(
                r,
                old(self)@,
                final(self)@,
                mint_swallower_outcome(
                    old(self)@,
                    origin,
                    name@,
                    decimals,
                    init_gene_limit,
                    balance,
                    random@,
                    block_number,
                    max_owned,
                ),
            ),
            dna_digest(random@, block_number, name@).len() == 16,
    {
        let dna = dna_of(random, block_number, &name);
        proof {
            broadcast use vstd::array::array_len_matches_n;

            assert(dna@.len() == 16);
        }
        let who = match origin {
            Origin::Signed(w) => w,
            _ => {
                return Err(DispatchError::BadOrigin);
            },
        };
        if self.check_exist_name(&name) {
            return Err(DispatchError::Module(Error::NameRepeated));
        }
        let asset_id = match self.asset_id {
            Some(a) => a,
            None => {
                return Err(DispatchError::Module(Error::NotExistAssetId));
            },
        };
        let price_swallower = self.mint_price(decimals, init_gene_limit)?;
        if balance < price_swallower {
            return Err(DispatchError::Module(Error::NotEnoughMoney));
        }
        let manager = self.manager;
        let trans_info = TransInfo::new(asset_id, who, manager, price_swallower);
        self.mint(runtime, who, name, &trans_info, dna, block_number, max_owned)
    }
}

impl Pallet {
    /// Burns the swallower `hash` of `sender`, the refund `fee` paid.
    pub fn burn_record(
        &mut self,
        swallower_hash: SwallowerHash,
        sender: AccountId,
        asset_id: AssetId,
        fee: Balance,
    ) -> (r: Result<(), DispatchError>)
        requires
            old(self).wf(),
        ensures
            final(self).wf(),
            follows(
                r,
                old(self)@,
                final(self)@,
                burn_outcome(old(self)@, swallower_hash, sender, asset_id, fee),
            ),
    {
        let mut list = match self.owner_swallower.get(&sender) {
            Some(v) => v.duplicate(),
            None => {
                return Err(DispatchError::Module(Error::HashNotFound));
            },
        };
        let index = hash_position(&list, &swallower_hash);
        proof {
            lemma_first_index_of(list@, swallower_hash);
        }
        if index >= list.len() {
            return Err(DispatchError::Module(Error::HashNotFound));
        }
        if !self.swallowers.contains_key(&swallower_hash) {
            return Err(DispatchError::Module(Error::SwallowerNotExist));
        }
        let ghost s0 = self@;
        list.remove(index);
        self.owner_swallower.insert(sender, list);
        let removed = self.swallowers.remove(&swallower_hash);
        let len = match removed {
            Some(sw) => sw.gene.len(),
            None => 0,
        };
        if len > 0 {
            self.gene_amount = self.gene_amount.saturating_sub(len as u64);
        }
        self.swallower_amount = self.swallower_amount.saturating_sub(1);
        let _ = self.safe_zone.remove(&swallower_hash);
        proof {
            assert forall|h: SwallowerHash| #[trigger]
                self@.swallowers.dom().contains(h) implies self@.swallowers[h].owner.is_some()
                && self@.swallowers[h].gene.len() > 0 by {
                assert(s0.swallowers.dom().contains(h));
            }
        }
        self.deposit_event(Event::Burn(sender, asset_id, fee, swallower_hash));
        proof {
            let len = s0.swallowers[swallower_hash].gene.len();
            assert(self@ =~= with_event(
                PalletView {
                    owner_swallower: s0.owner_swallower.insert(
                        sender,
                        remove_first(owned(s0, sender), swallower_hash),
                    ),
                    swallowers: s0.swallowers.remove(swallower_hash),
                    gene_amount: if len > 0 {
                        sat_sub(s0.gene_amount, len as u64)
                    } else {
                        s0.gene_amount
                    },
                    swallower_amount: sat_sub(s0.swallower_amount, 1),
                    safe_zone: s0.safe_zone.remove(swallower_hash),
                    ..s0
                },
                EventView::Burn(sender, asset_id, fee, swallower_hash),
            ));
        }
        Ok(())
    }

    /// Pays the refund to the owner and burns the swallower `hash`; a
    /// swallower the owner does not hold is refused before the refund.
    fn burn<T: Config>(&mut self, runtime: &mut T, swallower_hash: SwallowerHash, trans_info: &TransInfo) -> (r:
        Result<(), DispatchError>)
        requires
            old(self).wf(),
        ensures
            final(self).wf(),
            settles(
                r,
                old(self)@,
                final(self)@,
                burn_paid_outcome(old(self)@, swallower_hash, *trans_info),
            ),
    {
        if !self.owns(trans_info.sender, &swallower_hash) {
            return Err(DispatchError::Module(Error::HashNotFound));
        }
        if !self.swallowers.contains_key(&swallower_hash) {
            return Err(DispatchError::Module(Error::SwallowerNotExist));
        }
        trans_info.transfer_to_sender(runtime, self)?;
        assert(owned(self@, trans_info.sender) == owned(old(self)@, trans_info.sender));
        match self.burn_record(
            swallower_hash,
            trans_info.sender,
            trans_info.asset_id,
            trans_info.fee,
        ) {
            Ok(()) => Ok(()),
            Err(e) => {
                assert(false);
                Err(e)
            },
        }
    }

    /// Burns the caller's swallower `hash` and refunds its genes at the gene
    /// price, less the destroy fee.
    pub fn burn_swallower<T: Config>(&mut self, runtime: &mut T, origin: Origin, hash: SwallowerHash) -> (r:
        Result<(), DispatchError>)
        requires
            old(self).wf(),
            old(self)@.swallower_config.destroy_fee_percent <= 100,
        ensures
            final(self).wf(),
            r is Err ==> final(self)@ == old(self)@,
            !(origin is Signed) ==> r == Err::<(), DispatchError>(DispatchError::BadOrigin),
            origin matches Origin::Signed(who) && !owned(old(self)@, who).contains(hash) ==> r
                == Err::<(), DispatchError>(DispatchError::Module(Error::NotOwner)),
            origin matches Origin::Signed(who) && owned(old(self)@, who).contains(hash)
                && old(self)@.asset_id is None ==> r == Err::<(), DispatchError>(
                DispatchError::Module(Error::NotExistAssetId),
            ),
            exists|decimals: u8, manager_balance: Balance|
                settles(
                    r,
                    old(self)@,
                    final(self)@,
                    #[trigger] burn_swallower_outcome(
                        old(self)@,
                        origin,
                        hash,
                        decimals,
                        manager_balance,
                    ),
                ),
    {
        let decimals = match self.asset_id {
            Some(a) => runtime.decimals(a),
            None => 0,
        };
        let manager_balance = match self.asset_id {
            Some(a) => runtime.balance(a, self.manager),
            None => 0,
        };
        self.burn_swallower_with(runtime, origin, hash, decimals, manager_balance)
    }

    /// Burns the caller's swallower `hash`, given what the runtime reports:
    /// the asset's decimals and the manager's balance. The runtime is asked
    /// only for the refund.
    pub fn burn_swallower_with<T: Config>(
        &mut self,
        runtime: &mut T,
        origin: Origin,
        hash: SwallowerHash,
        decimals: u8,
        manager_balance: Balance,
    ) -> (r: Result<(), DispatchError>)
        requires
            old(self).wf(),
            old(self)@.swallower_config.destroy_fee_percent <= 100,
        ensures
            final(self).wf(),
            settles(
                r,
                old(self)@,
                final(self)@,
                burn_swallower_outcome(old(self)@, origin, hash, decimals, manager_balance),
            ),
    {
        let sender = match origin {
            Origin::Signed(w) => w,
            _ => {
                return Err(DispatchError::BadOrigin);
            },
        };
        if !self.owns(sender, &hash) {
            return Err(DispatchError::Module(Error::NotOwner));
        }
        let asset_id = match self.asset_id {
            Some(a) => a,
            None => {
                return Err(DispatchError::Module(Error::NotExistAssetId));
            },
        };
        let return_balance = self.refund(&hash, decimals)?;
        if manager_balance < return_balance {
            return Err(DispatchError::Module(Error::NotEnoughMoney));
        }
        let manager = self.manager;
        let trans_info = TransInfo::new(asset_id, sender, manager, return_balance);
        self.burn(runtime, hash, &trans_info)
    }

    /// Renames the swallower `hash` to `name`, after the fee was paid.
    pub fn rename_record(
        &mut self,
        sender: AccountId,
        name: Vec<u8>,
        hash: SwallowerHash,
        asset_id: AssetId,
        fee: Balance,
    ) -> (r: Result<(), DispatchError>)
        requires
            old(self).wf(),
        ensures
            final(self).wf(),
            follows(
                r,
                old(self)@,
                final(self)@,
                change_name_outcome(old(self)@, sender, name@, hash, asset_id, fee),
            ),
    {
        let new_amount = match self.asset_amount.checked_add(fee) {
            Some(a) => a,
            None => {
                return Err(DispatchError::Arithmetic(ArithmeticError::Overflow));
            },
        };
        let mut swallower = match self.swallowers.get(&hash) {
            Some(sw) => sw.duplicate(),
            None => {
                return Err(DispatchError::Module(Error::SwallowerNotExist));
            },
        };
        let ghost s0 = self@;
        self.asset_amount = new_amount;
        swallower.name = copy_bytes(&name);
        self.swallowers.insert(hash, swallower);
        proof {
            assert forall|h: SwallowerHash| #[trigger]
                self@.swallowers.dom().contains(h) implies self@.swallowers[h].owner.is_some()
                && self@.swallowers[h].gene.len() > 0 by {
                assert(s0.swallowers.dom().contains(h));
            }
        }
        self.deposit_event(Event::ChangeName(sender, name, asset_id, fee, hash));
        Ok(())
    }

    /// Takes the fee from `sender` and renames the swallower `hash` to
    /// `name`; a renaming the game refuses is refused before the payment.
    pub fn change_name<T: Config>(
        &mut self,
        runtime: &mut T,
        sender: AccountId,
        name: Vec<u8>,
        hash: SwallowerHash,
        asset_id: AssetId,
        fee: Balance,
    ) -> (r: Result<(), DispatchError>)
        requires
            old(self).wf(),
        ensures
            final(self).wf(),
            settles(
                r,
                old(self)@,
                final(self)@,
                change_name_paid_outcome(old(self)@, sender, name@, hash, asset_id, fee),
            ),
    {
        if self.asset_amount.checked_add(fee).is_none() {
            return Err(DispatchError::Arithmetic(ArithmeticError::Overflow));
        }
        if !self.swallowers.contains_key(&hash) {
            return Err(DispatchError::Module(Error::SwallowerNotExist));
        }
        let manager = self.manager;
        assert(change_name_paid_outcome(old(self)@, sender, name@, hash, asset_id, fee)->Ok_0.payments.len()
            == old(self)@.payments.len() + 1);
        pay(runtime, &mut self.payments, (asset_id, sender, manager, fee, false))?;
        match self.rename_record(sender, name, hash, asset_id, fee) {
            Ok(()) => Ok(()),
            Err(e) => {
                assert(false);
                Err(e)
            },
        }
    }

    /// Renames the caller's swallower `hash` to `name`, for the rename fee.
    pub fn change_swallower_name<T: Config>(
        &mut self,
        runtime: &mut T,
        origin: Origin,
        hash: SwallowerHash,
        name: Vec<u8>,
    ) -> (r: Result<(), DispatchError>)
        requires
            old(self).wf(),
        ensures
            final(self).wf(),
            r is Err ==> final(self)@ == old(self)@,
            !(origin is Signed) ==> r == Err::<(), DispatchError>(DispatchError::BadOrigin),
            origin matches Origin::Signed(who) && !owned(old(self)@, who).contains(hash) ==> r
                == Err::<(), DispatchError>(DispatchError::Module(Error::NotOwner)),
            origin matches Origin::Signed(who) && owned(old(self)@, who).contains(hash)
                && name_exists(old(self)@, name@) ==> r == Err::<(), DispatchError>(
                DispatchError::Module(Error::NameRepeated),
            ),
            origin matches Origin::Signed(who) && owned(old(self)@, who).contains(hash)
                && !name_exists(old(self)@, name@) && old(self)@.asset_id is None ==> r == Err::<
                (),
                DispatchError,
            >(DispatchError::Module(Error::NotExistAssetId)),
            exists|decimals: u8, balance: Balance|
                settles(
                    r,
                    old(self)@,
                    final(self)@,
                    #[trigger] change_swallower_name_outcome(
                        old(self)@,
                        origin,
                        hash,
                        name@,
                        decimals,
                        balance,
                    ),
                ),
    {
        let decimals = match self.asset_id {
            Some(a) => runtime.decimals(a),
            None => 0,
        };
        let balance = match (origin, self.asset_id) {
            (Origin::Signed(who), Some(a)) => runtime.balance(a, who),
            _ => 0,
        };
        self.change_swallower_name_with(runtime, origin, hash, name, decimals, balance)
    }

    /// Renames the caller's swallower `hash` to `name`, given what the
    /// runtime reports: the asset's decimals and the caller's balance. The
    /// runtime is asked only for the fee.
    pub fn change_swallower_name_with<T: Config>(
        &mut self,
        runtime: &mut T,
        origin: Origin,
        hash: SwallowerHash,
        name: Vec<u8>,
        decimals: u8,
        balance: Balance,
    ) -> (r: Result<(), DispatchError>)
        requires
            old(self).wf(),
        ensures
            final(self).wf(),
            settles(
                r,
                old(self)@,
                final(self)@,
                change_swallower_name_outcome(old(self)@, origin, hash, name@, decimals, balance),
            ),
    {
        let sender = match origin {
            Origin::Signed(w) => w,
            _ => {
                return Err(DispatchError::BadOrigin);
            },
        };
        if !self.owns(sender, &hash) {
            return Err(DispatchError::Module(Error::NotOwner));
        }
        if self.check_exist_name(&name) {
            return Err(DispatchError::Module(Error::NameRepeated));
        }
        let asset_id = match self.asset_id {
            Some(a) => a,
            None => {
                return Err(DispatchError::Module(Error::NotExistAssetId));
            },
        };
        let change_name_fee = self.rename_fee(decimals)?;
        if balance < change_name_fee {
            return Err(DispatchError::Module(Error::NotEnoughMoney));
        }
        self.change_name(runtime, sender, name, hash, asset_id, change_name_fee)
    }

    /// Buys protection in the safe zone for the caller's swallower `hash`,
    /// for `height` blocks.
    pub fn user_entre_safe_zone<T: Config>(
        &mut self,
        runtime: &mut T,
        origin: Origin,
        hash: SwallowerHash,
        height: BlockNumber,
    ) -> (r: Result<(), DispatchError>)
        requires
            old(self).wf(),
        ensures
            final(self).wf(),
            !(origin is Signed) ==> r == Err::<(), DispatchError>(DispatchError::BadOrigin)
                && final(self)@ == old(self)@,
            origin matches Origin::Signed(who) && !owned(old(self)@, who).contains(hash) ==> r
                == Err::<(), DispatchError>(DispatchError::Module(Error::NotOwner)) && final(self)@
                == old(self)@,
            exists|decimals: u8, balance: Balance, bn: BlockNumber|
                settles(
                    r,
                    checked_for_owner(old(self)@, origin, hash, bn),
                    final(self)@,
                    #[trigger] user_entre_safe_zone_outcome(
                        old(self)@,
                        origin,
                        hash,
                        height,
                        decimals,
                        balance,
                        bn,
                    ),
                ),
    {
        let block_number = runtime.block_number();
        let decimals = match self.asset_id {
            Some(a) => runtime.decimals(a),
            None => 0,
        };
        let balance = match (origin, self.asset_id) {
            (Origin::Signed(who), Some(a)) => runtime.balance(a, who),
            _ => 0,
        };
        self.user_entre_safe_zone_with(runtime, origin, hash, height, decimals, balance, block_number)
    }

    /// Buys protection in the safe zone for the caller's swallower `hash`,
    /// for `height` blocks, given what the runtime reports: the asset's
    /// decimals, the caller's balance and the block. The runtime is asked
    /// only for the fee.
    pub fn user_entre_safe_zone_with<T: Config>(
        &mut self,
        runtime: &mut T,
        origin: Origin,
        hash: SwallowerHash,
        height: BlockNumber,
        decimals: u8,
        balance: Balance,
        block_number: BlockNumber,
    ) -> (r: Result<(), DispatchError>)
        requires
            old(self).wf(),
        ensures
            final(self).wf(),
            settles(
                r,
                checked_for_owner(old(self)@, origin, hash, block_number),
                final(self)@,
                user_entre_safe_zone_outcome(
                    old(self)@,
                    origin,
                    hash,
                    height,
                    decimals,
                    balance,
                    block_number,
                ),
            ),
    {
        let sender = match origin {
            Origin::Signed(w) => w,
            _ => {
                return Err(DispatchError::BadOrigin);
            },
        };
        if !self.owns(sender, &hash) {
            return Err(DispatchError::Module(Error::NotOwner));
        }
        let ghost checked = after_safe_zone_check(old(self)@, hash, block_number);
        if self.check_in_safe_zone(hash, block_number) {
            return Err(DispatchError::Module(Error::SwallowerInSafeZone));
        }
        let locked = match self.battle_zone_reward_map.get(&hash) {
            Some(last) => match last.block_number.checked_add(
                self.swallower_config.battle_zone_reward_block as u64,
            ) {
                Some(end) => end > block_number,
                None => true,
            },
            None => false,
        };
        if locked {
            return Err(DispatchError::Module(Error::RewardTooClose));
        }
        let swallower_config = self.swallower_config;
        if height >= swallower_config.protect_max_length as u64 {
            return Err(DispatchError::Module(Error::OverMaxHeight));
        }
        let asset_id = match self.asset_id {
            Some(a) => a,
            None => {
                return Err(DispatchError::Module(Error::NotExistAssetId));
            },
        };
        let height32: u32 = height as u32;
        let protect_fee = self.protection_fee(&hash, height32, decimals)?;
        if balance < protect_fee {
            return Err(DispatchError::Module(Error::NotEnoughMoney));
        }
        let start_block = block_number;
        let end_block = start_block.saturating_add(height32 as u64);
        let manager = self.manager;
        let trans_info = TransInfo::new(asset_id, sender, manager, protect_fee);
        trans_info.transfer_to_manager(runtime, self)?;
        self.entre_safe_zone(hash, start_block, end_block);
        Ok(())
    }

    /// Takes the caller's swallower `hash` out of the safe zone.
    pub fn user_exit_safe_zone<T: Config>(
        &mut self,
        runtime: &mut T,
        origin: Origin,
        hash: SwallowerHash,
    ) -> (r: Result<(), DispatchError>)
        requires
            old(self).wf(),
        ensures
            final(self).wf(),
            exists|bn: BlockNumber|
                #[trigger] user_exit_safe_zone_outcome(old(self)@, origin, hash, bn) == (
                    r,
                    final(self)@,
                ),
    {
        let block_number = runtime.block_number();
        self.user_exit_safe_zone_with(origin, hash, block_number)
    }

    /// Takes the caller's swallower `hash` out of the safe zone at block
    /// `block_number`, the block the runtime reports.
    pub fn user_exit_safe_zone_with(&mut self, origin: Origin, hash: SwallowerHash, block_number: BlockNumber) -> (r:
        Result<(), DispatchError>)
        requires
            old(self).wf(),
        ensures
            final(self).wf(),
            user_exit_safe_zone_outcome(old(self)@, origin, hash, block_number) == (r, final(self)@),
    {
        let sender = match origin {
            Origin::Signed(w) => w,
            _ => {
                return Err(DispatchError::BadOrigin);
            },
        };
        if !self.owns(sender, &hash) {
            return Err(DispatchError::Module(Error::NotOwner));
        }
        if !self.check_in_safe_zone(hash, block_number) {
            return Err(DispatchError::Module(Error::SwallowerNotInSafeZone));
        }
        self.exit_safe_zone(hash, block_number);
        Ok(())
    }

    /// Pays the reward to the owner of the swallower `hash` and records it at
    /// block `block_number`.
    fn claim_reward_in_battle_zone<T: Config>(
        &mut self,
        runtime: &mut T,
        swallower_hash: SwallowerHash,
        trans_info: &TransInfo,
        block_number: BlockNumber,
    ) -> (r: Result<(), DispatchError>)
        requires
            old(self).wf(),
        ensures
            final(self).wf(),
            settles(
                r,
                old(self)@,
                final(self)@,
                rewarded(old(self)@, swallower_hash, *trans_info, block_number),
            ),
    {
        trans_info.transfer_to_sender(runtime, self)?;
        let ghost s1 = self@;
        let battle_zone_reward = BattleZoneReward::new(block_number, trans_info.fee);
        self.battle_zone_reward_map.insert(swallower_hash, battle_zone_reward);
        self.deposit_event(
            Event::BattleZoneReward(swallower_hash, block_number, trans_info.fee),
        );
        proof {
            assert(self@ =~= with_event(
                PalletView {
                    battle_zone_reward_map: s1.battle_zone_reward_map.insert(
                        swallower_hash,
                        BattleZoneReward { block_number, fee: trans_info.fee },
                    ),
                    ..s1
                },
                EventView::BattleZoneReward(swallower_hash, block_number, trans_info.fee),
            ));
        }
        Ok(())
    }

    /// Claims the battle zone reward for the caller's swallower `hash`.
    pub fn user_claim_reward_in_battle_zone<T: Config>(
        &mut self,
        runtime: &mut T,
        origin: Origin,
        hash: SwallowerHash,
    ) -> (r: Result<(), DispatchError>)
        requires
            old(self).wf(),
            claim_arithmetic_fits(old(self)@, hash),
        ensures
            final(self).wf(),
            !(origin is Signed) ==> r == Err::<(), DispatchError>(DispatchError::BadOrigin)
                && final(self)@ == old(self)@,
            origin matches Origin::Signed(who) && !owned(old(self)@, who).contains(hash) ==> r
                == Err::<(), DispatchError>(DispatchError::Module(Error::NotOwner)) && final(self)@
                == old(self)@,
            exists|decimals: u8, bn: BlockNumber|
                settles(
                    r,
                    checked_for_owner(old(self)@, origin, hash, bn),
                    final(self)@,
                    #[trigger] user_claim_reward_outcome(old(self)@, origin, hash, decimals, bn),
                ),
    {
        let block_number = runtime.block_number();
        let decimals = match self.asset_id {
            Some(a) => runtime.decimals(a),
            None => 0,
        };
        self.user_claim_reward_in_battle_zone_with(runtime, origin, hash, decimals, block_number)
    }

    /// Claims the battle zone reward for the caller's swallower `hash`, given
    /// what the runtime reports: the asset's decimals and the block. The
    /// runtime is asked only for the reward.
    pub fn user_claim_reward_in_battle_zone_with<T: Config>(
        &mut self,
        runtime: &mut T,
        origin: Origin,
        hash: SwallowerHash,
        decimals: u8,
        block_number: BlockNumber,
    ) -> (r: Result<(), DispatchError>)
        requires
            old(self).wf(),
            claim_arithmetic_fits(old(self)@, hash),
        ensures
            final(self).wf(),
            settles(
                r,
                checked_for_owner(old(self)@, origin, hash, block_number),
                final(self)@,
                user_claim_reward_outcome(old(self)@, origin, hash, decimals, block_number),
            ),
    {
        let sender = match origin {
            Origin::Signed(w) => w,
            _ => {
                return Err(DispatchError::BadOrigin);
            },
        };
        if !self.owns(sender, &hash) {
            return Err(DispatchError::Module(Error::NotOwner));
        }
        if self.check_in_safe_zone(hash, block_number) {
            return Err(DispatchError::Module(Error::SwallowerInSafeZone));
        }
        proof {
            assert(protected_at(self@, block_number) =~= protected_at(old(self)@, block_number));
            assert(reward_open_of(self@, hash, block_number) == reward_open_of(
                old(self)@,
                hash,
                block_number,
            ));
        }
        self.reward_open(&hash, block_number)?;
        let asset_id = match self.asset_id {
            Some(a) => a,
            None => {
                if self.swallowers.contains_key(&hash) {
                    return Err(DispatchError::Module(Error::NotExistAssetId));
                }
                return Err(DispatchError::Module(Error::SwallowerNotExist));
            },
        };
        let fee = self.reward_fee(&hash, decimals)?;
        let manager = self.manager;
        let trans_info = TransInfo::new(asset_id, sender, manager, fee);
        self.claim_reward_in_battle_zone(runtime, hash, &trans_info, block_number)
    }
}

impl Pallet {
    /// Stores a fighter after a battle, or burns it if it has no genes left.
    fn settle(&mut self, sw: SwallowerStruct) -> (r: Result<SwallowerHash, DispatchError>)
        requires
            old(self).wf(),
            sw.owner.is_some(),
        ensures
            final(self).wf(),
            battle_frame(old(self)@, final(self)@),
            match r {
                Ok(h) => settle(old(self)@, sw@) == Ok::<
                    (PalletView, SwallowerHash),
                    DispatchError,
                >((final(self)@, h)),
                Err(e) => settle(old(self)@, sw@) == Err::<(PalletView, SwallowerHash), DispatchError>(
                    e,
                ) && final(self)@ == old(self)@,
            },
    {
        proof {
            assert(old(self)@.events.subrange(0, old(self)@.events.len() as int)
                =~= old(self)@.events);
        }
        let h = match sw.hash {
            Some(h) => h,
            None => {
                return Err(DispatchError::Module(Error::HashNotFound));
            },
        };
        if sw.is_destroy() {
            let owner = match sw.owner {
                Some(o) => o,
                None => {
                    return Err(DispatchError::Module(Error::HashNotFound));
                },
            };
            let asset_id = match self.asset_id {
                Some(a) => a,
                None => {
                    return Err(DispatchError::Module(Error::NotExistAssetId));
                },
            };
            let r = self.burn_record(h, owner, asset_id, 0);
            proof {
                if r is Ok {
                    assert(self@.events.subrange(0, old(self)@.events.len() as int)
                        =~= old(self)@.events);
                } else {
                    assert(old(self)@.events.subrange(0, old(self)@.events.len() as int)
                        =~= old(self)@.events);
                }
            }
            r?;
        } else {
            let ghost s0 = self@;
            self.swallowers.insert(h, sw);
            proof {
                assert forall|k: SwallowerHash| #[trigger]
                    self@.swallowers.dom().contains(k) implies self@.swallowers[k].owner.is_some()
                    && self@.swallowers[k].gene.len() > 0 by {
                    if k != h {
                        assert(s0.swallowers.dom().contains(k));
                    }
                }
                assert(self@ =~= PalletView { swallowers: s0.swallowers.insert(h, sw@), ..s0 });
                assert(self@.events.subrange(0, old(self)@.events.len() as int)
                    =~= old(self)@.events);
            }
        }
        Ok(h)
    }

    /// Settles a battle whose positions came out as `winners`, without
    /// undoing anything on failure.
    fn settle_battle(
        &mut self,
        winners: Vec<Winner>,
        challenger: SwallowerStruct,
        facer: SwallowerStruct,
        block_number: BlockNumber,
    ) -> (r: Result<(), DispatchError>)
        requires
            old(self).wf(),
            feasible(challenger.gene@, facer.gene@, winners@),
            challenger.owner.is_some(),
            facer.owner.is_some(),
        ensures
            final(self).wf(),
            battle_frame(old(self)@, final(self)@),
            match r {
                Ok(_) => handle_battle_result_outcome(
                    old(self)@,
                    winners@,
                    challenger@,
                    facer@,
                    block_number,
                ) == Ok::<PalletView, DispatchError>(final(self)@),
                Err(e) => handle_battle_result_outcome(
                    old(self)@,
                    winners@,
                    challenger@,
                    facer@,
                    block_number,
                ) == Err::<PalletView, DispatchError>(e),
            },
    {
        let ghost ws = winners@;
        let ghost c0 = challenger@;
        let ghost f0 = facer@;
        let ghost g0 = self.gene_amount;
        let mut challenger = challenger;
        let mut facer = facer;
        let mut challenger_win_genes: Vec<u8> = Vec::new();
        let mut facer_win_genes: Vec<u8> = Vec::new();
        let mut none_win_genes: Vec<(u8, u8)> = Vec::new();
        let mut i: usize = 0;
        proof {
            assert(ws.take(0) =~= Seq::<Winner>::empty());
            assert(ws.skip(0) =~= ws);
            assert(tally(c0.gene, f0.gene, ws.take(0)) =~= BattleTally {
                challenger_gene: challenger.gene@,
                facer_gene: facer.gene@,
                challenger_wins: challenger_win_genes@,
                facer_wins: facer_win_genes@,
                draws: none_win_genes@,
            });
        }
        while i < winners.len()
            invariant
                ws == winners@,
                0 <= i <= ws.len(),
                tally(c0.gene, f0.gene, ws.take(i as int)) == (BattleTally {
                    challenger_gene: challenger.gene@,
                    facer_gene: facer.gene@,
                    challenger_wins: challenger_win_genes@,
                    facer_wins: facer_win_genes@,
                    draws: none_win_genes@,
                }),
                challenger_losses(ws.skip(i as int)).to_multiset().subset_of(
                    challenger.gene@.to_multiset(),
                ),
                facer_losses(ws.skip(i as int)).to_multiset().subset_of(facer.gene@.to_multiset()),
                challenger@ == (SwallowerView { gene: challenger.gene@, ..c0 }),
                facer@ == (SwallowerView { gene: facer.gene@, ..f0 }),
                self.gene_amount == draw_genes_left(g0, none_win_genes@.len()),
                self@ == (PalletView { gene_amount: self.gene_amount, ..old(self)@ }),
                self.wf(),
            decreases ws.len() - i,
        {
            proof {
                lemma_losses_split(ws, i as int);
                lemma_tally_step(c0.gene, f0.gene, ws, i as int);
            }
            let ghost t = tally(c0.gene, f0.gene, ws.take(i as int));
            let ghost s_before = self@;
            match winners[i] {
                Winner::Challenger(f) => {
                    let f = f as u8;
                    proof {
                        lemma_keep(challenger.gene@, challenger_losses(ws.skip(i + 1)));
                        lemma_gain(challenger.gene@, f, challenger_losses(ws.skip(i + 1)));
                        lemma_lose(facer.gene@, f, facer_losses(ws.skip(i + 1)));
                    }
                    challenger.evolve_gene(f);
                    facer.lost_gene(f);
                    challenger_win_genes.push(f);
                },
                Winner::Facer(c) => {
                    let c = c as u8;
                    proof {
                        lemma_keep(facer.gene@, facer_losses(ws.skip(i + 1)));
                        lemma_gain(facer.gene@, c, facer_losses(ws.skip(i + 1)));
                        lemma_lose(challenger.gene@, c, challenger_losses(ws.skip(i + 1)));
                    }
                    facer.evolve_gene(c);
                    challenger.lost_gene(c);
                    facer_win_genes.push(c);
                },
                Winner::NoneWin(c, f) => {
                    let c = c as u8;
                    let f = f as u8;
                    proof {
                        lemma_lose(challenger.gene@, c, challenger_losses(ws.skip(i + 1)));
                        lemma_lose(facer.gene@, f, facer_losses(ws.skip(i + 1)));
                    }
                    challenger.lost_gene(c);
                    facer.lost_gene(f);
                    none_win_genes.push((c, f));
                    self.gene_amount = self.gene_amount.saturating_sub(2);
                },
            }
            proof {
                assert(tally(c0.gene, f0.gene, ws.take(i + 1)) =~= BattleTally {
                    challenger_gene: challenger.gene@,
                    facer_gene: facer.gene@,
                    challenger_wins: challenger_win_genes@,
                    facer_wins: facer_win_genes@,
                    draws: none_win_genes@,
                });
                assert(challenger@ =~= SwallowerView { gene: challenger.gene@, ..c0 });
                assert(facer@ =~= SwallowerView { gene: facer.gene@, ..f0 });
                assert(self@ =~= PalletView { gene_amount: self.gene_amount, ..old(self)@ });
            }
            i = i + 1;
        }
        let ghost t = tally(c0.gene, f0.gene, ws);
        proof {
            assert(ws.take(ws.len() as int) =~= ws);
            assert(self@ =~= PalletView {
                gene_amount: draw_genes_left(old(self)@.gene_amount, t.draws.len()),
                ..old(self)@
            });
            assert(self@.events.subrange(0, old(self)@.events.len() as int) =~= old(self)@.events);
        }
        let ghost s0 = self@;
        let challenger_hash = self.settle(challenger)?;
        let ghost s1 = self@;
        let facer_hash = match self.settle(facer) {
            Ok(h) => h,
            Err(e) => {
                return Err(e);
            },
        };
        let ghost s2 = self@;
        let challenger_count = challenger_win_genes.len();
        let facer_count = facer_win_genes.len();
        let is_challenge_success = challenger_count > facer_count;
        let auto_enter_safe_zone_block_number =
            self.protect_zone_config.auto_enter_safe_zone_block_number;
        let start_block = block_number;
        let end_block = start_block.saturating_add(auto_enter_safe_zone_block_number as u64);
        if is_challenge_success {
            self.entre_safe_zone(facer_hash, start_block, end_block);
        } else {
            self.entre_safe_zone(challenger_hash, start_block, end_block);
        }
        self.deposit_event(
            Event::BattleResult(
                is_challenge_success,
                challenger_win_genes,
                facer_win_genes,
                none_win_genes,
            ),
        );
        proof {
            assert(self@.events.subrange(0, old(self)@.events.len() as int) =~= old(self)@.events);
        }
        Ok(())
    }

    /// Settles a battle whose positions came out as `winners` at block
    /// `block_number`; on failure the storage is left as it was.
    pub fn handle_battle_result(
        &mut self,
        winners: Vec<Winner>,
        challenger: SwallowerStruct,
        facer: SwallowerStruct,
        block_number: BlockNumber,
    ) -> (r: Result<(), DispatchError>)
        requires
            old(self).wf(),
            feasible(challenger.gene@, facer.gene@, winners@),
            challenger.owner.is_some(),
            facer.owner.is_some(),
        ensures
            final(self).wf(),
            r is Ok ==> battle_frame(old(self)@, final(self)@),
            follows(
                r,
                old(self)@,
                final(self)@,
                handle_battle_result_outcome(
                    old(self)@,
                    winners@,
                    challenger@,
                    facer@,
                    block_number,
                ),
            ),
    {
        let saved_gene_amount = self.gene_amount;
        let saved_swallower_amount = self.swallower_amount;
        let saved_owner_swallower = self.owner_swallower.duplicate();
        let saved_swallowers = self.swallowers.duplicate();
        let saved_safe_zone = self.safe_zone.duplicate();
        let saved_events_len = self.events.len();
        match self.settle_battle(winners, challenger, facer, block_number) {
            Ok(()) => Ok(()),
            Err(e) => {
                let ghost failed = self@;
                self.gene_amount = saved_gene_amount;
                self.swallower_amount = saved_swallower_amount;
                self.owner_swallower = saved_owner_swallower;
                self.swallowers = saved_swallowers;
                self.safe_zone = saved_safe_zone;
                self.events.truncate(saved_events_len);
                proof {
                    assert(self@.events =~= failed.events.subrange(0, saved_events_len as int));
                    assert(self@ =~= old(self)@);
                }
                Err(e)
            },
        }
    }
}

impl Pallet {
    /// Fights `challenger` against `facer` at block `block_number`, the
    /// battle parts beginning at the random byte `random0`, and takes the
    /// challenge fee: the count of the game's tokens is checked before the
    /// battle, and where the runtime refuses the fee the battle is undone.
    fn battle<T: Config>(
        &mut self,
        runtime: &mut T,
        challenger: SwallowerStruct,
        facer: SwallowerStruct,
        trans_info: &TransInfo,
        block_number: BlockNumber,
        random0: u8,
    ) -> (r: Result<(), DispatchError>)
        requires
            old(self).wf(),
            old(self)@.swallower_config.max_challenge_length > 0,
            challenger.gene@.len() > 0,
            facer.gene@.len() > 0,
            challenger.owner.is_some(),
            facer.owner.is_some(),
        ensures
            final(self).wf(),
            settles(
                r,
                old(self)@,
                final(self)@,
                battle_paid_outcome(
                    old(self)@,
                    battle_winners(
                        challenger@,
                        facer@,
                        random0,
                        old(self)@.swallower_config.max_challenge_length,
                    ),
                    challenger@,
                    facer@,
                    *trans_info,
                    block_number,
                ),
            ),
    {
        if trans_info.fee != 0 && self.asset_amount.checked_add(trans_info.fee).is_none() {
            return Err(DispatchError::Arithmetic(ArithmeticError::Overflow));
        }
        let max_challenge_length = self.swallower_config.max_challenge_length;
        let winners = battle_positions(&challenger, &facer, random0, max_challenge_length);
        let saved_gene_amount = self.gene_amount;
        let saved_swallower_amount = self.swallower_amount;
        let saved_owner_swallower = self.owner_swallower.duplicate();
        let saved_swallowers = self.swallowers.duplicate();
        let saved_safe_zone = self.safe_zone.duplicate();
        let saved_events_len = self.events.len();
        self.handle_battle_result(winners, challenger, facer, block_number)?;
        let ghost fought = self@;
        assert(battle_frame(old(self)@, fought));
        match trans_info.transfer_to_manager(runtime, self) {
            Ok(()) => Ok(()),
            Err(e) => {
                self.gene_amount = saved_gene_amount;
                self.swallower_amount = saved_swallower_amount;
                self.owner_swallower = saved_owner_swallower;
                self.swallowers = saved_swallowers;
                self.safe_zone = saved_safe_zone;
                self.events.truncate(saved_events_len);
                proof {
                    assert(self@.events =~= fought.events.subrange(0, saved_events_len as int));
                    assert(self@ =~= old(self)@);
                }
                Err(e)
            },
        }
    }

    /// The caller's challenge of the swallower `facer` by the swallower
    /// `challenger`: neither may be protected, the facer's owner may not
    /// challenge, and the challenge fee is the gene price times the challenge
    /// fee ratio.
    pub fn make_battle<T: Config>(
        &mut self,
        runtime: &mut T,
        origin: Origin,
        challenger: SwallowerHash,
        facer: SwallowerHash,
    ) -> (r: Result<(), DispatchError>)
        requires
            old(self).wf(),
            old(self)@.swallower_config.max_challenge_length > 0,
        ensures
            final(self).wf(),
            !(origin is Signed) ==> r == Err::<(), DispatchError>(DispatchError::BadOrigin)
                && final(self)@ == old(self)@,
            origin is Signed && (!old(self)@.swallowers.dom().contains(facer)
                || !old(self)@.swallowers.dom().contains(challenger)) ==> r == Err::<
                (),
                DispatchError,
            >(DispatchError::Module(Error::SwallowerNotExist)) && final(self)@ == old(self)@,
            origin matches Origin::Signed(sender) && old(self)@.swallowers.dom().contains(facer)
                && old(self)@.swallowers.dom().contains(challenger)
                && old(self)@.swallowers[facer].owner == Some(sender) ==> r == Err::<
                (),
                DispatchError,
            >(DispatchError::Module(Error::WithSelf)) && final(self)@ == old(self)@,
            exists|decimals: u8, balance: Balance, random0: u8, bn: BlockNumber|
                settles(
                    r,
                    checked_for_battle(old(self)@, origin, challenger, facer, bn),
                    final(self)@,
                    #[trigger] make_battle_outcome(
                        old(self)@,
                        origin,
                        challenger,
                        facer,
                        decimals,
                        balance,
                        random0,
                        bn,
                    ),
                ),
    {
        let block_number = runtime.block_number();
        let decimals = match self.asset_id {
            Some(a) => runtime.decimals(a),
            None => 0,
        };
        let balance = match (origin, self.asset_id) {
            (Origin::Signed(who), Some(a)) => runtime.balance(a, who),
            _ => 0,
        };
        let random = runtime.random("battle".as_bytes());
        self.make_battle_with(runtime, origin, challenger, facer, decimals, balance, random[0], block_number)
    }

    /// The caller's challenge of the swallower `facer` by the swallower
    /// `challenger`, given what the runtime reports: the asset's decimals,
    /// the caller's balance, the first random byte and the block. The
    /// runtime is asked only for the fee.
    pub fn make_battle_with<T: Config>(
        &mut self,
        runtime: &mut T,
        origin: Origin,
        challenger: SwallowerHash,
        facer: SwallowerHash,
        decimals: u8,
        balance: Balance,
        random0: u8,
        block_number: BlockNumber,
    ) -> (r: Result<(), DispatchError>)
        requires
            old(self).wf(),
            old(self)@.swallower_config.max_challenge_length > 0,
        ensures
            final(self).wf(),
            settles(
                r,
                checked_for_battle(old(self)@, origin, challenger, facer, block_number),
                final(self)@,
                make_battle_outcome(
                    old(self)@,
                    origin,
                    challenger,
                    facer,
                    decimals,
                    balance,
                    random0,
                    block_number,
                ),
            ),
    {
        let sender = match origin {
            Origin::Signed(w) => w,
            _ => {
                return Err(DispatchError::BadOrigin);
            },
        };
        let facer_swallower = match self.swallowers.get(&facer) {
            Some(sw) => sw.duplicate(),
            None => {
                return Err(DispatchError::Module(Error::SwallowerNotExist));
            },
        };
        let challenger_swallower = match self.swallowers.get(&challenger) {
            Some(sw) => sw.duplicate(),
            None => {
                return Err(DispatchError::Module(Error::SwallowerNotExist));
            },
        };
        let facer_owner = match facer_swallower.owner {
            Some(o) => o,
            None => {
                return Err(DispatchError::Module(Error::SwallowerNotExist));
            },
        };
        if sender == facer_owner {
            return Err(DispatchError::Module(Error::WithSelf));
        }
        let is_in_safe = self.check_in_safe_zone(challenger, block_number);
        let is_in_safe_facer = self.check_in_safe_zone(facer, block_number);
        if is_in_safe {
            return Err(DispatchError::Module(Error::SwallowerInSafeZone));
        }
        if is_in_safe_facer {
            return Err(DispatchError::Module(Error::SwallowerInSafeZone));
        }
        let asset_id = match self.asset_id {
            Some(a) => a,
            None => {
                return Err(DispatchError::Module(Error::NotExistAssetId));
            },
        };
        let challenge_fee = self.challenge_fee(decimals)?;
        if balance < challenge_fee {
            return Err(DispatchError::Module(Error::NotEnoughMoney));
        }
        let manager = self.manager;
        let trans_info = TransInfo::new(asset_id, sender, manager, challenge_fee);
        self.battle(runtime, challenger_swallower, facer_swallower, &trans_info, block_number, random0)
    }
}

/// Has the runtime make the transfer `p`, read as (asset, payer, payee,
/// amount, keep the payer alive), and records it where the runtime makes it.
/// A refusal is passed on as the runtime gives it, except that an error in
/// the game's own terms is reported as an error of the assets by its number:
/// the game's errors are the game's to give.
fn pay<T: Config>(runtime: &mut T, log: &mut Ghost<Seq<Payment>>, p: Payment) -> (r: Result<
    (),
    DispatchError,
>)
    ensures
        r is Ok ==> final(log)@ == old(log)@.push(p),
        r is Err ==> final(log)@ == old(log)@,
        r matches Err(e) ==> !(e is Module),
{
    match runtime.transfer(p.0, p.1, p.2, p.3, p.4) {
        Ok(()) => {
            *log = Ghost(log@.push(p));
            Ok(())
        },
        Err(DispatchError::Module(e)) => Err(DispatchError::Assets(error_code(e))),
        Err(e) => Err(e),
    }
}

/// The number of an error of the game, in the order of its declaration.
pub fn error_code(e: Error) -> (r: u32)
    ensures
        r < 15,
{
    match e {
        Error::NotAdmin => 0,
        Error::NotExistAdmin => 1,
        Error::NotExistAssetId => 2,
        Error::NotEnoughMoney => 3,
        Error::ExceedMaxSwallowerOwned => 4,
        Error::NameRepeated => 5,
        Error::NotOwner => 6,
        Error::SwallowerNotExist => 7,
        Error::SwallowerInSafeZone => 8,
        Error::SwallowerNotInSafeZone => 9,
        Error::WithSelf => 10,
        Error::HashNotFound => 11,
        Error::OverMaxHeight => 12,
        Error::RewardRatioLessThanAmount => 13,
        Error::RewardTooClose => 14,
    }
}

impl TransInfo {
    /// Moves a nonzero fee from the player to the manager, counts it in the
    /// tokens the game holds and records the payment. The count is checked
    /// before the transfer, so a fee that would overflow it moves nothing;
    /// where the runtime refuses the transfer nothing changes either.
    pub fn transfer_to_manager<T: Config>(&self, runtime: &mut T, pallet: &mut Pallet) -> (r: Result<
        (),
        DispatchError,
    >)
        requires
            old(pallet).wf(),
        ensures
            final(pallet).wf(),
            settles(r, old(pallet)@, final(pallet)@, paid_in(old(pallet)@, *self)),
            self.fee == 0 ==> r is Ok && final(pallet)@ == old(pallet)@,
    {
        if self.fee != 0 {
            let amount = match pallet.asset_amount.checked_add(self.fee) {
                Some(p) => p,
                None => {
                    return Err(DispatchError::Arithmetic(ArithmeticError::Overflow));
                },
            };
            assert(paid_in(old(pallet)@, *self)->Ok_0.payments.len() == old(pallet)@.payments.len()
                + 1);
            pay(runtime, &mut pallet.payments, (self.asset_id, self.sender, self.manager, self.fee, true))?;
            pallet.asset_amount = amount;
        }
        proof {
            assert(self.fee != 0 ==> pallet@ =~= paid_in(old(pallet)@, *self)->Ok_0);
            assert(self.fee == 0 ==> pallet@ =~= old(pallet)@);
        }
        Ok(())
    }

    /// Moves a nonzero fee from the manager to the player, takes it from the
    /// tokens the game holds and records the payment. The count is checked
    /// before the transfer, so a fee larger than it moves nothing; where the
    /// runtime refuses the transfer nothing changes either.
    pub fn transfer_to_sender<T: Config>(&self, runtime: &mut T, pallet: &mut Pallet) -> (r: Result<
        (),
        DispatchError,
    >)
        requires
            old(pallet).wf(),
        ensures
            final(pallet).wf(),
            settles(r, old(pallet)@, final(pallet)@, paid_out(old(pallet)@, *self)),
            self.fee == 0 ==> r is Ok && final(pallet)@ == old(pallet)@,
    {
        if self.fee != 0 {
            let amount = match pallet.asset_amount.checked_sub(self.fee) {
                Some(p) => p,
                None => {
                    return Err(DispatchError::Arithmetic(ArithmeticError::Overflow));
                },
            };
            assert(paid_out(old(pallet)@, *self)->Ok_0.payments.len() == old(pallet)@.payments.len()
                + 1);
            pay(runtime, &mut pallet.payments, (self.asset_id, self.manager, self.sender, self.fee, true))?;
            pallet.asset_amount = amount;
        }
        proof {
            assert(self.fee != 0 ==> pallet@ =~= paid_out(old(pallet)@, *self)->Ok_0);
            assert(self.fee == 0 ==> pallet@ =~= old(pallet)@);
        }
        Ok(())
    }
}

} // verus!
