//! The game's value types: the swallower with its gene chain and its battle
//! rule, the protection and reward records, and the fee configuration.
use vstd::prelude::*;
use vstd::string::StrSliceExecFns;
use vstd::string::StringSliceAdditionalSpecFns;

use crate::pallet::{AccountId, ArithmeticError, AssetId, Balance, Config, DispatchError};
use crate::table::Duplicate;

verus! {

/// Two genes whose values lie closer than this on the circle of 256 values
/// are won by the larger one; farther apart, by the smaller one.
pub const GENE_MIDDLE_VALUE: i32 = 128;

/// The outcome of one gene position in a battle.
#[derive(Clone, Copy, PartialEq, Eq, Structural, Debug)]
pub enum Winner {
    /// The challenger wins the facer's gene.
    Challenger(i32),
    /// The facer wins the challenger's gene.
    Facer(i32),
    /// A draw: the challenger's and the facer's gene, both lost.
    NoneWin(i32, i32),
}

/// A swallower: a named creature with a gene chain.
#[derive(Clone, Debug)]
pub struct Swallower<AccountId, Hash> {
    pub no: u64,
    pub name: Vec<u8>,
    pub init_gene: Vec<u8>,
    pub gene: Vec<u8>,
    pub owner: Option<AccountId>,
    pub hash: Option<Hash>,
}

/// The mathematical value of a swallower.
pub struct SwallowerView<AccountId, Hash> {
    pub no: u64,
    pub name: Seq<u8>,
    pub init_gene: Seq<u8>,
    pub gene: Seq<u8>,
    pub owner: Option<AccountId>,
    pub hash: Option<Hash>,
}

impl<AccountId, Hash> View for Swallower<AccountId, Hash> {
    type V = SwallowerView<AccountId, Hash>;

    open spec fn view(&self) -> SwallowerView<AccountId, Hash> {
        SwallowerView {
            no: self.no,
            name: self.name@,
            init_gene: self.init_gene@,
            gene: self.gene@,
            owner: self.owner,
            hash: self.hash,
        }
    }
}

/// A copy of a byte vector.
pub fn copy_bytes(v: &Vec<u8>) -> (r: Vec<u8>)
    ensures
        r@ == v@,
{
    let mut r: Vec<u8> = Vec::new();
    let mut i: usize = 0;
    while i < v.len()
        invariant
            0 <= i <= v.len(),
            r@ =~= v@.subrange(0, i as int),
        decreases v.len() - i,
    {
        r.push(v[i]);
        i = i + 1;
    }
    assert(r@ =~= v@);
    r
}

impl<AccountId: Copy, Hash: Copy> Duplicate for Swallower<AccountId, Hash> {
    fn duplicate(&self) -> (r: Self) {
        Swallower {
            no: self.no,
            name: copy_bytes(&self.name),
            init_gene: copy_bytes(&self.init_gene),
            gene: copy_bytes(&self.gene),
            owner: self.owner,
            hash: self.hash,
        }
    }
}

/// The genes that take part in a battle: the chain turned to begin at
/// `start`, cut to its first `len` genes.
pub open spec fn battle_part(gene: Seq<u8>, start: int, len: int) -> Seq<u8> {
    (gene.subrange(start, gene.len() as int) + gene.subrange(0, start)).subrange(0, len)
}

/// The distance of two gene values.
pub open spec fn gene_distance(c: u8, f: u8) -> int {
    if c >= f {
        c - f
    } else {
        f - c
    }
}

/// One gene position of a battle, challenger's gene `c` against facer's
/// gene `f`: identical genes, or genes at the middle value apart, draw;
/// closer than the middle value, the larger gene wins; farther, the smaller
/// one.
pub open spec fn duel(c: u8, f: u8) -> Winner {
    if c == f {
        Winner::NoneWin(c as i32, f as i32)
    } else if gene_distance(c, f) < 128 {
        if c > f {
            Winner::Challenger(f as i32)
        } else {
            Winner::Facer(c as i32)
        }
    } else if gene_distance(c, f) > 128 {
        if c > f {
            Winner::Facer(c as i32)
        } else {
            Winner::Challenger(f as i32)
        }
    } else {
        Winner::NoneWin(c as i32, f as i32)
    }
}

/// The outcomes of a battle, position by position.
pub open spec fn duels(c: Seq<u8>, f: Seq<u8>) -> Seq<Winner> {
    Seq::new(
        if c.len() <= f.len() {
            c.len()
        } else {
            f.len()
        },
        |i: int| duel(c[i], f[i]),
    )
}

/// The position of the first `g` in `s`, or the length of `s` if there is
/// none.
pub open spec fn first_index_of<A>(s: Seq<A>, g: A) -> int
    decreases s.len(),
{
    if s.len() == 0 {
        0
    } else if s[0] == g {
        0
    } else {
        1 + first_index_of(s.drop_first(), g)
    }
}

/// `s` without its first `g`.
pub open spec fn remove_first<A>(s: Seq<A>, g: A) -> Seq<A> {
    if first_index_of(s, g) < s.len() {
        s.remove(first_index_of(s, g))
    } else {
        s
    }
}

/// The first position of `g` in `s` holds `g` and has no `g` before it;
/// it is the length of `s` exactly when `s` holds no `g`.
pub proof fn lemma_first_index_of<A>(s: Seq<A>, g: A)
    ensures
        0 <= first_index_of(s, g) <= s.len(),
        first_index_of(s, g) < s.len() ==> s[first_index_of(s, g)] == g,
        forall|j: int| 0 <= j < first_index_of(s, g) ==> s[j] != g,
        s.contains(g) <==> first_index_of(s, g) < s.len(),
    decreases s.len(),
{
    if s.len() > 0 && s[0] != g {
        lemma_first_index_of(s.drop_first(), g);
        assert forall|j: int| 0 <= j < first_index_of(s, g) implies s[j] != g by {
            if j > 0 {
                assert(s[j] == s.drop_first()[j - 1]);
            }
        }
        if s.contains(g) {
            let k = choose|k: int| 0 <= k < s.len() && s[k] == g;
            assert(s.drop_first()[k - 1] == g);
        }
        if first_index_of(s, g) < s.len() {
            assert(s[first_index_of(s, g)] == s.drop_first()[first_index_of(s, g) - 1]);
        }
    }
}

/// A first `g` in `s` lies at the position `i` where `g` stands and no `g`
/// stands before.
pub proof fn lemma_first_index_at<A>(s: Seq<A>, g: A, i: int)
    requires
        0 <= i < s.len(),
        s[i] == g,
        forall|j: int| 0 <= j < i ==> s[j] != g,
    ensures
        first_index_of(s, g) == i,
{
    lemma_first_index_of(s, g);
    let k = first_index_of(s, g);
    if k < i {
        assert(s[k] == g);
    }
    if k > i {
        assert(s[i] != g);
    }
}

/// Removing the first `g` takes one `g` out of the multiset of genes.
pub proof fn lemma_remove_first_multiset<A>(s: Seq<A>, g: A)
    requires
        s.contains(g),
    ensures
        remove_first(s, g).to_multiset() == s.to_multiset().remove(g),
        remove_first(s, g).len() == s.len() - 1,
{
    broadcast use vstd::seq_lib::group_to_multiset_ensures;

    lemma_first_index_of(s, g);
}

/// The position of the first `g` in `v`, or its length if there is none.
pub fn first_position(v: &Vec<u8>, g: u8) -> (r: usize)
    ensures
        r as int == first_index_of(v@, g),
{
    let mut i: usize = 0;
    while i < v.len()
        invariant
            0 <= i <= v@.len(),
            forall|j: int| 0 <= j < i ==> v@[j] != g,
        decreases v@.len() - i,
    {
        if v[i] == g {
            proof {
                lemma_first_index_at(v@, g, i as int);
            }
            return i;
        }
        i = i + 1;
    }
    proof {
        lemma_first_index_of(v@, g);
        if first_index_of(v@, g) < v@.len() {
            assert(v@[first_index_of(v@, g)] == g);
        }
    }
    i
}

impl<AccountId, Hash> Swallower<AccountId, Hash> {
    /// A new swallower whose gene chain is its initial genes.
    pub fn new(name: Vec<u8>, init_gene: Vec<u8>, no: u64, owner: AccountId) -> (r: Self)
        ensures
            r.no == no,
            r.name@ == name@,
            r.init_gene@ == init_gene@,
            r.gene@ == init_gene@,
            r.owner == Some(owner),
            r.hash.is_none(),
    {
        let gene = copy_bytes(&init_gene);
        Swallower { no, name, init_gene, gene, owner: Some(owner), hash: None }
    }

    /// The genes of this swallower that take part in a battle.
    pub fn get_battle_part(&self, start_position: usize, min_length: usize) -> (r: Vec<u8>)
        requires
            start_position <= self.gene@.len(),
            min_length <= self.gene@.len(),
        ensures
            r@ == battle_part(self.gene@, start_position as int, min_length as int),
    {
        let gene = &self.gene;
        let len = gene.len();
        let ghost turned = gene@.subrange(start_position as int, len as int) + gene@.subrange(
            0,
            start_position as int,
        );
        let mut r: Vec<u8> = Vec::new();
        let mut i: usize = 0;
        while i < min_length
            invariant
                len == gene@.len(),
                start_position <= len,
                min_length <= len,
                0 <= i <= min_length,
                turned == gene@.subrange(start_position as int, len as int) + gene@.subrange(
                    0,
                    start_position as int,
                ),
                r@ =~= turned.subrange(0, i as int),
            decreases min_length - i,
        {
            let k = if i < len - start_position {
                start_position + i
            } else {
                i - (len - start_position)
            };
            assert(turned[i as int] == gene@[k as int]);
            r.push(gene[k]);
            i = i + 1;
        }
        r
    }

    /// Fights `facer` gene position by gene position over the battle parts
    /// that begin at `start_position` and hold `min_length` genes.
    pub fn battle(&self, facer: &Self, start_position: usize, min_length: usize) -> (r: Vec<
        Winner,
    >)
        requires
            start_position <= self.gene@.len(),
            min_length <= self.gene@.len(),
            start_position <= facer.gene@.len(),
            min_length <= facer.gene@.len(),
        ensures
            r@ == duels(
                battle_part(self.gene@, start_position as int, min_length as int),
                battle_part(facer.gene@, start_position as int, min_length as int),
            ),
    {
        let challenger_battle_part = self.get_battle_part(start_position, min_length);
        let facer_battle_part = facer.get_battle_part(start_position, min_length);
        let ghost expected = duels(challenger_battle_part@, facer_battle_part@);
        let mut winners: Vec<Winner> = Vec::new();
        let mut i: usize = 0;
        while i < min_length
            invariant
                challenger_battle_part@.len() == min_length,
                facer_battle_part@.len() == min_length,
                expected == duels(challenger_battle_part@, facer_battle_part@),
                0 <= i <= min_length,
                winners@ =~= expected.subrange(0, i as int),
            decreases min_length - i,
        {
            let c: i32 = challenger_battle_part[i] as i32;
            let f: i32 = facer_battle_part[i] as i32;
            let d: i32 = if c > f {
                c - f
            } else {
                f - c
            };
            let winner = if c == f {
                Winner::NoneWin(c, f)
            } else if d < GENE_MIDDLE_VALUE {
                if c > f {
                    Winner::Challenger(f)
                } else {
                    Winner::Facer(c)
                }
            } else if d > GENE_MIDDLE_VALUE {
                if c > f {
                    Winner::Facer(c)
                } else {
                    Winner::Challenger(f)
                }
            } else {
                Winner::NoneWin(c, f)
            };
            winners.push(winner);
            i = i + 1;
        }
        winners
    }

    /// The swallower has lost all its genes.
    pub fn is_destroy(&self) -> (r: bool)
        ensures
            r == (self.gene@.len() == 0),
    {
        self.gene.len() == 0
    }

    /// Appends a won gene to the chain.
    pub fn evolve_gene(&mut self, gene: u8)
        ensures
            final(self).gene@ == old(self).gene@.push(gene),
            final(self).no == old(self).no,
            final(self).name@ == old(self).name@,
            final(self).init_gene@ == old(self).init_gene@,
            final(self).owner == old(self).owner,
            final(self).hash == old(self).hash,
    {
        self.gene.push(gene);
    }

    /// Takes the first `gene` out of the chain.
    pub fn lost_gene(&mut self, gene: u8)
        requires
            old(self).gene@.contains(gene),
        ensures
            final(self).gene@ == remove_first(old(self).gene@, gene),
            final(self).no == old(self).no,
            final(self).name@ == old(self).name@,
            final(self).init_gene@ == old(self).init_gene@,
            final(self).owner == old(self).owner,
            final(self).hash == old(self).hash,
    {
        let i = first_position(&self.gene, gene);
        proof {
            lemma_first_index_of(self.gene@, gene);
        }
        self.gene.remove(i);
    }
}

/// The protection of a swallower in the safe zone, from `start_block` to
/// `end_block`.
#[derive(Clone, Copy, Debug, PartialEq, Eq, Structural)]
pub struct ProtectState<BlockNumber> {
    pub start_block: BlockNumber,
    pub end_block: BlockNumber,
}

impl<BlockNumber> View for ProtectState<BlockNumber> {
    type V = ProtectState<BlockNumber>;

    open spec fn view(&self) -> ProtectState<BlockNumber> {
        *self
    }
}

impl<BlockNumber: Copy> Duplicate for ProtectState<BlockNumber> {
    fn duplicate(&self) -> (r: Self) {
        *self
    }
}

impl<BlockNumber> ProtectState<BlockNumber> {
    pub fn new(start_block: BlockNumber, end_block: BlockNumber) -> (r: Self)
        ensures
            r.start_block == start_block,
            r.end_block == end_block,
    {
        ProtectState { start_block, end_block }
    }
}

/// The last reward a swallower claimed in the battle zone: when, and how
/// much.
#[derive(Clone, Copy, Debug, PartialEq, Eq, Structural)]
pub struct BattleZoneReward<BlockNumber, Balance> {
    pub block_number: BlockNumber,
    pub fee: Balance,
}

impl<BlockNumber, Balance> View for BattleZoneReward<BlockNumber, Balance> {
    type V = BattleZoneReward<BlockNumber, Balance>;

    open spec fn view(&self) -> BattleZoneReward<BlockNumber, Balance> {
        *self
    }
}

impl<BlockNumber: Copy, Balance: Copy> Duplicate for BattleZoneReward<BlockNumber, Balance> {
    fn duplicate(&self) -> (r: Self) {
        *self
    }
}

impl<BlockNumber, Balance> BattleZoneReward<BlockNumber, Balance> {
    pub fn new(block_number: BlockNumber, fee: Balance) -> (r: Self)
        ensures
            r.block_number == block_number,
            r.fee == fee,
    {
        BattleZoneReward { block_number, fee }
    }
}

/// The fees and ratios of the game.
#[derive(Clone, Copy, Debug, PartialEq, Eq, Structural)]
pub struct FeeConfig {
    /// The fee for renaming a swallower, in whole tokens.
    pub change_name_fee: u64,
    /// The most genes that take part in a battle.
    pub max_challenge_length: u8,
    /// The percent kept back when a swallower is burned.
    pub destroy_fee_percent: u32,
    /// The challenge fee, in percent of the gene price.
    pub challenge_fee_ratio: u32,
    /// The protection fee, in percent of gene price × genes × blocks.
    pub protect_fee_ratio: u32,
    /// The longest protection one can buy, in blocks.
    pub protect_max_length: u32,
    /// The percent of all swallowers that must stay in the battle zone for
    /// rewards to be claimed.
    pub reward_trigger_ratio: u32,
    /// The blocks between two rewards of one swallower.
    pub battle_zone_reward_block: u32,
    /// The reward, in percent of gene price × genes.
    pub battle_zone_reward_ratio: u32,
    pub ratio: u32,
}

/// The default fees and ratios.
pub open spec fn default_fee_config() -> FeeConfig {
    FeeConfig {
        change_name_fee: 11,
        max_challenge_length: 10,
        destroy_fee_percent: 3,
        challenge_fee_ratio: 300,
        protect_fee_ratio: 10,
        protect_max_length: 2000,
        reward_trigger_ratio: 10,
        battle_zone_reward_block: 1800,
        battle_zone_reward_ratio: 10,
        ratio: 100,
    }
}

impl Default for FeeConfig {
    fn default() -> (r: Self)
        ensures
            r == default_fee_config(),
    {
        FeeConfig {
            change_name_fee: 11,
            max_challenge_length: 10,
            destroy_fee_percent: 3,
            challenge_fee_ratio: 300,
            protect_fee_ratio: 10,
            protect_max_length: 2000,
            reward_trigger_ratio: 10,
            battle_zone_reward_block: 1800,
            battle_zone_reward_ratio: 10,
            ratio: 100,
        }
    }
}

/// A field of the fee configuration that `update_config` may set, with its
/// new value widened to `u64`.
pub open spec fn config_update(
    change_name_fee: Option<u64>,
    max_challenge_length: Option<u8>,
    destroy_fee_percent: Option<u32>,
    challenge_fee_ratio: Option<u32>,
    protect_fee_ratio: Option<u32>,
    protect_max_length: Option<u32>,
    reward_trigger_ratio: Option<u32>,
    battle_zone_reward_block: Option<u32>,
    battle_zone_reward_ratio: Option<u32>,
    ratio: Option<u32>,
) -> Seq<(u64, Seq<u8>)> {
    opt_entry(change_name_fee, "change_name_fee".spec_bytes()) + opt_entry(
        widen_u8(max_challenge_length),
        "max_challenge_length".spec_bytes(),
    ) + opt_entry(widen_u32(destroy_fee_percent), "destroy_fee_percent".spec_bytes())
        + opt_entry(widen_u32(challenge_fee_ratio), "challenge_fee_ratio".spec_bytes())
        + opt_entry(widen_u32(protect_fee_ratio), "protect_fee_ratio".spec_bytes()) + opt_entry(
        widen_u32(protect_max_length),
        "protect_max_length".spec_bytes(),
    ) + opt_entry(widen_u32(reward_trigger_ratio), "reward_trigger_ratio".spec_bytes())
        + opt_entry(widen_u32(battle_zone_reward_block), "battle_zone_reward_block".spec_bytes())
        + opt_entry(widen_u32(battle_zone_reward_ratio), "battle_zone_reward_ratio".spec_bytes())
        + opt_entry(widen_u32(ratio), "ratio".spec_bytes())
}

/// The entry listed for a field given as `v`, under the field's name.
pub open spec fn opt_entry(v: Option<u64>, name: Seq<u8>) -> Seq<(u64, Seq<u8>)> {
    match v {
        Some(x) => seq![(x, name)],
        None => Seq::empty(),
    }
}

/// A `u8` field value, widened.
pub open spec fn widen_u8(v: Option<u8>) -> Option<u64> {
    match v {
        Some(x) => Some(x as u64),
        None => None,
    }
}

/// A `u32` field value, widened.
pub open spec fn widen_u32(v: Option<u32>) -> Option<u64> {
    match v {
        Some(x) => Some(x as u64),
        None => None,
    }
}

/// `x` if it is given, else `old`.
pub open spec fn or_keep<A>(x: Option<A>, old: A) -> A {
    match x {
        Some(v) => v,
        None => old,
    }
}

/// The entries listed by the two vectors of `update_config`, value and field
/// name side by side.
pub open spec fn listed(values: Seq<u64>, names: Seq<Vec<u8>>) -> Seq<(u64, Seq<u8>)> {
    Seq::new(values.len(), |i: int| (values[i], names[i]@))
}

fn widen_opt_u8(v: Option<u8>) -> (r: Option<u64>)
    ensures
        r == widen_u8(v),
{
    match v {
        Some(x) => Some(x as u64),
        None => None,
    }
}

fn widen_opt_u32(v: Option<u32>) -> (r: Option<u64>)
    ensures
        r == widen_u32(v),
{
    match v {
        Some(x) => Some(x as u64),
        None => None,
    }
}

/// Lists one field of `update_config` if it was given.
fn record_update(
    update_vec: &mut Vec<u64>,
    index_vec: &mut Vec<Vec<u8>>,
    value: Option<u64>,
    name: &str,
)
    requires
        old(update_vec)@.len() == old(index_vec)@.len(),
    ensures
        final(update_vec)@.len() == final(index_vec)@.len(),
        listed(final(update_vec)@, final(index_vec)@) == listed(old(update_vec)@, old(index_vec)@)
            + opt_entry(value, name.spec_bytes()),
{
    let ghost before = listed(update_vec@, index_vec@);
    if let Some(v) = value {
        update_vec.push(v);
        index_vec.push(name.as_bytes_vec());
    }
    assert(listed(update_vec@, index_vec@) =~= before + opt_entry(value, name.spec_bytes()));
}

impl FeeConfig {
    /// Sets each field that is given, and lists the values set and the
    /// names of their fields, in the order of the fields.
    pub fn update_config(
        &mut self,
        change_name_fee: Option<u64>,
        max_challenge_length: Option<u8>,
        destroy_fee_percent: Option<u32>,
        challenge_fee_ratio: Option<u32>,
        protect_fee_ratio: Option<u32>,
        protect_max_length: Option<u32>,
        reward_trigger_ratio: Option<u32>,
        battle_zone_reward_block: Option<u32>,
        battle_zone_reward_ratio: Option<u32>,
        ratio: Option<u32>,
    ) -> (r: (Vec<u64>, Vec<Vec<u8>>))
        ensures
            final(self).change_name_fee == or_keep(change_name_fee, old(self).change_name_fee),
            final(self).max_challenge_length == or_keep(
                max_challenge_length,
                old(self).max_challenge_length,
            ),
            final(self).destroy_fee_percent == or_keep(
                destroy_fee_percent,
                old(self).destroy_fee_percent,
            ),
            final(self).challenge_fee_ratio == or_keep(
                challenge_fee_ratio,
                old(self).challenge_fee_ratio,
            ),
            final(self).protect_fee_ratio == or_keep(protect_fee_ratio, old(self).protect_fee_ratio),
            final(self).protect_max_length == or_keep(
                protect_max_length,
                old(self).protect_max_length,
            ),
            final(self).reward_trigger_ratio == or_keep(
                reward_trigger_ratio,
                old(self).reward_trigger_ratio,
            ),
            final(self).battle_zone_reward_block == or_keep(
                battle_zone_reward_block,
                old(self).battle_zone_reward_block,
            ),
            final(self).battle_zone_reward_ratio == or_keep(
                battle_zone_reward_ratio,
                old(self).battle_zone_reward_ratio,
            ),
            final(self).ratio == or_keep(ratio, old(self).ratio),
            r.0@.len() == r.1@.len(),
            listed(r.0@, r.1@) == config_update(
                change_name_fee,
                max_challenge_length,
                destroy_fee_percent,
                challenge_fee_ratio,
                protect_fee_ratio,
                protect_max_length,
                reward_trigger_ratio,
                battle_zone_reward_block,
                battle_zone_reward_ratio,
                ratio,
            ),
    {
        let mut update_vec: Vec<u64> = Vec::new();
        let mut index_vec: Vec<Vec<u8>> = Vec::new();
        assert(listed(update_vec@, index_vec@) =~= Seq::empty());
        if let Some(v) = change_name_fee {
            self.change_name_fee = v;
        }
        record_update(&mut update_vec, &mut index_vec, change_name_fee, "change_name_fee");
        assert(listed(update_vec@, index_vec@) =~= opt_entry(
            change_name_fee,
            "change_name_fee".spec_bytes(),
        ));
        if let Some(v) = max_challenge_length {
            self.max_challenge_length = v;
        }
        record_update(
            &mut update_vec,
            &mut index_vec,
            widen_opt_u8(max_challenge_length),
            "max_challenge_length",
        );
        if let Some(v) = destroy_fee_percent {
            self.destroy_fee_percent = v;
        }
        record_update(
            &mut update_vec,
            &mut index_vec,
            widen_opt_u32(destroy_fee_percent),
            "destroy_fee_percent",
        );
        if let Some(v) = challenge_fee_ratio {
            self.challenge_fee_ratio = v;
        }
        record_update(
            &mut update_vec,
            &mut index_vec,
            widen_opt_u32(challenge_fee_ratio),
            "challenge_fee_ratio",
        );
        if let Some(v) = protect_fee_ratio {
            self.protect_fee_ratio = v;
        }
        record_update(
            &mut update_vec,
            &mut index_vec,
            widen_opt_u32(protect_fee_ratio),
            "protect_fee_ratio",
        );
        if let Some(v) = protect_max_length {
            self.protect_max_length = v;
        }
        record_update(
            &mut update_vec,
            &mut index_vec,
            widen_opt_u32(protect_max_length),
            "protect_max_length",
        );
        if let Some(v) = reward_trigger_ratio {
            self.reward_trigger_ratio = v;
        }
        record_update(
            &mut update_vec,
            &mut index_vec,
            widen_opt_u32(reward_trigger_ratio),
            "reward_trigger_ratio",
        );
        if let Some(v) = battle_zone_reward_block {
            self.battle_zone_reward_block = v;
        }
        record_update(
            &mut update_vec,
            &mut index_vec,
            widen_opt_u32(battle_zone_reward_block),
            "battle_zone_reward_block",
        );
        if let Some(v) = battle_zone_reward_ratio {
            self.battle_zone_reward_ratio = v;
        }
        record_update(
            &mut update_vec,
            &mut index_vec,
            widen_opt_u32(battle_zone_reward_ratio),
            "battle_zone_reward_ratio",
        );
        if let Some(v) = ratio {
            self.ratio = v;
        }
        record_update(&mut update_vec, &mut index_vec, widen_opt_u32(ratio), "ratio");
        (update_vec, index_vec)
    }
}

/// The protection settings of the safe zone.
#[derive(Clone, Copy, Debug, PartialEq, Eq, Structural)]
pub struct ProtectConfig {
    /// The blocks a new swallower stays protected.
    pub first_mint_protect_duration: u32,
    /// The blocks the loser of a battle stays protected.
    pub auto_enter_safe_zone_block_number: u32,
}

/// The default protection settings.
pub open spec fn default_protect_config() -> ProtectConfig {
    ProtectConfig { first_mint_protect_duration: 1600, auto_enter_safe_zone_block_number: 100 }
}

impl Default for ProtectConfig {
    fn default() -> (r: Self)
        ensures
            r == default_protect_config(),
    {
        ProtectConfig { first_mint_protect_duration: 1600, auto_enter_safe_zone_block_number: 100 }
    }
}

/// `amount` after `fee` was added to it.
pub open spec fn added(amount: u64, fee: u64) -> Result<u64, DispatchError> {
    if fee == 0 {
        Ok(amount)
    } else if amount + fee > u64::MAX {
        Err(DispatchError::Arithmetic(ArithmeticError::Overflow))
    } else {
        Ok((amount + fee) as u64)
    }
}

/// `amount` after `fee` was taken from it.
pub open spec fn subtracted(amount: u64, fee: u64) -> Result<u64, DispatchError> {
    if fee == 0 {
        Ok(amount)
    } else if amount < fee {
        Err(DispatchError::Arithmetic(ArithmeticError::Overflow))
    } else {
        Ok((amount - fee) as u64)
    }
}

/// A payment between a player and the manager, who keeps the game's tokens.
#[derive(Clone, Copy, Debug)]
pub struct TransInfo {
    pub asset_id: AssetId,
    pub sender: AccountId,
    pub manager: AccountId,
    pub fee: Balance,
}

impl TransInfo {
    pub fn new(asset_id: AssetId, sender: AccountId, manager: AccountId, fee: Balance) -> (r: Self)
        ensures
            r.asset_id == asset_id,
            r.sender == sender,
            r.manager == manager,
            r.fee == fee,
    {
        TransInfo { asset_id, sender, manager, fee }
    }
}

} // verus!
