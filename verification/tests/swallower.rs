use std::collections::HashMap;

use parity_scale_codec::Encode;
use pallet_swallower::pallet::{
    AccountId, ArithmeticError, AssetId, Balance, BlockNumber, Config, DispatchError, Error, Event,
    GenesisConfig, Origin, Pallet, SwallowerHash,
};
use pallet_swallower::pallet::battle_positions;
use pallet_swallower::types::{ProtectState, Swallower, Winner};

const ACCOUNT_ID_1: u64 = 3;
const ACCOUNT_ID_2: u64 = 4;
const ASSET_ID: u32 = 1;
const ADMIN_ID: u64 = 2;
const NAME: &[u8; 4] = b"hole";
const NAME1: &[u8; 10] = b"dragon_two";
const NAME2: &[u8; 12] = b"dragon_three";
const ACCOUNT_ASSET_OWNER_ID: u64 = 1;
const MANAGER_ID: u64 = 0;
const RANDOM_MATERIAL_LEN: u64 = 81;
const MIN_BALANCE: u64 = 1;

/// A runtime for the tests: one asset of 10 decimals held by account 1, and
/// randomness mixed from the last 81 parent hashes.
struct TestRuntime {
    block_number: u64,
    parent_hash: [u8; 32],
    random_material: Vec<[u8; 32]>,
    balances: HashMap<u64, u64>,
}

/// The majority of each bit over three values.
fn sub_mix(a: &[u8; 32], b: &[u8; 32], c: &[u8; 32]) -> [u8; 32] {
    let mut r = [0u8; 32];
    for i in 0..32 {
        r[i] = (a[i] & b[i]) | (b[i] & c[i]) | (a[i] & c[i]);
    }
    r
}

/// Mixes a number of values that is a power of three by majorities of three.
fn triplet_mix(items: &[[u8; 32]]) -> [u8; 32] {
    if items.len() == 3 {
        sub_mix(&items[0], &items[1], &items[2])
    } else {
        let third = items.len() / 3;
        let a = triplet_mix(&items[0..third]);
        let b = triplet_mix(&items[third..2 * third]);
        let c = triplet_mix(&items[2 * third..]);
        sub_mix(&a, &b, &c)
    }
}

impl TestRuntime {
    fn new() -> Self {
        let mut balances = HashMap::new();
        balances.insert(ACCOUNT_ASSET_OWNER_ID, 10000000000000);
        TestRuntime {
            block_number: 1,
            parent_hash: [69u8; 32],
            random_material: Vec::new(),
            balances,
        }
    }

    fn index(block_number: u64) -> usize {
        ((block_number - 1) % RANDOM_MATERIAL_LEN) as usize
    }

    fn on_initialize(&mut self, block_number: u64) {
        if (self.random_material.len() as u64) < RANDOM_MATERIAL_LEN {
            self.random_material.push(self.parent_hash);
        } else {
            let i = Self::index(block_number);
            self.random_material[i] = self.parent_hash;
        }
    }

    fn set_block_number(&mut self, n: u64) {
        self.block_number = n;
    }

    fn go_block_number(&mut self, number: u64) {
        let current = self.block_number;
        for i in current..current + number {
            self.on_initialize(i);
            self.set_block_number(i);
            self.parent_hash = [i as u8; 32];
        }
    }

    fn asset_balance(&self, who: u64) -> u64 {
        *self.balances.get(&who).unwrap_or(&0)
    }

    /// The assets' own transfer call: the source may be drained.
    fn assets_transfer(&mut self, source: u64, dest: u64, amount: u64) -> Result<(), DispatchError> {
        Config::transfer(self, ASSET_ID, source, dest, amount, false)
    }
}

impl Config for TestRuntime {
    fn block_number(&self) -> BlockNumber {
        self.block_number
    }

    fn random(&self, subject: &[u8]) -> [u8; 32] {
        if self.random_material.is_empty() {
            return [0u8; 32];
        }
        let index = Self::index(self.block_number);
        let hashes: Vec<[u8; 32]> = self
            .random_material
            .iter()
            .cycle()
            .skip(index)
            .take(RANDOM_MATERIAL_LEN as usize)
            .enumerate()
            .map(|(i, h)| (i as i8, subject, h).using_encoded(sp_io::hashing::blake2_256))
            .collect();
        triplet_mix(&hashes)
    }

    fn balance(&self, asset_id: AssetId, who: AccountId) -> Balance {
        if asset_id == ASSET_ID {
            self.asset_balance(who)
        } else {
            0
        }
    }

    fn decimals(&self, _asset_id: AssetId) -> u8 {
        10
    }

    fn transfer(
        &mut self,
        asset_id: AssetId,
        source: AccountId,
        dest: AccountId,
        amount: Balance,
        keep_alive: bool,
    ) -> Result<(), DispatchError> {
        if asset_id != ASSET_ID {
            return Err(DispatchError::Assets(3));
        }
        let from = self.asset_balance(source);
        if from < amount {
            return Err(DispatchError::Assets(1));
        }
        let left = from - amount;
        if keep_alive && left < MIN_BALANCE {
            return Err(DispatchError::Assets(2));
        }
        let to = self.asset_balance(dest);
        if to + amount < MIN_BALANCE {
            return Err(DispatchError::Assets(4));
        }
        self.balances.insert(source, left);
        self.balances.insert(dest, to + amount);
        Ok(())
    }

    fn init_gene_limit(&self) -> u32 {
        16
    }

    fn max_swallower_owen(&self) -> u32 {
        128
    }
}

fn new_test_ext() -> (Pallet, TestRuntime) {
    let mut pallet = Pallet::new();
    let genesis = GenesisConfig { admin: None, asset_id: None };
    genesis.build(&mut pallet);
    (pallet, TestRuntime::new())
}

/// What the storage holds, compared before and after a failing call.
fn fingerprint(p: &Pallet, hashes: &[SwallowerHash]) -> String {
    let mut s = format!(
        "{} {} {} {} {:?} {:?} {} {}",
        p.gene_amount(),
        p.swallower_amount(),
        p.swallower_no(),
        p.asset_amount(),
        p.asset_id(),
        p.admin(),
        p.manager(),
        p.events().len()
    );
    for h in hashes {
        s.push_str(&format!(
            " {:?} {:?} {:?}",
            p.swallowers(h).map(|sw| (sw.name, sw.gene)),
            p.safe_zone(h),
            p.battle_zone_reward_map(h)
        ));
    }
    for who in [ACCOUNT_ID_1, ACCOUNT_ID_2, 100] {
        s.push_str(&format!(" {:?}", p.owner_swallower(who)));
    }
    s
}

fn module(e: Error) -> Result<(), DispatchError> {
    Err(DispatchError::Module(e))
}

fn has_event(p: &Pallet, e: &Event) -> bool {
    p.events().iter().any(|x| x == e)
}

fn last_event(p: &Pallet) -> Event {
    p.events().last().unwrap().clone()
}

/// Mints two swallowers for account 3 and, 99 blocks later, one for account
/// 4.
fn init(p: &mut Pallet, rt: &mut TestRuntime) {
    let block_number = rt.block_number;
    rt.on_initialize(block_number);
    assert_eq!(p.set_admin(Origin::Root, ADMIN_ID), Ok(()));
    assert_eq!(p.set_asset_id(Origin::Signed(ADMIN_ID), ASSET_ID), Ok(()));
    rt.assets_transfer(ACCOUNT_ASSET_OWNER_ID, ACCOUNT_ID_1, 170000000000).unwrap();
    assert_eq!(p.mint_swallower(rt, Origin::Signed(ACCOUNT_ID_1), NAME.to_vec()), Ok(()));
    rt.assets_transfer(ACCOUNT_ASSET_OWNER_ID, ACCOUNT_ID_1, 160000000000).unwrap();
    assert_eq!(p.mint_swallower(rt, Origin::Signed(ACCOUNT_ID_1), NAME1.to_vec()), Ok(()));
    rt.assets_transfer(ACCOUNT_ASSET_OWNER_ID, ACCOUNT_ID_2, 170000000000).unwrap();
    rt.go_block_number(100);
    assert_eq!(p.mint_swallower(rt, Origin::Signed(ACCOUNT_ID_2), NAME2.to_vec()), Ok(()));
}

#[test]
fn test_set_admin() {
    let (mut p, _rt) = new_test_ext();
    assert_eq!(p.set_admin(Origin::Root, 1), Ok(()));
    assert_eq!(last_event(&p), Event::SetAdmin(1));
    assert_eq!(p.admin(), Some(1));
    let before = fingerprint(&p, &[]);
    assert_eq!(p.set_admin(Origin::Signed(1), 1), Err(DispatchError::BadOrigin));
    assert_eq!(fingerprint(&p, &[]), before);
}

#[test]
fn manager_set_asset_id() {
    let (mut p, _rt) = new_test_ext();
    let before = fingerprint(&p, &[]);
    assert_eq!(p.set_asset_id(Origin::Signed(2), 1), module(Error::NotExistAdmin));
    assert_eq!(fingerprint(&p, &[]), before);
    assert_eq!(p.set_admin(Origin::Root, 1), Ok(()));
    let before = fingerprint(&p, &[]);
    assert_eq!(p.set_asset_id(Origin::Signed(2), 1), module(Error::NotAdmin));
    assert_eq!(fingerprint(&p, &[]), before);
    assert_eq!(p.set_asset_id(Origin::Signed(1), 1), Ok(()));
    assert_eq!(last_event(&p), Event::SetAssetId(1));
}

#[test]
fn test_mint_swallower() {
    let (mut p, mut rt) = new_test_ext();
    let rt = &mut rt;
    let before = fingerprint(&p, &[]);
    assert_eq!(
        p.mint_swallower(rt, Origin::Signed(ACCOUNT_ID_1), b"hole".to_vec()),
        module(Error::NotExistAssetId)
    );
    assert_eq!(fingerprint(&p, &[]), before);
    assert_eq!(p.set_admin(Origin::Root, ADMIN_ID), Ok(()));
    assert_eq!(p.set_asset_id(Origin::Signed(ADMIN_ID), ASSET_ID), Ok(()));
    let before = fingerprint(&p, &[]);
    assert_eq!(
        p.mint_swallower(rt, Origin::Signed(ACCOUNT_ID_1), b"hole".to_vec()),
        module(Error::NotEnoughMoney)
    );
    assert_eq!(fingerprint(&p, &[]), before);
    rt.assets_transfer(1, ACCOUNT_ID_1, 170000000000).unwrap();
    assert_eq!(p.swallower_no(), 0, "user init swallower is not zero!");
    assert_eq!(p.swallower_amount(), 0, "System swallower amount is error!");
    assert_eq!(p.mint_swallower(rt, Origin::Signed(ACCOUNT_ID_1), NAME.to_vec()), Ok(()));
    let user_balance = rt.asset_balance(ACCOUNT_ID_1);
    assert_eq!(user_balance, 10000000000, "user balance is error!");
    let manager_balance = rt.asset_balance(MANAGER_ID);
    assert_eq!(manager_balance, 160000000000, "manager not receive the asset token!");
    assert_eq!(p.swallower_amount(), 1, "System swallower amount is error!");
    let swallower_no = p.swallower_no();
    assert_eq!(swallower_no, 1, "swallower number is wrong!");
    let owner_swallower = p.owner_swallower(ACCOUNT_ID_1);
    assert_eq!(owner_swallower.len(), 1, "the user should have one swallower!");
    let swallower_hash = owner_swallower[0];
    let protect_state = p.safe_zone(&swallower_hash).unwrap();
    let block_number = rt.block_number;
    assert_eq!(protect_state.end_block, block_number + 1600, "the safe zone end block is error!");
    let swallower = p.swallowers(&swallower_hash).unwrap();
    assert_eq!(swallower.name, NAME, "the swallower name is not correct!");
    assert_eq!(swallower.gene.len(), 16, "the gene length is not 16");
    assert!(has_event(
        &p,
        &Event::Mint(ACCOUNT_ID_1, NAME.to_vec(), ASSET_ID, 160000000000, swallower_hash)
    ));
    let gene_amount = p.gene_amount();
    assert_eq!(gene_amount, 16, "The system gene amount is not correct!");
    let asset_amount = p.asset_amount();
    assert_eq!(asset_amount, 160000000000, "The system token amount is not correct!");
    assert_eq!(p.gene_amount(), 16, "the system gene amount is error!");

    rt.assets_transfer(1, ACCOUNT_ID_1, 160000000000).unwrap();
    let before = fingerprint(&p, &[swallower_hash]);
    assert_eq!(
        p.mint_swallower(rt, Origin::Signed(ACCOUNT_ID_1), NAME.to_vec()),
        module(Error::NameRepeated)
    );
    assert_eq!(fingerprint(&p, &[swallower_hash]), before);
    assert_eq!(p.mint_swallower(rt, Origin::Signed(ACCOUNT_ID_1), NAME1.to_vec()), Ok(()));
    assert_eq!(p.swallower_amount(), 2, "System swallower amount is error!");
    let user_balance = rt.asset_balance(ACCOUNT_ID_1);
    assert_eq!(user_balance, 10000000000, "user balance is error!");
    let manager_balance = rt.asset_balance(MANAGER_ID);
    assert_eq!(manager_balance, 320000000000, "manager not receive the asset token!");
    let swallower_no = p.swallower_no();
    assert_eq!(swallower_no, 2, "swallower number is wrong!");
    let owner_swallower = p.owner_swallower(ACCOUNT_ID_1);
    assert_eq!(owner_swallower.len(), 2, "the user should have one swallower!");
    let swallower_hash = owner_swallower[1];
    let swallower = p.swallowers(&swallower_hash).unwrap();
    assert_eq!(swallower.name, NAME1, "the swallower name is not correct!");
    assert_eq!(swallower.gene.len(), 16, "the gene length is not 16");
    assert!(has_event(
        &p,
        &Event::Mint(ACCOUNT_ID_1, NAME1.to_vec(), ASSET_ID, 160000000000, swallower_hash)
    ));
    let gene_amount = p.gene_amount();
    assert_eq!(gene_amount, 32, "The system gene amount is not correct!");
    let asset_amount = p.asset_amount();
    assert_eq!(asset_amount, 320000000000, "The system token amount is not correct!");
    assert_eq!(p.gene_amount(), 32, "the system gene amount is error!");
}

#[test]
fn test_burn_swallower() {
    let (mut p, mut rt) = new_test_ext();
    let rt = &mut rt;
    assert_eq!(
        p.mint_swallower(rt, Origin::Signed(ACCOUNT_ID_1), b"hole".to_vec()),
        module(Error::NotExistAssetId)
    );
    assert_eq!(p.set_admin(Origin::Root, ADMIN_ID), Ok(()));
    assert_eq!(p.set_asset_id(Origin::Signed(ADMIN_ID), ASSET_ID), Ok(()));
    assert_eq!(
        p.mint_swallower(rt, Origin::Signed(ACCOUNT_ID_1), b"hole".to_vec()),
        module(Error::NotEnoughMoney)
    );
    rt.assets_transfer(1, ACCOUNT_ID_1, 170000000000).unwrap();
    assert_eq!(p.swallower_no(), 0, "user init swallower is not zero!");
    assert_eq!(p.mint_swallower(rt, Origin::Signed(ACCOUNT_ID_1), NAME.to_vec()), Ok(()));
    let user_balance = rt.asset_balance(ACCOUNT_ID_1);
    assert_eq!(user_balance, 10000000000, "user balance is error!");
    let manager_balance = rt.asset_balance(MANAGER_ID);
    assert_eq!(manager_balance, 160000000000, "manager not receive the asset token!");
    let swallower_no = p.swallower_no();
    assert_eq!(swallower_no, 1, "swallower number is wrong!");
    let owner_swallower = p.owner_swallower(ACCOUNT_ID_1);
    assert_eq!(owner_swallower.len(), 1, "the user should have one swallower!");
    let swallower_hash = owner_swallower[0];
    let protect_state = p.safe_zone(&swallower_hash).unwrap();
    let block_number = rt.block_number;
    assert_eq!(protect_state.end_block, block_number + 1600, "the safe zone end block is error!");
    let swallower = p.swallowers(&swallower_hash).unwrap();
    assert_eq!(swallower.name, NAME, "the swallower name is not correct!");
    assert_eq!(swallower.gene.len(), 16, "the gene length is not 16");
    assert!(has_event(
        &p,
        &Event::Mint(ACCOUNT_ID_1, NAME.to_vec(), ASSET_ID, 160000000000, swallower_hash)
    ));
    assert_eq!(last_event(&p), Event::EntreSafeZone(swallower_hash, 1, 1601));
    assert_eq!(p.gene_amount(), 16, "The system gene amount is not correct!");
    assert_eq!(p.asset_amount(), 160000000000, "The system token amount is not correct!");
    assert_eq!(p.gene_amount(), 16, "the system gene amount is error!");

    rt.assets_transfer(ACCOUNT_ASSET_OWNER_ID, ACCOUNT_ID_1, 160000000000).unwrap();
    assert_eq!(
        p.mint_swallower(rt, Origin::Signed(ACCOUNT_ID_1), NAME.to_vec()),
        module(Error::NameRepeated)
    );
    p.mint_swallower(rt, Origin::Signed(ACCOUNT_ID_1), NAME1.to_vec()).unwrap();
    let user_balance = rt.asset_balance(ACCOUNT_ID_1);
    assert_eq!(user_balance, 10000000000, "user balance is error!");
    let manager_balance = rt.asset_balance(MANAGER_ID);
    assert_eq!(manager_balance, 320000000000, "manager not receive the asset token!");
    let swallower_no = p.swallower_no();
    assert_eq!(swallower_no, 2, "swallower number is wrong!");
    let owner_swallower = p.owner_swallower(ACCOUNT_ID_1);
    assert_eq!(owner_swallower.len(), 2, "the user should have two swallower!");
    let swallower_hash = owner_swallower[1];
    let swallower = p.swallowers(&swallower_hash).unwrap();
    assert_eq!(swallower.name, NAME1, "the swallower name is not correct!");
    assert_eq!(swallower.gene.len(), 16, "the gene length is not 16");
    assert!(has_event(
        &p,
        &Event::Mint(ACCOUNT_ID_1, NAME1.to_vec(), ASSET_ID, 160000000000, swallower_hash)
    ));
    assert_eq!(p.gene_amount(), 32, "The system gene amount is not correct!");
    assert_eq!(p.asset_amount(), 320000000000, "The system token amount is not correct!");
    assert_eq!(p.gene_amount(), 32, "the system gene amount is error!");

    let before = fingerprint(&p, &[swallower_hash]);
    assert_eq!(p.burn_swallower(rt, Origin::Signed(100), swallower_hash), module(Error::NotOwner));
    assert_eq!(fingerprint(&p, &[swallower_hash]), before);

    let price_gene = p.gene_price(rt.decimals(ASSET_ID)).unwrap();
    let swallower_config = p.swallower_config();
    let swallower_gene_count = p.swallowers(&swallower_hash).unwrap().gene.len();
    let return_balance = price_gene.checked_mul(swallower_gene_count.try_into().unwrap()).unwrap();
    let return_balance = (return_balance as u64)
        .checked_mul(100u64 - swallower_config.destroy_fee_percent as u64)
        .unwrap()
        .checked_div(100)
        .unwrap();

    let manager_balance = rt.asset_balance(MANAGER_ID);
    let account_balance = rt.asset_balance(ACCOUNT_ID_1);
    assert_eq!(p.swallower_amount(), 2, "System swallower amount is error!");
    assert_eq!(p.burn_swallower(rt, Origin::Signed(ACCOUNT_ID_1), swallower_hash), Ok(()));
    assert_eq!(p.swallower_amount(), 1, "System swallower amount is error!");
    let protect_state = p.safe_zone(&swallower_hash);
    assert!(protect_state.is_none());

    let manager_balance_after_burn = rt.asset_balance(MANAGER_ID);
    let account_balance_after_burn = rt.asset_balance(ACCOUNT_ID_1);
    assert_eq!(
        manager_balance_after_burn,
        manager_balance.checked_sub(return_balance).unwrap(),
        "the asset balance of manager is not correct after burning swallower"
    );
    assert_eq!(
        account_balance_after_burn,
        account_balance.checked_add(return_balance).unwrap(),
        "The balance of account is not correct!"
    );

    let swallower_no: u64 = p.swallower_no();
    assert_eq!(swallower_no, 2);
    let owner_swallowers = p.owner_swallower(ACCOUNT_ID_1);
    assert_eq!(owner_swallowers.len(), 1, "User should have one swallower.");
    let user_has_swallower = owner_swallowers.iter().any(|s| *s == swallower_hash);
    assert!(!user_has_swallower, "user has the hash of swallower which had been burned!");
    assert!(p.swallowers(&swallower_hash).is_none());
    assert_eq!(p.gene_amount(), 16, "the system gene amount is not correct!");
    assert_eq!(
        p.asset_amount(),
        (320000000000 - 160000000000 * 97 / 100),
        "the asset amount of system is not correct!"
    );
    assert_eq!(
        last_event(&p),
        Event::Burn(ACCOUNT_ID_1, ASSET_ID, 160000000000 * 97 / 100, swallower_hash)
    );
}

#[test]
fn test_change_name() {
    let (mut p, mut rt) = new_test_ext();
    let rt = &mut rt;
    let new_name = b"worm hole";
    let asset_owner = 1;
    assert_eq!(p.set_admin(Origin::Root, ADMIN_ID), Ok(()));
    assert_eq!(p.set_asset_id(Origin::Signed(ADMIN_ID), ASSET_ID), Ok(()));
    assert_eq!(rt.assets_transfer(1, ACCOUNT_ID_1, 170000000000), Ok(()));
    assert_eq!(p.swallower_no(), 0, "user init swallower is not zero!");
    assert_eq!(p.mint_swallower(rt, Origin::Signed(ACCOUNT_ID_1), NAME.to_vec()), Ok(()));
    let user_balance = rt.asset_balance(ACCOUNT_ID_1);
    assert_eq!(user_balance, 10000000000, "user balance is error!");
    let manager_balance = rt.asset_balance(MANAGER_ID);
    assert_eq!(manager_balance, 160000000000, "manager not receive the asset token!");

    let owner_swallower = p.owner_swallower(ACCOUNT_ID_1);
    let swallower_hash = owner_swallower[0];
    let swallower = p.swallowers(&swallower_hash).unwrap();
    assert_eq!(swallower.name, NAME, "the swallower name is not correct!");
    assert_eq!(swallower.gene.len(), 16, "the gene length is not 16");

    assert_eq!(rt.assets_transfer(asset_owner, ACCOUNT_ID_1, 100000000000), Ok(()));
    assert_eq!(
        p.change_swallower_name(rt, Origin::Signed(ACCOUNT_ID_1), swallower_hash, new_name.to_vec()),
        Ok(())
    );
    let swallower = p.swallowers(&swallower_hash).unwrap();
    assert_eq!(swallower.name, new_name, "the swallower change name is not success!");
    let manager_balance = rt.asset_balance(MANAGER_ID);
    assert_eq!(manager_balance, (16 + 11) * 10000000000, "manager not receive the asset token!");
    let asset_amount = p.asset_amount();
    assert_eq!(asset_amount, (16 + 11) * 10000000000, "The system gene amount is not correct!");
    assert_eq!(
        last_event(&p),
        Event::ChangeName(ACCOUNT_ID_1, new_name.to_vec(), ASSET_ID, 110000000000, swallower_hash)
    );
}

#[test]
fn test_make_battle() {
    let (mut p, mut rt) = new_test_ext();
    let rt = &mut rt;
    init(&mut p, rt);
    let owner_swallower = p.owner_swallower(ACCOUNT_ID_1);
    assert_eq!(owner_swallower.len(), 2, "the user should have one swallower!");
    let challenger_hash = owner_swallower[0];
    let same_owner_hash_1 = owner_swallower[1];
    let owner_swallower_2 = p.owner_swallower(ACCOUNT_ID_2);
    let facer_hash_2 = owner_swallower_2[0];
    let hashes = [challenger_hash, same_owner_hash_1, facer_hash_2];
    let before = fingerprint(&p, &hashes);
    assert_eq!(
        p.make_battle(rt, Origin::Signed(ACCOUNT_ID_1), challenger_hash, same_owner_hash_1),
        module(Error::WithSelf)
    );
    assert_eq!(fingerprint(&p, &hashes), before);
    assert_eq!(
        p.make_battle(rt, Origin::Signed(ACCOUNT_ID_1), challenger_hash, facer_hash_2),
        module(Error::SwallowerInSafeZone)
    );
    assert_eq!(fingerprint(&p, &hashes), before);
    rt.set_block_number(1601);
    assert_eq!(
        p.make_battle(rt, Origin::Signed(ACCOUNT_ID_1), challenger_hash, facer_hash_2),
        module(Error::SwallowerInSafeZone)
    );
    assert_eq!(fingerprint(&p, &hashes), before);
    rt.set_block_number(1702);
    rt.on_initialize(1702);

    let before = fingerprint(&p, &hashes);
    assert_eq!(
        p.make_battle(rt, Origin::Signed(ACCOUNT_ID_1), challenger_hash, [1; 32]),
        module(Error::SwallowerNotExist)
    );
    assert_eq!(fingerprint(&p, &hashes), before);
    assert_eq!(
        p.make_battle(rt, Origin::Signed(ACCOUNT_ID_1), [1; 32], facer_hash_2),
        module(Error::SwallowerNotExist)
    );
    assert_eq!(fingerprint(&p, &hashes), before);

    let result = p.make_battle(rt, Origin::Signed(ACCOUNT_ID_1), challenger_hash, facer_hash_2);
    assert_eq!(result, module(Error::NotEnoughMoney));
    rt.assets_transfer(ACCOUNT_ASSET_OWNER_ID, ACCOUNT_ID_1, 3000000000000).unwrap();
    let price_gene = p.gene_price(rt.decimals(ASSET_ID)).unwrap();
    let challenge_fee = price_gene.saturating_mul(3u64);
    let balance_of_challenger = rt.asset_balance(ACCOUNT_ID_1);
    let balance_of_manager = rt.asset_balance(MANAGER_ID);
    assert_eq!(p.make_battle(rt, Origin::Signed(ACCOUNT_ID_1), challenger_hash, facer_hash_2), Ok(()));
    let balance_of_challenger_after_battle = rt.asset_balance(ACCOUNT_ID_1);
    assert_eq!(challenge_fee, balance_of_challenger.saturating_sub(balance_of_challenger_after_battle));
    let balance_of_manager_after_battle = rt.asset_balance(MANAGER_ID);
    assert_eq!(balance_of_manager_after_battle, balance_of_manager + challenge_fee);

    let swallower1 = p.swallowers(&challenger_hash).unwrap();
    assert_eq!(
        swallower1.gene,
        vec!(106, 89, 231, 255, 98, 136, 136, 40, 56, 192, 225, 35, 90, 75)
    );
    let facer2 = p.swallowers(&facer_hash_2).unwrap();
    assert_eq!(
        facer2.gene,
        vec!(29, 54, 231, 217, 94, 47, 125, 79, 68, 2, 32, 49, 209, 66, 29, 100, 208, 48)
    );
    assert_eq!(
        last_event(&p),
        Event::BattleResult(
            false,
            vec!(225, 35, 90, 75),
            vec!(209, 66, 29, 100, 208, 48),
            vec!()
        )
    );

    let safe_zone: ProtectState<u64> = p.safe_zone(&challenger_hash).unwrap();
    assert_eq!(safe_zone.start_block, 1702, "start block is fail!");
    assert_eq!(safe_zone.end_block, 1802, "start block is fail!");
    assert_eq!(p.safe_zone(&facer_hash_2), None, "facer should not entre the safe zone!");
}

#[test]
fn test_entre_safe_zone() {
    let (mut p, mut rt) = new_test_ext();
    let rt = &mut rt;
    assert_eq!(p.set_admin(Origin::Root, ADMIN_ID), Ok(()));
    assert_eq!(p.set_asset_id(Origin::Signed(ADMIN_ID), ASSET_ID), Ok(()));
    assert_eq!(rt.assets_transfer(1, ACCOUNT_ID_1, 170000000000), Ok(()));
    assert_eq!(p.mint_swallower(rt, Origin::Signed(ACCOUNT_ID_1), NAME.to_vec()), Ok(()));

    let owner_swallower = p.owner_swallower(ACCOUNT_ID_1);
    let swallower_hash = owner_swallower[0];
    let hashes = [swallower_hash];
    let before = fingerprint(&p, &hashes);
    assert_eq!(
        p.user_entre_safe_zone(rt, Origin::Signed(ACCOUNT_ID_2), swallower_hash, 1000),
        module(Error::NotOwner)
    );
    assert_eq!(fingerprint(&p, &hashes), before);
    assert_eq!(
        p.user_entre_safe_zone(rt, Origin::Signed(ACCOUNT_ID_1), swallower_hash, 1000),
        module(Error::SwallowerInSafeZone)
    );
    assert_eq!(fingerprint(&p, &hashes), before);
    p.exit_safe_zone(swallower_hash, rt.block_number);
    let before = fingerprint(&p, &hashes);
    assert_eq!(
        p.user_entre_safe_zone(rt, Origin::Signed(ACCOUNT_ID_1), swallower_hash, 3000),
        module(Error::OverMaxHeight)
    );
    assert_eq!(fingerprint(&p, &hashes), before);
    assert_eq!(
        p.user_entre_safe_zone(rt, Origin::Signed(ACCOUNT_ID_1), swallower_hash, 1500),
        module(Error::NotEnoughMoney)
    );
    assert_eq!(fingerprint(&p, &hashes), before);
    // The asset's holder starts with 10000000000000, less than this transfer:
    // it is topped up first.
    rt.balances.insert(ACCOUNT_ASSET_OWNER_ID, 100000000000000);
    assert_eq!(rt.assets_transfer(1, ACCOUNT_ID_1, 25000000000000), Ok(()));
    let balance_of_user_before = rt.asset_balance(ACCOUNT_ID_1);
    let balance_of_manager_before = rt.asset_balance(MANAGER_ID);
    let height: u32 = 1500;
    let start_block = rt.block_number;
    let end_block = start_block.saturating_add(height.into());

    assert_eq!(
        p.user_entre_safe_zone(rt, Origin::Signed(ACCOUNT_ID_1), swallower_hash, 1500),
        Ok(())
    );
    let balance_of_user_after = rt.asset_balance(ACCOUNT_ID_1);
    let balance_of_manager_after = rt.asset_balance(MANAGER_ID);
    assert_eq!(
        balance_of_user_after,
        balance_of_user_before - 24000000000000,
        "the user amount is not correct!"
    );
    assert_eq!(
        balance_of_manager_after,
        balance_of_manager_before + 24000000000000,
        "the manager amount is not correct!"
    );
    assert!(
        p.check_in_safe_zone(swallower_hash, rt.block_number),
        "swallower not entre the safe zone!"
    );
    assert_eq!(last_event(&p), Event::EntreSafeZone(swallower_hash, start_block, end_block));
}

#[test]
fn test_exit_safe_zone() {
    let (mut p, mut rt) = new_test_ext();
    let rt = &mut rt;
    assert_eq!(p.set_admin(Origin::Root, ADMIN_ID), Ok(()));
    assert_eq!(p.set_asset_id(Origin::Signed(ADMIN_ID), ASSET_ID), Ok(()));
    assert_eq!(rt.assets_transfer(1, ACCOUNT_ID_1, 170000000000), Ok(()));
    assert_eq!(p.mint_swallower(rt, Origin::Signed(ACCOUNT_ID_1), NAME.to_vec()), Ok(()));

    let owner_swallower = p.owner_swallower(ACCOUNT_ID_1);
    let swallower_hash = owner_swallower[0];
    let hashes = [swallower_hash];
    let before = fingerprint(&p, &hashes);
    assert_eq!(
        p.user_exit_safe_zone(rt, Origin::Signed(ACCOUNT_ID_2), swallower_hash),
        module(Error::NotOwner)
    );
    assert_eq!(fingerprint(&p, &hashes), before);
    assert_eq!(p.user_exit_safe_zone(rt, Origin::Signed(ACCOUNT_ID_1), swallower_hash), Ok(()));
    let before = fingerprint(&p, &hashes);
    assert_eq!(
        p.user_exit_safe_zone(rt, Origin::Signed(ACCOUNT_ID_1), swallower_hash),
        module(Error::SwallowerNotInSafeZone)
    );
    assert_eq!(fingerprint(&p, &hashes), before);
}

#[test]
fn test_user_claim_reward_in_battle_zone() {
    let (mut p, mut rt) = new_test_ext();
    let rt = &mut rt;
    init(&mut p, rt);
    let owner_swallower = p.owner_swallower(ACCOUNT_ID_1);
    assert_eq!(owner_swallower.len(), 2, "the user should have one swallower!");
    let challenger_hash = owner_swallower[0];
    let owner_swallower_2 = p.owner_swallower(ACCOUNT_ID_2);
    let facer_hash_2 = owner_swallower_2[0];
    let hashes = [challenger_hash, facer_hash_2];
    let before = fingerprint(&p, &hashes);
    assert_eq!(
        p.user_claim_reward_in_battle_zone(rt, Origin::Signed(ACCOUNT_ID_1), facer_hash_2),
        module(Error::NotOwner)
    );
    assert_eq!(fingerprint(&p, &hashes), before);
    assert_eq!(
        p.user_claim_reward_in_battle_zone(rt, Origin::Signed(ACCOUNT_ID_1), challenger_hash),
        module(Error::SwallowerInSafeZone)
    );
    assert_eq!(fingerprint(&p, &hashes), before);
    p.exit_safe_zone(challenger_hash, rt.block_number);
    for i in 0..20 {
        rt.assets_transfer(ACCOUNT_ASSET_OWNER_ID, ACCOUNT_ID_1, 160000000000).unwrap();
        assert_eq!(p.mint_swallower(rt, Origin::Signed(ACCOUNT_ID_1), vec!(i)), Ok(()));
    }
    let before = fingerprint(&p, &hashes);
    assert_eq!(
        p.user_claim_reward_in_battle_zone(rt, Origin::Signed(ACCOUNT_ID_1), challenger_hash),
        module(Error::RewardRatioLessThanAmount)
    );
    assert_eq!(fingerprint(&p, &hashes), before);
    let owner_swallower = p.owner_swallower(ACCOUNT_ID_1);
    for i in 2..owner_swallower.len() {
        p.exit_safe_zone(owner_swallower[i], rt.block_number);
    }
    assert_eq!(
        p.user_claim_reward_in_battle_zone(rt, Origin::Signed(ACCOUNT_ID_1), challenger_hash),
        Ok(())
    );
    let battle_zone_reward = p.battle_zone_reward_map(&challenger_hash).unwrap();
    let block_number = rt.block_number;
    assert_eq!(battle_zone_reward.block_number, block_number);
    assert_eq!(battle_zone_reward.fee, 16000000000);
    let before = fingerprint(&p, &hashes);
    assert_eq!(
        p.user_claim_reward_in_battle_zone(rt, Origin::Signed(ACCOUNT_ID_1), challenger_hash),
        module(Error::RewardTooClose)
    );
    assert_eq!(fingerprint(&p, &hashes), before);
    assert_eq!(
        last_event(&p),
        Event::BattleZoneReward(challenger_hash, block_number, 16000000000)
    );
}

#[test]
fn mint_price_and_genes_follow_the_gene_price() {
    let (mut p, mut rt) = new_test_ext();
    let rt = &mut rt;
    assert_eq!(p.set_admin(Origin::Root, ADMIN_ID), Ok(()));
    assert_eq!(p.set_asset_id(Origin::Signed(ADMIN_ID), ASSET_ID), Ok(()));
    assert_eq!(p.gene_price(10), Ok(10000000000));
    assert_eq!(p.gene_price(20), Err(DispatchError::Arithmetic(ArithmeticError::Overflow)));
    assert_eq!(p.gene_price(0), Ok(1));
    rt.assets_transfer(1, ACCOUNT_ID_1, 170000000000).unwrap();
    assert_eq!(p.mint_swallower(rt, Origin::Signed(ACCOUNT_ID_1), NAME.to_vec()), Ok(()));
    let h = p.owner_swallower(ACCOUNT_ID_1)[0];
    let sw = p.swallowers(&h).unwrap();
    assert_eq!(sw.gene, sw.init_gene);
    assert_eq!(sw.no, 1);
    assert_eq!(sw.owner, Some(ACCOUNT_ID_1));
    assert_eq!(sw.hash, Some(h));
    assert_eq!(p.gene_price(10), Ok(160000000000 / 16));
}

#[test]
fn unsigned_calls_are_refused() {
    let (mut p, mut rt) = new_test_ext();
    let rt = &mut rt;
    init(&mut p, rt);
    let h = p.owner_swallower(ACCOUNT_ID_1)[0];
    let f = p.owner_swallower(ACCOUNT_ID_2)[0];
    let before = fingerprint(&p, &[h, f]);
    assert_eq!(p.set_admin(Origin::Unsigned, 1), Err(DispatchError::BadOrigin));
    assert_eq!(p.set_asset_id(Origin::Root, 1), Err(DispatchError::BadOrigin));
    assert_eq!(p.mint_swallower(rt, Origin::Unsigned, b"x".to_vec()), Err(DispatchError::BadOrigin));
    assert_eq!(p.burn_swallower(rt, Origin::Root, h), Err(DispatchError::BadOrigin));
    assert_eq!(p.make_battle(rt, Origin::Unsigned, h, f), Err(DispatchError::BadOrigin));
    assert_eq!(p.user_entre_safe_zone(rt, Origin::Unsigned, h, 10), Err(DispatchError::BadOrigin));
    assert_eq!(p.user_exit_safe_zone(rt, Origin::Unsigned, h), Err(DispatchError::BadOrigin));
    assert_eq!(
        p.user_claim_reward_in_battle_zone(rt, Origin::Unsigned, h),
        Err(DispatchError::BadOrigin)
    );
    assert_eq!(
        p.change_swallower_name(rt, Origin::Unsigned, h, b"y".to_vec()),
        Err(DispatchError::BadOrigin)
    );
    assert_eq!(fingerprint(&p, &[h, f]), before);
}

#[test]
fn ownership_limit_refuses_a_mint_and_changes_no_storage() {
    struct Limited(TestRuntime);
    let (mut p, base) = new_test_ext();
    let mut rt = base;
    assert_eq!(p.set_admin(Origin::Root, ADMIN_ID), Ok(()));
    assert_eq!(p.set_asset_id(Origin::Signed(ADMIN_ID), ASSET_ID), Ok(()));
    rt.assets_transfer(1, ACCOUNT_ID_1, 500000000000).unwrap();
    let mut limited = Limited(rt);
    impl Config for Limited {
        fn block_number(&self) -> BlockNumber {
            self.0.block_number()
        }
        fn random(&self, subject: &[u8]) -> [u8; 32] {
            self.0.random(subject)
        }
        fn balance(&self, asset_id: AssetId, who: AccountId) -> Balance {
            self.0.balance(asset_id, who)
        }
        fn decimals(&self, asset_id: AssetId) -> u8 {
            self.0.decimals(asset_id)
        }
        fn transfer(
            &mut self,
            asset_id: AssetId,
            source: AccountId,
            dest: AccountId,
            amount: Balance,
            keep_alive: bool,
        ) -> Result<(), DispatchError> {
            self.0.transfer(asset_id, source, dest, amount, keep_alive)
        }
        fn init_gene_limit(&self) -> u32 {
            16
        }
        fn max_swallower_owen(&self) -> u32 {
            1
        }
    }
    assert_eq!(p.mint_swallower(&mut limited, Origin::Signed(ACCOUNT_ID_1), NAME.to_vec()), Ok(()));
    let h = p.owner_swallower(ACCOUNT_ID_1)[0];
    let before = fingerprint(&p, &[h]);
    assert_eq!(
        p.mint_swallower(&mut limited, Origin::Signed(ACCOUNT_ID_1), NAME1.to_vec()),
        module(Error::ExceedMaxSwallowerOwned)
    );
    assert_eq!(fingerprint(&p, &[h]), before);
}

/// The counters agree with the store: as many swallowers as are listed, as
/// many genes as they hold, each listed by its owner once and stored under
/// the key it records.
fn assert_store_counted(p: &Pallet, accounts: &[AccountId]) {
    let mut swallowers = 0u64;
    let mut genes = 0u64;
    for who in accounts {
        let list = p.owner_swallower(*who);
        for (i, h) in list.iter().enumerate() {
            assert!(!list[..i].contains(h), "a swallower is listed twice");
            let sw = p.swallowers(h).expect("a listed swallower is stored");
            assert_eq!(sw.owner, Some(*who));
            assert_eq!(sw.hash, Some(*h));
            swallowers += 1;
            genes += sw.gene.len() as u64;
        }
    }
    assert_eq!(p.swallower_amount(), swallowers);
    assert_eq!(p.gene_amount(), genes);
}

#[test]
fn counters_follow_mints_battles_and_burns() {
    let (mut p, mut rt) = new_test_ext();
    let rt = &mut rt;
    init(&mut p, rt);
    let accounts = [ACCOUNT_ID_1, ACCOUNT_ID_2];
    assert_store_counted(&p, &accounts);
    assert_eq!(p.swallower_amount(), 3);
    assert_eq!(p.gene_amount(), 48);

    let challenger_hash = p.owner_swallower(ACCOUNT_ID_1)[0];
    let facer_hash = p.owner_swallower(ACCOUNT_ID_2)[0];
    rt.set_block_number(1702);
    rt.on_initialize(1702);
    rt.assets_transfer(ACCOUNT_ASSET_OWNER_ID, ACCOUNT_ID_1, 3000000000000).unwrap();
    assert_eq!(p.make_battle(rt, Origin::Signed(ACCOUNT_ID_1), challenger_hash, facer_hash), Ok(()));
    assert_store_counted(&p, &accounts);
    assert_eq!(p.gene_amount(), 48);

    let burned = p.owner_swallower(ACCOUNT_ID_1)[1];
    assert_eq!(p.burn_swallower(rt, Origin::Signed(ACCOUNT_ID_1), burned), Ok(()));
    assert_store_counted(&p, &accounts);
    assert_eq!(p.swallower_amount(), 2);
    assert_eq!(p.gene_amount(), 32);
}

#[test]
fn fees_follow_the_gene_price() {
    let (mut p, mut rt) = new_test_ext();
    let rt = &mut rt;
    assert_eq!(p.challenge_fee(10), module(Error::NotExistAssetId).map(|_| 0));
    init(&mut p, rt);
    // 48 genes alive and 480 tokens held: one token per gene.
    assert_eq!(p.gene_amount(), 48);
    assert_eq!(p.asset_amount(), 480000000000);
    assert_eq!(p.gene_price(10), Ok(10000000000));
    assert_eq!(p.mint_price(10, 16), Ok(160000000000));
    assert_eq!(p.mint_price(10, u32::MAX), Err(DispatchError::Arithmetic(ArithmeticError::Overflow)));
    assert_eq!(p.challenge_fee(10), Ok(30000000000));
    assert_eq!(p.rename_fee(10), Ok(110000000000));
    assert_eq!(p.rename_fee(20), Err(DispatchError::Arithmetic(ArithmeticError::Overflow)));
    let hash = p.owner_swallower(ACCOUNT_ID_1)[0];
    assert_eq!(p.refund(&hash, 10), Ok(155200000000));
    assert_eq!(p.refund(&[7; 32], 10), module(Error::SwallowerNotExist).map(|_| 0));
    assert_eq!(p.protection_fee(&hash, 100, 10), Ok(1600000000000));
    assert_eq!(p.reward_fee(&hash, 10), Ok(16000000000));
    assert_eq!(p.reward_fee(&[7; 32], 10), module(Error::SwallowerNotExist).map(|_| 0));
}

#[test]
fn battle_zone_reward_opens_when_enough_swallowers_fight() {
    let (mut p, mut rt) = new_test_ext();
    let rt = &mut rt;
    init(&mut p, rt);
    let hash = p.owner_swallower(ACCOUNT_ID_1)[0];
    // All three are still protected after minting.
    assert_eq!(p.count_protected(101), 3);
    assert_eq!(p.reward_open(&hash, 101), module(Error::RewardRatioLessThanAmount));
    // Past every protection all three fight.
    assert_eq!(p.count_protected(2000), 0);
    assert_eq!(p.reward_open(&hash, 2000), Ok(()));
}

#[test]
fn battle_positions_start_at_the_random_byte() {
    let challenger: Swallower<u64, [u8; 32]> = Swallower::new(b"c".to_vec(), vec![4, 230, 50, 56], 1, 1);
    let facer: Swallower<u64, [u8; 32]> = Swallower::new(b"f".to_vec(), vec![23, 54, 162, 32, 132], 2, 2);
    // Four genes take part (the shorter chain), from position 6 % 4 = 2.
    assert_eq!(
        battle_positions(&challenger, &facer, 6, 10),
        vec![Winner::Facer(50), Winner::Challenger(32), Winner::NoneWin(4, 132), Winner::Facer(230)]
    );
    // At most two genes take part, from position 7 % 2 = 1.
    assert_eq!(
        battle_positions(&challenger, &facer, 7, 2),
        vec![Winner::Facer(230), Winner::Facer(50)]
    );
}

#[test]
fn mint_is_refused_below_the_price_and_moves_nothing() {
    let (mut p, mut rt) = new_test_ext();
    let rt = &mut rt;
    assert_eq!(p.set_admin(Origin::Root, ADMIN_ID), Ok(()));
    assert_eq!(p.set_asset_id(Origin::Signed(ADMIN_ID), ASSET_ID), Ok(()));
    rt.assets_transfer(ACCOUNT_ASSET_OWNER_ID, ACCOUNT_ID_1, 170000000000).unwrap();
    let before = fingerprint(&p, &[]);
    let random = [5u8; 32];
    // The price is 16 genes at one token of 10 decimals.
    assert_eq!(
        p.mint_swallower_with(rt, Origin::Signed(ACCOUNT_ID_1), NAME.to_vec(), 10, 16, 159999999999, &random, 1, 10),
        module(Error::NotEnoughMoney)
    );
    assert_eq!(fingerprint(&p, &[]), before);
    assert_eq!(rt.asset_balance(ACCOUNT_ID_1), 170000000000);
    // At the ownership limit nothing is paid either.
    assert_eq!(
        p.mint_swallower_with(rt, Origin::Signed(ACCOUNT_ID_1), NAME.to_vec(), 10, 16, 160000000000, &random, 1, 0),
        module(Error::ExceedMaxSwallowerOwned)
    );
    assert_eq!(fingerprint(&p, &[]), before);
    assert_eq!(rt.asset_balance(ACCOUNT_ID_1), 170000000000);
    assert_eq!(
        p.mint_swallower_with(rt, Origin::Signed(ACCOUNT_ID_1), NAME.to_vec(), 10, 16, 160000000000, &random, 1, 10),
        Ok(())
    );
    assert_eq!(rt.asset_balance(ACCOUNT_ID_1), 10000000000);
    assert_eq!(rt.asset_balance(MANAGER_ID), 160000000000);
}

#[test]
fn entering_the_safe_zone_checks_protection_height_and_balance() {
    let (mut p, mut rt) = new_test_ext();
    let rt = &mut rt;
    init(&mut p, rt);
    let h = p.owner_swallower(ACCOUNT_ID_1)[0];
    assert_eq!(
        p.user_entre_safe_zone_with(rt, Origin::Signed(ACCOUNT_ID_2), h, 100, 10, u64::MAX, 100),
        module(Error::NotOwner)
    );
    assert_eq!(
        p.user_entre_safe_zone_with(rt, Origin::Signed(ACCOUNT_ID_1), h, 100, 10, u64::MAX, 100),
        module(Error::SwallowerInSafeZone)
    );
    assert_eq!(
        p.user_entre_safe_zone_with(rt, Origin::Signed(ACCOUNT_ID_1), h, 3000, 10, u64::MAX, 1700),
        module(Error::OverMaxHeight)
    );
    // The expired protection was taken away by the check.
    assert_eq!(p.safe_zone(&h), None);
    // 16 genes for 100 blocks at one token a gene and a ratio of 10%.
    assert_eq!(p.protection_fee(&h, 100, 10), Ok(1600000000000));
    assert_eq!(
        p.user_entre_safe_zone_with(rt, Origin::Signed(ACCOUNT_ID_1), h, 100, 10, 1599999999999, 1700),
        module(Error::NotEnoughMoney)
    );
    assert_eq!(p.safe_zone(&h), None);
}

#[test]
fn a_rewarded_swallower_stays_in_the_battle_zone() {
    let (mut p, mut rt) = new_test_ext();
    let rt = &mut rt;
    init(&mut p, rt);
    let h = p.owner_swallower(ACCOUNT_ID_1)[0];
    rt.set_block_number(2000);
    assert_eq!(p.user_claim_reward_in_battle_zone(rt, Origin::Signed(ACCOUNT_ID_1), h), Ok(()));
    assert_eq!(
        p.user_entre_safe_zone(rt, Origin::Signed(ACCOUNT_ID_1), h, 100),
        module(Error::RewardTooClose)
    );
    assert_eq!(p.safe_zone(&h), None);
    rt.set_block_number(3800);
    assert_eq!(
        p.user_entre_safe_zone(rt, Origin::Signed(ACCOUNT_ID_1), h, 100),
        module(Error::NotEnoughMoney)
    );
}

#[test]
fn a_challenge_below_the_fee_only_drops_expired_protections() {
    let (mut p, mut rt) = new_test_ext();
    let rt = &mut rt;
    init(&mut p, rt);
    let challenger = p.owner_swallower(ACCOUNT_ID_1)[0];
    let facer = p.owner_swallower(ACCOUNT_ID_2)[0];
    assert_eq!(p.challenge_fee(10), Ok(30000000000));
    let genes = p.swallowers(&challenger).unwrap().gene;
    let events = p.events().len();
    assert_eq!(
        p.make_battle_with(rt, Origin::Signed(ACCOUNT_ID_1), challenger, facer, 10, 29999999999, 0, 1702),
        module(Error::NotEnoughMoney)
    );
    assert_eq!(p.safe_zone(&challenger), None);
    assert_eq!(p.safe_zone(&facer), None);
    assert_eq!(p.swallowers(&challenger).unwrap().gene, genes);
    assert_eq!(p.events().len(), events);
    assert_eq!(p.asset_amount(), 480000000000);
}

#[test]
fn exit_at_a_given_block_follows_the_protection() {
    let (mut p, mut rt) = new_test_ext();
    let rt = &mut rt;
    init(&mut p, rt);
    let h0 = p.owner_swallower(ACCOUNT_ID_1)[0];
    let h1 = p.owner_swallower(ACCOUNT_ID_1)[1];
    assert_eq!(p.user_exit_safe_zone_with(Origin::Signed(ACCOUNT_ID_2), h0, 1000), module(Error::NotOwner));
    assert_eq!(p.user_exit_safe_zone_with(Origin::Signed(ACCOUNT_ID_1), h0, 1601), Ok(()));
    assert_eq!(p.safe_zone(&h0), None);
    assert_eq!(last_event(&p), Event::ExitZone(h0, 1601));
    assert_eq!(
        p.user_exit_safe_zone_with(Origin::Signed(ACCOUNT_ID_1), h1, 1602),
        module(Error::SwallowerNotInSafeZone)
    );
    assert_eq!(p.safe_zone(&h1), None);
}

#[test]
fn a_refused_payment_never_names_an_error_of_the_game() {
    struct Refusing(TestRuntime);
    impl Config for Refusing {
        fn block_number(&self) -> BlockNumber {
            self.0.block_number()
        }
        fn random(&self, subject: &[u8]) -> [u8; 32] {
            self.0.random(subject)
        }
        fn balance(&self, asset_id: AssetId, who: AccountId) -> Balance {
            self.0.balance(asset_id, who)
        }
        fn decimals(&self, asset_id: AssetId) -> u8 {
            self.0.decimals(asset_id)
        }
        fn transfer(
            &mut self,
            _asset_id: AssetId,
            _source: AccountId,
            _dest: AccountId,
            _amount: Balance,
            _keep_alive: bool,
        ) -> Result<(), DispatchError> {
            Err(DispatchError::Module(Error::NotEnoughMoney))
        }
        fn init_gene_limit(&self) -> u32 {
            self.0.init_gene_limit()
        }
        fn max_swallower_owen(&self) -> u32 {
            self.0.max_swallower_owen()
        }
    }
    let (mut p, mut rt) = new_test_ext();
    assert_eq!(p.set_admin(Origin::Root, ADMIN_ID), Ok(()));
    assert_eq!(p.set_asset_id(Origin::Signed(ADMIN_ID), ASSET_ID), Ok(()));
    rt.assets_transfer(ACCOUNT_ASSET_OWNER_ID, ACCOUNT_ID_1, 170000000000).unwrap();
    let mut refusing = Refusing(rt);
    let before = fingerprint(&p, &[]);
    assert_eq!(
        p.mint_swallower(&mut refusing, Origin::Signed(ACCOUNT_ID_1), NAME.to_vec()),
        Err(DispatchError::Assets(3))
    );
    assert_eq!(fingerprint(&p, &[]), before);
}
