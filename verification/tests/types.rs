use pallet_swallower::types::{
    BattleZoneReward, FeeConfig, ProtectConfig, ProtectState, Swallower, Winner,
};

#[test]
fn test_battle() {
    let mut challenger: Swallower<u32, [u8; 32]> =
        Swallower::new(b"challenger".to_vec(), vec![4, 230, 50, 56], 1, 1);
    let mut facer: Swallower<u32, [u8; 32]> =
        Swallower::new(b"face".to_vec(), vec![23, 54, 162, 32, 132], 2, 2);
    let winners = challenger.battle(&facer, 2, 4);
    for winner in winners {
        match winner {
            Winner::Challenger(f) => {
                challenger.evolve_gene(f as u8);
                facer.lost_gene(f as u8);
            }
            Winner::Facer(c) => {
                facer.evolve_gene(c as u8);
                challenger.lost_gene(c as u8);
            }
            Winner::NoneWin(c, f) => {
                challenger.lost_gene(c as u8);
                facer.lost_gene(f as u8);
            }
        }
    }
    assert_eq!(challenger.gene, [56, 32], "challenger gene is error!");
    assert_eq!(facer.gene, [23, 54, 162, 50, 230], "facer gene is error!");
}

#[test]
fn battle_positions_follow_the_distance_rule() {
    let c: Swallower<u32, [u8; 32]> = Swallower::new(b"c".to_vec(), vec![4, 230, 50, 56], 1, 1);
    let f: Swallower<u32, [u8; 32]> =
        Swallower::new(b"f".to_vec(), vec![23, 54, 162, 32, 132], 2, 2);
    assert_eq!(
        c.battle(&f, 2, 4),
        vec![
            Winner::Facer(50),
            Winner::Challenger(32),
            Winner::NoneWin(4, 132),
            Winner::Facer(230)
        ]
    );
    // Identical genes are a draw.
    let e: Swallower<u32, [u8; 32]> = Swallower::new(b"e".to_vec(), vec![7], 3, 3);
    assert_eq!(e.battle(&e, 0, 1), vec![Winner::NoneWin(7, 7)]);
    // Distance 200 from below: the smaller wins.
    let a: Swallower<u32, [u8; 32]> = Swallower::new(b"a".to_vec(), vec![10], 4, 4);
    let b: Swallower<u32, [u8; 32]> = Swallower::new(b"b".to_vec(), vec![210], 5, 5);
    assert_eq!(a.battle(&b, 0, 1), vec![Winner::Challenger(210)]);
    assert_eq!(b.battle(&a, 0, 1), vec![Winner::Facer(210)]);
}

#[test]
fn battle_part_turns_the_chain() {
    let s: Swallower<u32, [u8; 32]> = Swallower::new(b"s".to_vec(), vec![1, 2, 3, 4, 5], 1, 1);
    assert_eq!(s.get_battle_part(2, 4), vec![3, 4, 5, 1]);
    assert_eq!(s.get_battle_part(5, 5), vec![1, 2, 3, 4, 5]);
    assert_eq!(s.get_battle_part(0, 0), Vec::<u8>::new());
}

#[test]
fn genes_are_won_and_lost() {
    let mut s: Swallower<u32, [u8; 32]> = Swallower::new(b"s".to_vec(), vec![9, 7, 9], 1, 1);
    assert!(!s.is_destroy());
    s.evolve_gene(7);
    assert_eq!(s.gene, vec![9, 7, 9, 7]);
    s.lost_gene(9);
    assert_eq!(s.gene, vec![7, 9, 7]);
    s.lost_gene(7);
    s.lost_gene(7);
    s.lost_gene(9);
    assert!(s.is_destroy());
    assert_eq!(s.init_gene, vec![9, 7, 9]);
    assert_eq!(s.owner, Some(1));
    assert_eq!(s.hash, None);
}

#[test]
fn default_configs_and_records() {
    let c = FeeConfig::default();
    assert_eq!(c.change_name_fee, 11);
    assert_eq!(c.max_challenge_length, 10);
    assert_eq!(c.destroy_fee_percent, 3);
    assert_eq!(c.challenge_fee_ratio, 300);
    assert_eq!(c.protect_fee_ratio, 10);
    assert_eq!(c.protect_max_length, 2000);
    assert_eq!(c.reward_trigger_ratio, 10);
    assert_eq!(c.battle_zone_reward_block, 1800);
    assert_eq!(c.battle_zone_reward_ratio, 10);
    assert_eq!(c.ratio, 100);
    let p = ProtectConfig::default();
    assert_eq!(p.first_mint_protect_duration, 1600);
    assert_eq!(p.auto_enter_safe_zone_block_number, 100);
    let z = ProtectState::new(5u64, 9u64);
    assert_eq!((z.start_block, z.end_block), (5, 9));
    let r = BattleZoneReward::new(7u64, 8u64);
    assert_eq!((r.block_number, r.fee), (7, 8));
}

#[test]
fn update_config_lists_what_it_set() {
    let mut c = FeeConfig::default();
    let (values, names) = c.update_config(
        None,
        Some(4),
        None,
        Some(150),
        None,
        None,
        None,
        None,
        None,
        Some(50),
    );
    assert_eq!(values, vec![4, 150, 50]);
    assert_eq!(
        names,
        vec![
            b"max_challenge_length".to_vec(),
            b"challenge_fee_ratio".to_vec(),
            b"ratio".to_vec()
        ]
    );
    assert_eq!(c.max_challenge_length, 4);
    assert_eq!(c.challenge_fee_ratio, 150);
    assert_eq!(c.ratio, 50);
    assert_eq!(c.change_name_fee, 11);
    let (values, names) =
        c.update_config(None, None, None, None, None, None, None, None, None, None);
    assert!(values.is_empty() && names.is_empty());
}
