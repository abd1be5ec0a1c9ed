use critical_point::contact::{PhyBodyUserData, PHY_BODY_USER_DATA_PADDING};
use critical_point::ids::NumID;
use critical_point::layer::{
    extract_layer_team, extract_layer_type, get_broad_phase_layer, object_layer_pair_should_collide,
    object_vs_broad_phase_should_collide, phy_layer, plain_broad_phase_layer, plain_object_pair,
    plain_object_vs_broad_phase, PhyLayerTeam, PhyLayerType, PHY_LAYER_DYNAMIC, PHY_LAYER_PLAYER,
    PHY_LAYER_STATIC,
};

use PhyLayerTeam::{All, Enemy, Player};
use PhyLayerType::{
    BreakableScenery, Bounding, DynamicScenery, DynamicTrigger, Hit, HitEx, StaticScenery, StaticTrigger,
    Target,
};

#[test]
fn test_broad_phase_layer_interface() {
    assert_eq!(get_broad_phase_layer(phy_layer(StaticScenery, All)), 0);
    assert_eq!(get_broad_phase_layer(phy_layer(StaticTrigger, All)), 0);
    assert_eq!(get_broad_phase_layer(phy_layer(DynamicScenery, All)), 1);
    assert_eq!(get_broad_phase_layer(phy_layer(BreakableScenery, All)), 1);
    assert_eq!(get_broad_phase_layer(phy_layer(DynamicTrigger, All)), 1);
    assert_eq!(get_broad_phase_layer(phy_layer(Bounding, All)), 1);
    assert_eq!(get_broad_phase_layer(phy_layer(Target, All)), 1);
    assert_eq!(get_broad_phase_layer(phy_layer(Hit, All)), 1);
    assert_eq!(get_broad_phase_layer(phy_layer(HitEx, All)), 1);
}

#[test]
fn test_object_vs_broad_phase_layer_filter() {
    let should_collide = object_vs_broad_phase_should_collide;

    assert_eq!(should_collide(phy_layer(StaticScenery, All), 0), false);
    assert_eq!(should_collide(phy_layer(StaticScenery, All), 1), true);

    assert_eq!(should_collide(phy_layer(DynamicScenery, All), 0), false);
    assert_eq!(should_collide(phy_layer(DynamicScenery, All), 1), true);

    assert_eq!(should_collide(phy_layer(StaticTrigger, All), 0), false);
    assert_eq!(should_collide(phy_layer(StaticTrigger, All), 1), true);

    assert_eq!(should_collide(phy_layer(DynamicTrigger, All), 0), false);
    assert_eq!(should_collide(phy_layer(DynamicTrigger, All), 1), true);

    assert_eq!(should_collide(phy_layer(BreakableScenery, All), 0), false);
    assert_eq!(should_collide(phy_layer(BreakableScenery, All), 1), true);

    assert_eq!(should_collide(phy_layer(Bounding, All), 0), true);
    assert_eq!(should_collide(phy_layer(Bounding, All), 1), true);

    assert_eq!(should_collide(phy_layer(Target, All), 0), false);
    assert_eq!(should_collide(phy_layer(Target, All), 1), true);

    assert_eq!(should_collide(phy_layer(Hit, All), 0), false);
    assert_eq!(should_collide(phy_layer(Hit, All), 1), true);

    assert_eq!(should_collide(phy_layer(HitEx, All), 0), true);
    assert_eq!(should_collide(phy_layer(HitEx, All), 1), true);
}

#[test]
fn test_object_layer_pair_filter() {
    let should_collide = object_layer_pair_should_collide;

    assert_eq!(should_collide(phy_layer(StaticScenery, All), phy_layer(StaticScenery, All)), false);
    assert_eq!(should_collide(phy_layer(StaticTrigger, All), phy_layer(StaticTrigger, All)), false);

    assert_eq!(should_collide(phy_layer(StaticScenery, All), phy_layer(Bounding, Player)), true);
    assert_eq!(should_collide(phy_layer(StaticTrigger, All), phy_layer(Bounding, Enemy)), true);

    assert_eq!(should_collide(phy_layer(StaticScenery, All), phy_layer(Target, Player)), false);
    assert_eq!(should_collide(phy_layer(StaticTrigger, All), phy_layer(Target, Enemy)), false);

    assert_eq!(should_collide(phy_layer(StaticScenery, All), phy_layer(Hit, Player)), false);
    assert_eq!(should_collide(phy_layer(StaticTrigger, All), phy_layer(Hit, Enemy)), false);

    assert_eq!(should_collide(phy_layer(StaticScenery, All), phy_layer(HitEx, Player)), true);
    assert_eq!(should_collide(phy_layer(StaticTrigger, All), phy_layer(HitEx, Enemy)), false);

    assert_eq!(should_collide(phy_layer(Target, Enemy), phy_layer(Hit, Enemy)), true);
    assert_eq!(should_collide(phy_layer(Target, Enemy), phy_layer(HitEx, Enemy)), true);
    assert_eq!(should_collide(phy_layer(Target, Player), phy_layer(Hit, Enemy)), false);
    assert_eq!(should_collide(phy_layer(Target, Player), phy_layer(HitEx, Enemy)), false);

    assert_eq!(should_collide(phy_layer(Bounding, Enemy), phy_layer(Hit, Enemy)), false);
    assert_eq!(should_collide(phy_layer(Bounding, Enemy), phy_layer(HitEx, Enemy)), false);
    assert_eq!(should_collide(phy_layer(Bounding, Enemy), phy_layer(Target, Enemy)), false);
}

#[test]
fn phy_layer_packs_type_and_team() {
    assert_eq!(phy_layer(StaticScenery, All), 0xFF00);
    assert_eq!(phy_layer(HitEx, Enemy), 0x0208);
    assert_eq!(phy_layer(Target, Player), 0x0106);
    assert_eq!(extract_layer_type(0x0208), 8);
    assert_eq!(extract_layer_team(0x0208), 2);
}

#[test]
fn layer_pair_filter_is_symmetric() {
    let types = [
        StaticScenery, StaticTrigger, DynamicScenery, BreakableScenery, DynamicTrigger, Bounding, Target, Hit,
        HitEx,
    ];
    let teams = [Player, Enemy, All];
    for t1 in types {
        for m1 in teams {
            for t2 in types {
                for m2 in teams {
                    let a = phy_layer(t1, m1);
                    let b = phy_layer(t2, m2);
                    assert_eq!(object_layer_pair_should_collide(a, b), object_layer_pair_should_collide(b, a));
                }
            }
        }
    }
}

#[test]
fn plain_layer_scheme() {
    assert_eq!(plain_broad_phase_layer(PHY_LAYER_STATIC), 0);
    assert_eq!(plain_broad_phase_layer(PHY_LAYER_DYNAMIC), 1);
    assert_eq!(plain_broad_phase_layer(PHY_LAYER_PLAYER), 1);
    assert_eq!(plain_object_pair(PHY_LAYER_STATIC, PHY_LAYER_STATIC), false);
    assert_eq!(plain_object_pair(PHY_LAYER_STATIC, PHY_LAYER_PLAYER), true);
    assert_eq!(plain_object_pair(PHY_LAYER_DYNAMIC, PHY_LAYER_DYNAMIC), true);
    assert_eq!(plain_object_vs_broad_phase(PHY_LAYER_STATIC, 0), false);
    assert_eq!(plain_object_vs_broad_phase(PHY_LAYER_STATIC, 1), true);
}

#[test]
fn test_phy_body_user_date_layout() {
    let zero = PhyBodyUserData::from(0u64);
    assert!(matches!(zero, PhyBodyUserData::Empty));

    assert_eq!(PHY_BODY_USER_DATA_PADDING, 4);

    let none_u64: u64 = PhyBodyUserData::Empty.into();
    let none = PhyBodyUserData::try_from(none_u64).unwrap();
    assert_eq!(none, PhyBodyUserData::Empty);

    let stage_u64: u64 = PhyBodyUserData::Zone.into();
    let stage = PhyBodyUserData::try_from(stage_u64).unwrap();
    assert_eq!(stage, PhyBodyUserData::Zone);

    let hit_u64: u64 = PhyBodyUserData::Hit { chara_id: NumID(1234), hit: 99 }.into();
    let hit = PhyBodyUserData::try_from(hit_u64).unwrap();
    assert_eq!(hit, PhyBodyUserData::Hit { chara_id: NumID(1234), hit: 99 });

    let character_u64: u64 = PhyBodyUserData::Character { id: NumID(7777) }.into();
    let character = PhyBodyUserData::try_from(character_u64).unwrap();
    assert_eq!(character, PhyBodyUserData::Character { id: NumID(7777) });
}

#[test]
fn user_data_unused_tags_decode_to_empty() {
    assert_eq!(PhyBodyUserData::from_u64(4), PhyBodyUserData::Empty);
    assert_eq!(PhyBodyUserData::from_u64(0xFF), PhyBodyUserData::Empty);
    assert_eq!(PhyBodyUserData::new_zone().to_u64(), 1);
    assert_eq!(PhyBodyUserData::new_hit(NumID(1), 2).to_u64(), 2 | (2 << 16) | (1 << 32));
    assert_eq!(PhyBodyUserData::new_character(NumID(5)).to_u64(), 3 | (5 << 32));
}
