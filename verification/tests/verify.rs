use critical_point::error::XError;
use critical_point::verify::{
    verify_accessories, verify_equipments, verify_jewels, verify_perks, verify_player, verify_style,
    ContextVerify, EquipmentSlot, JewelSlots, ParamAccessory, ParamPlayer, TmplAccessory, TmplAccessoryPattern,
    TmplAccessoryPool, TmplCharacter, TmplDatabase, TmplEquipment, TmplID, TmplIDLevel, TmplIDPlus, TmplJewel,
    TmplJewelSlot, TmplPerk, TmplStyle,
};

const CHARACTER_1: TmplID = TmplID(1);
const STYLE_1A: TmplID = TmplID(11);
const STYLE_1B: TmplID = TmplID(12);
const EQUIPMENT_1A: TmplID = TmplID(21);
const EQUIPMENT_1B: TmplID = TmplID(22);
const EQUIPMENT_1C: TmplID = TmplID(23);
const EQUIPMENT_2A: TmplID = TmplID(24);
const PERK_1A: TmplID = TmplID(31);
const PERK_1B: TmplID = TmplID(32);
const PERK_2A: TmplID = TmplID(33);
const ACCESSORY_ATTACK_UP_1: TmplID = TmplID(41);
const POOL_ATTACK_UP: TmplID = TmplID(42);
const ENTRY_ATTACK_UP: TmplID = TmplID(51);
const ENTRY_DEFENSE_UP: TmplID = TmplID(52);
const JEWEL_DEFENSE_UP_1: TmplID = TmplID(61);

fn slots(attack: u16, defense: u16, special: u16) -> JewelSlots {
    JewelSlots::new(attack, defense, special)
}

fn database() -> TmplDatabase {
    TmplDatabase {
        characters: vec![TmplCharacter {
            id: CHARACTER_1,
            level_min: 1,
            level_max: 6,
            styles: vec![STYLE_1A, STYLE_1B],
            equipments: vec![EQUIPMENT_1A, EQUIPMENT_1B, EQUIPMENT_1C],
        }],
        styles: vec![
            TmplStyle {
                id: STYLE_1A,
                slots: vec![
                    slots(0, 2, 2),
                    slots(0, 2, 2),
                    slots(1, 2, 2),
                    slots(1, 2, 2),
                    slots(1, 3, 2),
                    slots(1, 3, 3),
                ],
            },
            TmplStyle { id: STYLE_1B, slots: vec![] },
        ],
        equipments: vec![
            TmplEquipment {
                id: EQUIPMENT_1A,
                slot: EquipmentSlot::Slot1,
                level_min: 1,
                level_max: 4,
                slots: vec![slots(0, 0, 0), slots(0, 0, 1), slots(1, 0, 1), slots(1, 0, 1)],
            },
            TmplEquipment {
                id: EQUIPMENT_1B,
                slot: EquipmentSlot::Slot1,
                level_min: 0,
                level_max: 4,
                slots: vec![],
            },
            TmplEquipment {
                id: EQUIPMENT_1C,
                slot: EquipmentSlot::Slot2,
                level_min: 1,
                level_max: 3,
                slots: vec![slots(0, 1, 0), slots(0, 1, 1), slots(0, 2, 1)],
            },
            TmplEquipment {
                id: EQUIPMENT_2A,
                slot: EquipmentSlot::Slot3,
                level_min: 0,
                level_max: 4,
                slots: vec![],
            },
        ],
        perks: vec![
            TmplPerk {
                id: PERK_1A,
                style: STYLE_1A,
                usable_styles: vec![],
                max_level: 3,
                slots: vec![slots(0, 0, 0), slots(0, 1, 0)],
            },
            TmplPerk { id: PERK_1B, style: STYLE_1A, usable_styles: vec![], max_level: 1, slots: vec![] },
            TmplPerk { id: PERK_2A, style: TmplID(99), usable_styles: vec![STYLE_1B], max_level: 1, slots: vec![] },
        ],
        accessories: vec![TmplAccessory { id: ACCESSORY_ATTACK_UP_1, pool: POOL_ATTACK_UP }],
        accessory_pools: vec![TmplAccessoryPool {
            id: POOL_ATTACK_UP,
            max_level: 3,
            patterns: vec![TmplAccessoryPattern::A, TmplAccessoryPattern::B],
            a_entries: vec![ENTRY_ATTACK_UP, ENTRY_DEFENSE_UP],
            b_entries: vec![ENTRY_DEFENSE_UP],
        }],
        jewels: vec![TmplJewel { id: JEWEL_DEFENSE_UP_1, slot: TmplJewelSlot::Defense }],
    }
}

fn param() -> ParamPlayer {
    ParamPlayer {
        character: TmplID(0),
        style: TmplID(0),
        level: 0,
        equipments: vec![],
        perks: vec![],
        accessories: vec![],
        jewels: vec![],
    }
}

fn accessory(level: u32, entries: Vec<TmplID>) -> ParamAccessory {
    ParamAccessory { id: ACCESSORY_ATTACK_UP_1, level, entries }
}

#[test]
fn test_verify_style() {
    let db = database();
    let ctx = ContextVerify::new(&db);

    let mut param = param();
    param.character = CHARACTER_1;
    param.style = STYLE_1A;
    let err = verify_style(&ctx, &param).unwrap_err();
    assert_eq!(err, XError::BadParameter);

    param.style = STYLE_1A;
    param.level = 10;
    let err = verify_style(&ctx, &param).unwrap_err();
    assert_eq!(err, XError::BadParameter);

    param.style = STYLE_1A;
    param.level = 1;
    assert_eq!(verify_style(&ctx, &param).unwrap(), JewelSlots::new(0, 2, 2));

    param.style = STYLE_1A;
    param.level = 3;
    assert_eq!(verify_style(&ctx, &param).unwrap(), JewelSlots::new(1, 2, 2));
}

#[test]
fn test_verify_equipments() {
    let db = database();
    let ctx = ContextVerify::new(&db);

    let mut param = param();
    param.character = CHARACTER_1;
    param.equipments = vec![TmplIDLevel { id: EQUIPMENT_2A, level: 0 }];
    let err = verify_equipments(&ctx, &param).unwrap_err();
    assert_eq!(err, XError::BadParameter);

    param.equipments =
        vec![TmplIDLevel { id: EQUIPMENT_1A, level: 1 }, TmplIDLevel { id: EQUIPMENT_1B, level: 0 }];
    let err = verify_equipments(&ctx, &param).unwrap_err();
    assert_eq!(err, XError::BadParameter);

    param.equipments = vec![TmplIDLevel { id: EQUIPMENT_1A, level: 0 }];
    let err = verify_equipments(&ctx, &param).unwrap_err();
    assert_eq!(err, XError::BadParameter);

    param.equipments = vec![TmplIDLevel { id: EQUIPMENT_1A, level: 5 }];
    let err = verify_equipments(&ctx, &param).unwrap_err();
    assert_eq!(err, XError::BadParameter);

    param.equipments =
        vec![TmplIDLevel { id: EQUIPMENT_1A, level: 4 }, TmplIDLevel { id: EQUIPMENT_1C, level: 2 }];
    assert_eq!(verify_equipments(&ctx, &param).unwrap(), JewelSlots::new(1, 1, 2));
}

#[test]
fn test_verify_perks() {
    let db = database();
    let ctx = ContextVerify::new(&db);

    let mut param = param();
    param.style = STYLE_1A;
    param.perks = vec![TmplIDLevel { id: PERK_2A, level: 1 }];
    let err = verify_perks(&ctx, &param).unwrap_err();
    assert_eq!(err, XError::BadParameter);

    param.style = STYLE_1B;
    param.perks = vec![TmplIDLevel { id: PERK_1B, level: 1 }];
    let err = verify_perks(&ctx, &param).unwrap_err();
    assert_eq!(err, XError::BadParameter);

    param.style = STYLE_1A;
    param.perks = vec![TmplIDLevel { id: PERK_1A, level: 0 }];
    let err = verify_perks(&ctx, &param).unwrap_err();
    assert_eq!(err, XError::BadParameter);

    param.style = STYLE_1A;
    param.perks = vec![TmplIDLevel { id: PERK_1A, level: 2 }];
    assert_eq!(verify_perks(&ctx, &param).unwrap(), JewelSlots::new(0, 1, 0));
}

#[test]
fn test_verify_accessories() {
    let db = database();
    let ctx = ContextVerify::new(&db);

    let mut param = param();
    param.character = CHARACTER_1;
    param.accessories = (0..5).map(|_| accessory(1, vec![ENTRY_DEFENSE_UP])).collect();
    let err = verify_accessories(&ctx, &param).unwrap_err();
    assert_eq!(err, XError::BadParameter);

    param.accessories = vec![accessory(1, vec![ENTRY_DEFENSE_UP])];
    verify_accessories(&ctx, &param).unwrap();

    param.accessories = vec![accessory(10, vec![ENTRY_DEFENSE_UP])];
    let err = verify_accessories(&ctx, &param).unwrap_err();
    assert_eq!(err, XError::BadParameter);

    param.accessories = vec![accessory(1, vec![ENTRY_ATTACK_UP; 3])];
    let err = verify_accessories(&ctx, &param).unwrap_err();
    assert_eq!(err, XError::BadParameter);

    param.accessories = vec![accessory(1, vec![ENTRY_DEFENSE_UP, ENTRY_ATTACK_UP])];
    let err = verify_accessories(&ctx, &param).unwrap_err();
    assert_eq!(err, XError::BadParameter);
}

#[test]
fn test_verify_jewels() {
    let db = database();
    let ctx = ContextVerify::new(&db);

    let mut param = param();
    param.jewels = vec![TmplIDPlus { id: JEWEL_DEFENSE_UP_1, plus: 0 }];
    verify_jewels(&ctx, &param, JewelSlots::new(1, 1, 1)).unwrap();

    param.jewels = vec![TmplIDPlus { id: JEWEL_DEFENSE_UP_1, plus: 4 }];
    let err = verify_jewels(&ctx, &param, JewelSlots::new(1, 1, 1)).unwrap_err();
    assert_eq!(err, XError::BadParameter);

    param.jewels =
        vec![TmplIDPlus { id: JEWEL_DEFENSE_UP_1, plus: 1 }, TmplIDPlus { id: JEWEL_DEFENSE_UP_1, plus: 1 }];
    let err = verify_jewels(&ctx, &param, JewelSlots::new(1, 1, 1)).unwrap_err();
    assert_eq!(err, XError::BadParameter);
}

#[test]
fn verify_unknown_templates_are_not_found() {
    let db = database();
    let ctx = ContextVerify::new(&db);
    let mut param = param();
    param.character = TmplID(500);
    param.style = STYLE_1A;
    assert_eq!(verify_style(&ctx, &param).unwrap_err(), XError::NotFound);
    param.jewels = vec![TmplIDPlus { id: TmplID(500), plus: 0 }];
    assert_eq!(verify_jewels(&ctx, &param, JewelSlots::new(1, 1, 1)).unwrap_err(), XError::NotFound);
}

#[test]
fn verify_player_adds_slots_then_places_jewels() {
    let db = database();
    let mut ctx = ContextVerify::new(&db);
    let mut param = param();
    param.character = CHARACTER_1;
    param.style = STYLE_1B;
    param.level = 2;
    param.jewels = vec![TmplIDPlus { id: JEWEL_DEFENSE_UP_1, plus: 0 }];
    // Style 1B opens no slot: the jewel has nowhere to go.
    assert_eq!(verify_player(&mut ctx, &param), Err(XError::BadParameter));

    // An equipment opens one defense slot.
    param.equipments = vec![TmplIDLevel { id: EQUIPMENT_1C, level: 1 }];
    assert_eq!(verify_player(&mut ctx, &param), Ok(()));

    param.accessories = vec![accessory(1, vec![ENTRY_DEFENSE_UP])];
    param.perks = vec![TmplIDLevel { id: PERK_2A, level: 1 }];
    assert_eq!(verify_player(&mut ctx, &param), Ok(()));

    param.jewels.push(TmplIDPlus { id: JEWEL_DEFENSE_UP_1, plus: 0 });
    assert_eq!(verify_player(&mut ctx, &param), Err(XError::BadParameter));
}

#[test]
fn jewel_slots_add_with_saturation() {
    assert_eq!(JewelSlots::default(), JewelSlots::new(0, 0, 0));
    let mut s = JewelSlots::empty();
    s.append(&JewelSlots::new(1, 2, u16::MAX));
    s.append(&JewelSlots::new(1, 0, 5));
    assert_eq!(s, JewelSlots::new(2, 2, u16::MAX));
}
