use vstd::prelude::*;

verus! {

/// The number of broad-phase layers.
pub const PHY_BROAD_COUNT: u32 = 2;

/// The broad-phase layer of static bodies.
pub const PHY_BROAD_STATIC: u8 = 0;

/// The broad-phase layer of moving bodies.
pub const PHY_BROAD_DYNAMIC: u8 = 1;

/// The number of object layer types.
pub const PHY_LAYER_TYPE_COUNT: u8 = 9;

/// The team a body belongs to, as bits.
#[derive(Debug, Clone, Copy, PartialEq, Eq, Hash, Structural)]
pub enum PhyLayerTeam {
    Player,
    Enemy,
    All,
}

/// The bits of a team.
pub open spec fn team_bits(t: PhyLayerTeam) -> u32 {
    match t {
        PhyLayerTeam::Player => 0x1,
        PhyLayerTeam::Enemy => 0x2,
        PhyLayerTeam::All => 0xFF,
    }
}

impl PhyLayerTeam {
    pub fn bits(self) -> (r: u32)
        ensures
            r == team_bits(self),
    {
        match self {
            PhyLayerTeam::Player => 0x1,
            PhyLayerTeam::Enemy => 0x2,
            PhyLayerTeam::All => 0xFF,
        }
    }
}

/// What kind of body an object layer holds.
#[derive(Debug, Clone, Copy, PartialEq, Eq, Hash, Structural)]
pub enum PhyLayerType {
    StaticScenery,
    StaticTrigger,
    DynamicScenery,
    BreakableScenery,
    DynamicTrigger,
    Bounding,
    Target,
    Hit,
    HitEx,
}

/// The number of a layer type, in declaration order.
pub open spec fn type_number(t: PhyLayerType) -> u8 {
    match t {
        PhyLayerType::StaticScenery => 0,
        PhyLayerType::StaticTrigger => 1,
        PhyLayerType::DynamicScenery => 2,
        PhyLayerType::BreakableScenery => 3,
        PhyLayerType::DynamicTrigger => 4,
        PhyLayerType::Bounding => 5,
        PhyLayerType::Target => 6,
        PhyLayerType::Hit => 7,
        PhyLayerType::HitEx => 8,
    }
}

/// The layer types a layer type collides with, one bit per type number.
pub open spec fn type_mask(t: u8) -> u64 {
    if t == 0 {
        288  // Bounding | HitEx
    } else if t == 1 {
        32  // Bounding
    } else if t == 2 {
        288  // Bounding | HitEx
    } else if t == 3 {
        416  // Bounding | HitEx | Hit
    } else if t == 4 {
        32  // Bounding
    } else if t == 5 {
        31  // StaticScenery | StaticTrigger | DynamicScenery | BreakableScenery | DynamicTrigger
    } else if t == 6 {
        384  // Hit | HitEx
    } else if t == 7 {
        72  // Target | BreakableScenery
    } else {
        77  // Target | BreakableScenery | StaticScenery | DynamicScenery
    }
}

/// The broad-phase layers a layer type collides with, one bit per layer.
pub open spec fn type_bp_mask(t: u8) -> u64 {
    if t == 5 || t == 8 {
        0x3
    } else {
        0x2
    }
}

impl PhyLayerType {
    pub fn number(self) -> (r: u8)
        ensures
            r == type_number(self),
    {
        match self {
            PhyLayerType::StaticScenery => 0,
            PhyLayerType::StaticTrigger => 1,
            PhyLayerType::DynamicScenery => 2,
            PhyLayerType::BreakableScenery => 3,
            PhyLayerType::DynamicTrigger => 4,
            PhyLayerType::Bounding => 5,
            PhyLayerType::Target => 6,
            PhyLayerType::Hit => 7,
            PhyLayerType::HitEx => 8,
        }
    }

    /// The layer types that type `typ` collides with.
    pub fn to_mask(typ: u8) -> (r: u64)
        requires
            typ < PHY_LAYER_TYPE_COUNT,
        ensures
            r == type_mask(typ),
    {
        let table: [u64; 9] = [288, 32, 288, 416, 32, 31, 384, 72, 77];
        table[typ as usize]
    }

    /// The broad-phase layers that type `typ` collides with.
    pub fn to_bp_mask(typ: u8) -> (r: u64)
        requires
            typ < PHY_LAYER_TYPE_COUNT,
        ensures
            r == type_bp_mask(typ),
    {
        let table: [u64; 9] = [0x2, 0x2, 0x2, 0x2, 0x2, 0x3, 0x2, 0x2, 0x3];
        table[typ as usize]
    }
}

/// The object layer of a body of type `typ` in team `team`.
pub open spec fn spec_phy_layer(typ: PhyLayerType, team: PhyLayerTeam) -> u32 {
    (type_number(typ) as u32) | (team_bits(team) << 8u32)
}

/// The object layer of a body of type `typ` in team `team`: the type number
/// in the low byte, the team bits above it.
pub fn phy_layer(typ: PhyLayerType, team: PhyLayerTeam) -> (r: u32)
    ensures
        r == spec_phy_layer(typ, team),
        extract_type_of(r) == type_number(typ),
        extract_team_of(r) == team_bits(team),
{
    let t = typ.number() as u32;
    let b = team.bits();
    let r = t | (b << 8u32);
    assert(t < 9 && b <= 0xFF ==> ((t | (b << 8u32)) & 0xFF) as u8 == t as u8 && (t | (b << 8u32))
        >> 8u32 == b) by (bit_vector);
    r
}

/// The type number of an object layer: its low byte.
pub open spec fn extract_type_of(layer: u32) -> u8 {
    (layer & 0xFF) as u8
}

/// The team bits of an object layer: what lies above the low byte.
pub open spec fn extract_team_of(layer: u32) -> u32 {
    layer >> 8u32
}

pub fn extract_layer_type(layer: u32) -> (r: u8)
    ensures
        r == extract_type_of(layer),
{
    (layer & 0xFF) as u8
}

pub fn extract_layer_team(layer: u32) -> (r: u32)
    ensures
        r == extract_team_of(layer),
{
    layer >> 8
}

/// The broad-phase layer of an object layer: static for the two static
/// types, dynamic for every other.
pub fn get_broad_phase_layer(layer: u32) -> (r: u8)
    ensures
        r == if extract_type_of(layer) <= 1 {
            PHY_BROAD_STATIC
        } else {
            PHY_BROAD_DYNAMIC
        },
{
    if extract_layer_type(layer) <= 1 {
        PHY_BROAD_STATIC
    } else {
        PHY_BROAD_DYNAMIC
    }
}

/// Whether a mask holds the bit of `n`.
pub open spec fn mask_has(mask: u64, n: u8) -> bool {
    (1u64 << n) & mask != 0
}

/// Whether a body of an object layer may touch a broad-phase layer.
pub fn object_vs_broad_phase_should_collide(layer: u32, bp_layer: u8) -> (r: bool)
    requires
        extract_type_of(layer) < PHY_LAYER_TYPE_COUNT,
        bp_layer < 64,
    ensures
        r == mask_has(type_bp_mask(extract_type_of(layer)), bp_layer),
{
    let typ = extract_layer_type(layer);
    let bp_mask = PhyLayerType::to_bp_mask(typ);
    assert(bp_mask & (1u64 << bp_layer) == (1u64 << bp_layer) & bp_mask) by (bit_vector);
    bp_mask & (1u64 << bp_layer) != 0
}

/// Whether bodies of two object layers collide: their teams share a bit and
/// each type lies in the other's mask.
pub open spec fn layers_collide(layer1: u32, layer2: u32) -> bool {
    let t1 = extract_type_of(layer1);
    let t2 = extract_type_of(layer2);
    &&& extract_team_of(layer1) & extract_team_of(layer2) != 0
    &&& mask_has(type_mask(t2), t1)
    &&& mask_has(type_mask(t1), t2)
}

/// Whether bodies of two object layers collide.
pub fn object_layer_pair_should_collide(layer1: u32, layer2: u32) -> (r: bool)
    requires
        extract_type_of(layer1) < PHY_LAYER_TYPE_COUNT,
        extract_type_of(layer2) < PHY_LAYER_TYPE_COUNT,
    ensures
        r == layers_collide(layer1, layer2),
{
    let team1 = extract_layer_team(layer1);
    let typ1 = extract_layer_type(layer1);
    let mask1 = PhyLayerType::to_mask(typ1);
    let team2 = extract_layer_team(layer2);
    let typ2 = extract_layer_type(layer2);
    let mask2 = PhyLayerType::to_mask(typ2);
    (team1 & team2) != 0 && ((1u64 << typ1) & mask2) != 0 && ((1u64 << typ2) & mask1) != 0
}

/// Collision between object layers does not depend on their order.
pub proof fn lemma_layers_collide_symmetric(layer1: u32, layer2: u32)
    ensures
        layers_collide(layer1, layer2) == layers_collide(layer2, layer1),
{
    let a = extract_team_of(layer1);
    let b = extract_team_of(layer2);
    assert(a & b == b & a) by (bit_vector);
}

/// The collision design, one way round: bounding volumes meet every kind of
/// scenery and trigger; extended hit boxes meet static, moving and
/// breakable scenery and targets; hit boxes meet breakable scenery and
/// targets.
pub open spec fn designed_pair(a: PhyLayerType, b: PhyLayerType) -> bool {
    match a {
        PhyLayerType::Bounding => b is StaticScenery || b is StaticTrigger || b is DynamicScenery
            || b is BreakableScenery || b is DynamicTrigger,
        PhyLayerType::HitEx => b is StaticScenery || b is DynamicScenery || b is BreakableScenery || b is Target,
        PhyLayerType::Hit => b is BreakableScenery || b is Target,
        _ => false,
    }
}

/// The collision design, either way round.
pub open spec fn designed_collide(a: PhyLayerType, b: PhyLayerType) -> bool {
    designed_pair(a, b) || designed_pair(b, a)
}

/// The object layer of a body gives back the type number and the team bits
/// it was made from.
pub proof fn lemma_phy_layer_fields(typ: PhyLayerType, team: PhyLayerTeam)
    ensures
        extract_type_of(spec_phy_layer(typ, team)) == type_number(typ),
        extract_team_of(spec_phy_layer(typ, team)) == team_bits(team),
{
    let t = type_number(typ) as u32;
    let b = team_bits(team);
    assert(t < 9 && b <= 0xFF ==> ((t | (b << 8u32)) & 0xFF) as u8 == t as u8 && (t | (b << 8u32))
        >> 8u32 == b) by (bit_vector);
}

/// The mask of a layer type holds exactly the types the design lets it meet.
proof fn lemma_type_mask_design(a: PhyLayerType, b: PhyLayerType)
    ensures
        mask_has(type_mask(type_number(a)), type_number(b)) == designed_collide(a, b),
{
    let n = type_number(b);
    match a {
        PhyLayerType::StaticScenery => {
            assert(((1u64 << n) & 288u64 != 0) == (n == 5 || n == 8)) by (bit_vector)
                requires
                    n < 9,
            ;
        },
        PhyLayerType::StaticTrigger => {
            assert(((1u64 << n) & 32u64 != 0) == (n == 5)) by (bit_vector)
                requires
                    n < 9,
            ;
        },
        PhyLayerType::DynamicScenery => {
            assert(((1u64 << n) & 288u64 != 0) == (n == 5 || n == 8)) by (bit_vector)
                requires
                    n < 9,
            ;
        },
        PhyLayerType::BreakableScenery => {
            assert(((1u64 << n) & 416u64 != 0) == (n == 5 || n == 7 || n == 8)) by (bit_vector)
                requires
                    n < 9,
            ;
        },
        PhyLayerType::DynamicTrigger => {
            assert(((1u64 << n) & 32u64 != 0) == (n == 5)) by (bit_vector)
                requires
                    n < 9,
            ;
        },
        PhyLayerType::Bounding => {
            assert(((1u64 << n) & 31u64 != 0) == (n <= 4)) by (bit_vector)
                requires
                    n < 9,
            ;
        },
        PhyLayerType::Target => {
            assert(((1u64 << n) & 384u64 != 0) == (n == 7 || n == 8)) by (bit_vector)
                requires
                    n < 9,
            ;
        },
        PhyLayerType::Hit => {
            assert(((1u64 << n) & 72u64 != 0) == (n == 3 || n == 6)) by (bit_vector)
                requires
                    n < 9,
            ;
        },
        PhyLayerType::HitEx => {
            assert(((1u64 << n) & 77u64 != 0) == (n == 0 || n == 2 || n == 3 || n == 6)) by (bit_vector)
                requires
                    n < 9,
            ;
        },
    }
}

/// Two teams share a bit exactly when they are the same team or one of
/// them is the team of all.
pub proof fn lemma_team_overlap(a: PhyLayerTeam, b: PhyLayerTeam)
    ensures
        (team_bits(a) & team_bits(b) != 0) == (a == b || a is All || b is All),
{
    assert(1u32 & 1u32 != 0 && 2u32 & 2u32 != 0 && 0xFFu32 & 0xFFu32 != 0 && 1u32 & 2u32 == 0 && 2u32 & 1u32
        == 0 && 1u32 & 0xFFu32 != 0 && 0xFFu32 & 1u32 != 0 && 2u32 & 0xFFu32 != 0 && 0xFFu32 & 2u32 != 0)
        by (bit_vector);
}

/// Bodies collide exactly as the design says: their teams overlap (the same
/// team, or one of them belongs to all) and their types are a designed pair
/// either way round: bounding volumes with every scenery and trigger,
/// extended hit boxes with static, moving and breakable scenery and
/// targets, hit boxes with breakable scenery and targets.
pub proof fn lemma_layers_collide_design(typ1: PhyLayerType, team1: PhyLayerTeam, typ2: PhyLayerType, team2: PhyLayerTeam)
    ensures
        layers_collide(spec_phy_layer(typ1, team1), spec_phy_layer(typ2, team2)) == ((team1 == team2 || team1 is All
            || team2 is All) && designed_collide(typ1, typ2)),
{
    lemma_phy_layer_fields(typ1, team1);
    lemma_phy_layer_fields(typ2, team2);
    lemma_team_overlap(team1, team2);
    lemma_type_mask_design(typ1, typ2);
    lemma_type_mask_design(typ2, typ1);
}

/// Only bounding volumes and extended hit boxes reach the static broad-phase
/// layer; every body reaches the dynamic one.  Only static scenery and
/// static triggers sit in the static broad-phase layer.
pub proof fn lemma_broad_phase_design(typ: PhyLayerType, team: PhyLayerTeam, bp_layer: u8)
    requires
        bp_layer < PHY_BROAD_COUNT,
    ensures
        mask_has(type_bp_mask(extract_type_of(spec_phy_layer(typ, team))), bp_layer) == (bp_layer
            == PHY_BROAD_DYNAMIC || typ is Bounding || typ is HitEx),
        (extract_type_of(spec_phy_layer(typ, team)) <= 1) == (typ is StaticScenery || typ is StaticTrigger),
{
    lemma_phy_layer_fields(typ, team);
    let n = bp_layer;
    assert(((1u64 << n) & 3u64 != 0) && (((1u64 << n) & 2u64 != 0) == (n == 1))) by (bit_vector)
        requires
            n < 2,
    ;
}

/// The object layer of static bodies in the plain layer scheme.
pub const PHY_LAYER_STATIC: u32 = 1;

/// The object layer of moving bodies in the plain layer scheme.
pub const PHY_LAYER_DYNAMIC: u32 = 2;

/// The object layer of players in the plain layer scheme.
pub const PHY_LAYER_PLAYER: u32 = 3;

/// The broad-phase layer of an object layer in the plain scheme: moving
/// bodies and players are dynamic, everything else static.
pub fn plain_broad_phase_layer(layer: u32) -> (r: u8)
    ensures
        r == if layer == PHY_LAYER_DYNAMIC || layer == PHY_LAYER_PLAYER {
            PHY_BROAD_DYNAMIC
        } else {
            PHY_BROAD_STATIC
        },
{
    if layer == PHY_LAYER_STATIC {
        PHY_BROAD_STATIC
    } else if layer == PHY_LAYER_DYNAMIC {
        PHY_BROAD_DYNAMIC
    } else if layer == PHY_LAYER_PLAYER {
        PHY_BROAD_DYNAMIC
    } else {
        PHY_BROAD_STATIC
    }
}

/// Whether an object layer of the plain scheme may touch a broad-phase
/// layer: static bodies only the dynamic one, moving bodies and players any.
pub fn plain_object_vs_broad_phase(layer: u32, bp_layer: u8) -> (r: bool)
    ensures
        r == if layer == PHY_LAYER_STATIC {
            bp_layer != PHY_BROAD_STATIC
        } else {
            layer == PHY_LAYER_DYNAMIC || layer == PHY_LAYER_PLAYER
        },
{
    if layer == PHY_LAYER_STATIC {
        bp_layer != PHY_BROAD_STATIC
    } else if layer == PHY_LAYER_DYNAMIC {
        true
    } else if layer == PHY_LAYER_PLAYER {
        true
    } else {
        false
    }
}

/// Whether two object layers of the plain scheme collide: static with
/// anything but static, moving with anything, players with anything but
/// players.
pub fn plain_object_pair(layer1: u32, layer2: u32) -> (r: bool)
    ensures
        r == if layer1 == PHY_LAYER_STATIC {
            layer2 != PHY_LAYER_STATIC
        } else if layer1 == PHY_LAYER_DYNAMIC {
            true
        } else if layer1 == PHY_LAYER_PLAYER {
            layer2 != PHY_LAYER_PLAYER
        } else {
            false
        },
{
    if layer1 == PHY_LAYER_STATIC {
        layer2 != PHY_LAYER_STATIC
    } else if layer1 == PHY_LAYER_DYNAMIC {
        true
    } else if layer1 == PHY_LAYER_PLAYER {
        layer2 != PHY_LAYER_PLAYER
    } else {
        false
    }
}

} // verus!
