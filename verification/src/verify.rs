use vstd::prelude::*;

use crate::error::{XError, XResult};
pub use crate::ids::TmplID;

verus! {

/// The most accessories a player may carry.
pub const ACCESSORY_MAX_COUNT: usize = 4;

/// The highest plus level of a jewel.
pub const MAX_ENTRY_PLUS: u32 = 3;

/// Counts of open jewel slots of each kind.
#[derive(Debug, Clone, Copy, PartialEq, Eq, Structural)]
pub struct JewelSlots {
    pub attack: u16,
    pub defense: u16,
    pub special: u16,
}

/// `a + b`, capped at the largest `u16`.
pub open spec fn sat_add(a: u16, b: u16) -> u16 {
    if a + b > u16::MAX {
        u16::MAX
    } else {
        (a + b) as u16
    }
}

impl JewelSlots {
    pub open spec fn zero() -> JewelSlots {
        JewelSlots { attack: 0, defense: 0, special: 0 }
    }

    /// The counts of both, added kind by kind (capped at the largest `u16`).
    pub open spec fn plus(self, other: JewelSlots) -> JewelSlots {
        JewelSlots {
            attack: sat_add(self.attack, other.attack),
            defense: sat_add(self.defense, other.defense),
            special: sat_add(self.special, other.special),
        }
    }

    pub fn new(attack: u16, defense: u16, special: u16) -> (r: JewelSlots)
        ensures
            r == (JewelSlots { attack, defense, special }),
    {
        JewelSlots { attack, defense, special }
    }

    /// No open slots.
    pub fn empty() -> (r: JewelSlots)
        ensures
            r == JewelSlots::zero(),
    {
        JewelSlots { attack: 0, defense: 0, special: 0 }
    }

    /// Adds the counts of `other`.
    pub fn append(&mut self, other: &JewelSlots)
        ensures
            *final(self) == old(self).plus(*other),
    {
        self.attack = self.attack.saturating_add(other.attack);
        self.defense = self.defense.saturating_add(other.defense);
        self.special = self.special.saturating_add(other.special);
    }
}

impl Default for JewelSlots {
    fn default() -> (r: JewelSlots)
        ensures
            r == JewelSlots::zero(),
    {
        JewelSlots::empty()
    }
}

/// A template id with a level.
#[derive(Debug, Clone, Copy, PartialEq, Eq, Structural)]
pub struct TmplIDLevel {
    pub id: TmplID,
    pub level: u32,
}

/// A template id with a plus level.
#[derive(Debug, Clone, Copy, PartialEq, Eq, Structural)]
pub struct TmplIDPlus {
    pub id: TmplID,
    pub plus: u32,
}

/// Where on the body an equipment is worn.
#[derive(Debug, Clone, Copy, PartialEq, Eq, Structural)]
pub enum EquipmentSlot {
    Slot1,
    Slot2,
    Slot3,
    Slot4,
}

/// The kind of slot a jewel takes.
#[derive(Debug, Clone, Copy, PartialEq, Eq, Structural)]
pub enum TmplJewelSlot {
    Attack,
    Defense,
    Special,
}

/// Which entry lists an accessory slot draws from.
#[derive(Debug, Clone, Copy, PartialEq, Eq, Structural)]
pub enum TmplAccessoryPattern {
    A,
    B,
    AB,
}

/// Something stored in the template database under an id.
pub trait HasTmplId {
    spec fn spec_tmpl_id(&self) -> TmplID;

    fn tmpl_id(&self) -> (r: TmplID)
        ensures
            r == self.spec_tmpl_id(),
    ;
}

pub struct TmplCharacter {
    pub id: TmplID,
    pub level_min: u32,
    pub level_max: u32,
    pub styles: Vec<TmplID>,
    pub equipments: Vec<TmplID>,
}

pub struct TmplStyle {
    pub id: TmplID,
    /// The slots a style opens, by level from the character's lowest level.
    pub slots: Vec<JewelSlots>,
}

pub struct TmplEquipment {
    pub id: TmplID,
    pub slot: EquipmentSlot,
    pub level_min: u32,
    pub level_max: u32,
    /// The slots an equipment opens, by level from its lowest level.
    pub slots: Vec<JewelSlots>,
}

pub struct TmplPerk {
    pub id: TmplID,
    pub style: TmplID,
    pub usable_styles: Vec<TmplID>,
    pub max_level: u32,
    /// The slots a perk opens, by level from level 1.
    pub slots: Vec<JewelSlots>,
}

pub struct TmplAccessory {
    pub id: TmplID,
    pub pool: TmplID,
}

pub struct TmplAccessoryPool {
    pub id: TmplID,
    pub max_level: u32,
    pub patterns: Vec<TmplAccessoryPattern>,
    pub a_entries: Vec<TmplID>,
    pub b_entries: Vec<TmplID>,
}

pub struct TmplJewel {
    pub id: TmplID,
    pub slot: TmplJewelSlot,
}

impl HasTmplId for TmplCharacter {
    open spec fn spec_tmpl_id(&self) -> TmplID {
        self.id
    }

    fn tmpl_id(&self) -> (r: TmplID) {
        self.id
    }
}

impl HasTmplId for TmplStyle {
    open spec fn spec_tmpl_id(&self) -> TmplID {
        self.id
    }

    fn tmpl_id(&self) -> (r: TmplID) {
        self.id
    }
}

impl HasTmplId for TmplEquipment {
    open spec fn spec_tmpl_id(&self) -> TmplID {
        self.id
    }

    fn tmpl_id(&self) -> (r: TmplID) {
        self.id
    }
}

impl HasTmplId for TmplPerk {
    open spec fn spec_tmpl_id(&self) -> TmplID {
        self.id
    }

    fn tmpl_id(&self) -> (r: TmplID) {
        self.id
    }
}

impl HasTmplId for TmplAccessory {
    open spec fn spec_tmpl_id(&self) -> TmplID {
        self.id
    }

    fn tmpl_id(&self) -> (r: TmplID) {
        self.id
    }
}

impl HasTmplId for TmplAccessoryPool {
    open spec fn spec_tmpl_id(&self) -> TmplID {
        self.id
    }

    fn tmpl_id(&self) -> (r: TmplID) {
        self.id
    }
}

impl HasTmplId for TmplJewel {
    open spec fn spec_tmpl_id(&self) -> TmplID {
        self.id
    }

    fn tmpl_id(&self) -> (r: TmplID) {
        self.id
    }
}

/// The first template in `s` stored under `id`, if any.
#[verifier::opaque]
pub open spec fn lookup<T: HasTmplId>(s: Seq<T>, id: TmplID) -> Option<T> {
    if exists|i: int| 0 <= i < s.len() && s[i].spec_tmpl_id() == id {
        let i = choose|i: int|
            0 <= i < s.len() && s[i].spec_tmpl_id() == id && (forall|j: int|
                0 <= j < i ==> s[j].spec_tmpl_id() != id);
        Some(s[i])
    } else {
        None
    }
}

/// The first template of `v` stored under `id`; `NotFound` when none is.
pub fn find_in<T: HasTmplId>(v: &Vec<T>, id: TmplID) -> (r: XResult<&T>)
    ensures
        match lookup(v@, id) {
            Some(t) => (r matches Ok(x) && *x == t),
            None => r == Err::<&T, XError>(XError::NotFound),
        },
{
    let mut i: usize = 0;
    while i < v.len()
        invariant
            i <= v@.len(),
            forall|j: int| 0 <= j < i ==> (#[trigger] v@[j]).spec_tmpl_id() != id,
        decreases v@.len() - i,
    {
        if v[i].tmpl_id() == id {
            proof {
                reveal(lookup);
                assert(v@[i as int].spec_tmpl_id() == id);
                let c = choose|k: int|
                    0 <= k < v@.len() && v@[k].spec_tmpl_id() == id && (forall|j: int|
                        0 <= j < k ==> v@[j].spec_tmpl_id() != id);
                assert(0 <= i < v@.len() && v@[i as int].spec_tmpl_id() == id && (forall|j: int|
                    0 <= j < i ==> v@[j].spec_tmpl_id() != id));
                if c < i {
                    assert(v@[c].spec_tmpl_id() != id);
                } else if c > i {
                    assert(v@[i as int].spec_tmpl_id() != id);
                }
            }
            return Ok(&v[i]);
        }
        i = i + 1;
    }
    proof {
        reveal(lookup);
    }
    Err(XError::NotFound)
}

/// Whether `id` occurs in `v`.
pub fn contains_id(v: &Vec<TmplID>, id: TmplID) -> (r: bool)
    ensures
        r == v@.contains(id),
{
    let mut i: usize = 0;
    while i < v.len()
        invariant
            i <= v@.len(),
            forall|j: int| 0 <= j < i ==> v@[j] != id,
        decreases v@.len() - i,
    {
        if v[i] == id {
            proof {
                assert(v@[i as int] == id);
            }
            return true;
        }
        i = i + 1;
    }
    false
}

/// The templates the parameter checks read.
pub struct TmplDatabase {
    pub characters: Vec<TmplCharacter>,
    pub styles: Vec<TmplStyle>,
    pub equipments: Vec<TmplEquipment>,
    pub perks: Vec<TmplPerk>,
    pub accessories: Vec<TmplAccessory>,
    pub accessory_pools: Vec<TmplAccessoryPool>,
    pub jewels: Vec<TmplJewel>,
}

/// Where the parameter checks find the templates.
pub struct ContextVerify<'t> {
    pub tmpl_db: &'t TmplDatabase,
}

impl<'t> ContextVerify<'t> {
    pub fn new(tmpl_db: &'t TmplDatabase) -> (r: ContextVerify<'t>)
        ensures
            r.tmpl_db == tmpl_db,
    {
        ContextVerify { tmpl_db }
    }
}

/// An accessory as a player chose it: its level and the entry of each slot.
pub struct ParamAccessory {
    pub id: TmplID,
    pub level: u32,
    pub entries: Vec<TmplID>,
}

/// The zone a game takes place in.
pub struct ParamZone {
    pub zone: TmplID,
}

/// What a player chose before a game.
pub struct ParamPlayer {
    pub character: TmplID,
    pub style: TmplID,
    pub level: u32,
    pub equipments: Vec<TmplIDLevel>,
    pub perks: Vec<TmplIDLevel>,
    pub accessories: Vec<ParamAccessory>,
    pub jewels: Vec<TmplIDPlus>,
}

/// The result of checking the style of `param`.
pub open spec fn spec_verify_style(db: &TmplDatabase, param: &ParamPlayer) -> Result<JewelSlots, XError> {
    match lookup(db.characters@, param.character) {
        None => Err(XError::NotFound),
        Some(c) => match lookup(db.styles@, param.style) {
            None => Err(XError::NotFound),
            Some(s) => if !c.styles@.contains(s.id) {
                Err(XError::BadParameter)
            } else if param.level < c.level_min || param.level > c.level_max {
                Err(XError::BadParameter)
            } else if s.slots@.len() == 0 {
                Ok(JewelSlots::zero())
            } else {
                Ok(JewelSlots::zero().plus(s.slots@[param.level - c.level_min]))
            },
        },
    }
}

/// The slot table of the style `param` names has a row for `param`'s
/// level, whenever the style check gets as far as reading it.
pub open spec fn style_slots_cover(db: &TmplDatabase, param: &ParamPlayer) -> bool {
    match (lookup(db.characters@, param.character), lookup(db.styles@, param.style)) {
        (Some(c), Some(s)) => c.styles@.contains(s.id) && c.level_min <= param.level <= c.level_max
            && s.slots@.len() != 0 ==> param.level - c.level_min < s.slots@.len(),
        _ => true,
    }
}

/// Checks the character, style and level of `param` and returns the jewel
/// slots the style opens at that level.
pub fn verify_style(ctx: &ContextVerify<'_>, param: &ParamPlayer) -> (r: XResult<JewelSlots>)
    requires
        style_slots_cover(ctx.tmpl_db, param),
    ensures
        r == spec_verify_style(ctx.tmpl_db, param),
{
    let db = ctx.tmpl_db;
    let character = match find_in(&db.characters, param.character) {
        Ok(c) => c,
        Err(e) => {
            return Err(e);
        },
    };
    let style = match find_in(&db.styles, param.style) {
        Ok(s) => s,
        Err(e) => {
            return Err(e);
        },
    };
    if !contains_id(&character.styles, style.id) {
        return Err(XError::BadParameter);
    }
    if param.level < character.level_min || param.level > character.level_max {
        return Err(XError::BadParameter);
    }
    let mut slots = JewelSlots::empty();
    if style.slots.len() != 0 {
        let idx = (param.level - character.level_min) as usize;
        slots.append(&style.slots[idx]);
    }
    Ok(slots)
}

/// Checks a player's equipments in order: each must exist, be allowed for
/// the character, take a slot no earlier equipment took, and have a level
/// in its range.  Gives the slots they open and the body slots they take.
pub open spec fn spec_equipments(db: &TmplDatabase, c: TmplCharacter, items: Seq<TmplIDLevel>) -> Result<
    (JewelSlots, Seq<EquipmentSlot>),
    XError,
>
    decreases items.len(),
{
    if items.len() == 0 {
        Ok((JewelSlots::zero(), Seq::empty()))
    } else {
        equipment_step(db, c, spec_equipments(db, c, items.drop_last()), items.last())
    }
}

/// One equipment checked after those before it gave `prev`.
pub open spec fn equipment_step(
    db: &TmplDatabase,
    c: TmplCharacter,
    prev: Result<(JewelSlots, Seq<EquipmentSlot>), XError>,
    it: TmplIDLevel,
) -> Result<(JewelSlots, Seq<EquipmentSlot>), XError> {
    match prev {
        Err(e) => Err(e),
        Ok((slots, used)) => match lookup(db.equipments@, it.id) {
            None => Err(XError::NotFound),
            Some(eq) => if !c.equipments@.contains(eq.id) {
                Err(XError::BadParameter)
            } else if used.contains(eq.slot) {
                Err(XError::BadParameter)
            } else if it.level < eq.level_min || it.level > eq.level_max {
                Err(XError::BadParameter)
            } else {
                Ok(
                    (
                        if eq.slots@.len() == 0 {
                            slots
                        } else {
                            slots.plus(eq.slots@[it.level - eq.level_min])
                        },
                        used.push(eq.slot),
                    ),
                )
            },
        },
    }
}

/// The result of checking the equipments of `param`.
pub open spec fn spec_verify_equipments(db: &TmplDatabase, param: &ParamPlayer) -> Result<JewelSlots, XError> {
    match lookup(db.characters@, param.character) {
        None => Err(XError::NotFound),
        Some(c) => match spec_equipments(db, c, param.equipments@) {
            Err(e) => Err(e),
            Ok((slots, _)) => Ok(slots),
        },
    }
}

/// Whether `v` holds the slot `s`.
fn contains_slot(v: &Vec<EquipmentSlot>, s: EquipmentSlot) -> (r: bool)
    ensures
        r == v@.contains(s),
{
    let mut i: usize = 0;
    while i < v.len()
        invariant
            i <= v@.len(),
            forall|j: int| 0 <= j < i ==> v@[j] != s,
        decreases v@.len() - i,
    {
        if v[i] == s {
            proof {
                assert(v@[i as int] == s);
            }
            return true;
        }
        i = i + 1;
    }
    false
}

/// The slot table of the `i`-th equipment of `items` has a row for its
/// level, whenever the check of the equipments gets as far as reading it.
pub open spec fn equipment_slot_covered(db: &TmplDatabase, c: TmplCharacter, items: Seq<TmplIDLevel>, i: int) -> bool {
    match (spec_equipments(db, c, items.take(i)), lookup(db.equipments@, items[i].id)) {
        (Ok((_, used)), Some(eq)) => c.equipments@.contains(eq.id) && !used.contains(eq.slot)
            && eq.level_min <= items[i].level <= eq.level_max && eq.slots@.len() != 0
            ==> items[i].level - eq.level_min < eq.slots@.len(),
        _ => true,
    }
}

/// Every slot table that checking the equipments of `param` reads has a row
/// for the level it reads.
pub open spec fn equipment_slots_cover(db: &TmplDatabase, param: &ParamPlayer) -> bool {
    match lookup(db.characters@, param.character) {
        Some(c) => forall|i: int|
            0 <= i < param.equipments@.len() ==> #[trigger] equipment_slot_covered(
                db,
                c,
                param.equipments@,
                i,
            ),
        None => true,
    }
}

/// Checks the equipments of `param` and returns the jewel slots they open.
#[verifier::rlimit(40)]
pub fn verify_equipments(ctx: &ContextVerify<'_>, param: &ParamPlayer) -> (r: XResult<JewelSlots>)
    requires
        equipment_slots_cover(ctx.tmpl_db, param),
    ensures
        r == spec_verify_equipments(ctx.tmpl_db, param),
{
    let db = ctx.tmpl_db;
    let character = match find_in(&db.characters, param.character) {
        Ok(c) => c,
        Err(e) => {
            return Err(e);
        },
    };
    let ghost items = param.equipments@;
    let mut slots = JewelSlots::empty();
    let mut used: Vec<EquipmentSlot> = Vec::new();
    let mut i: usize = 0;
    while i < param.equipments.len()
        invariant
            db == ctx.tmpl_db,
            equipment_slots_cover(db, param),
            i <= items.len(),
            items == param.equipments@,
            lookup(db.characters@, param.character) == Some(*character),
            spec_equipments(db, *character, items.take(i as int)) == Ok::<
                (JewelSlots, Seq<EquipmentSlot>),
                XError,
            >((slots, used@)),
        decreases items.len() - i,
    {
        proof {
            assert(items.take(i + 1).drop_last() =~= items.take(i as int));
            assert(items.take(i + 1).last() == items[i as int]);
        }
        assert(spec_equipments(db, *character, items.take(i + 1)) == equipment_step(
            db,
            *character,
            Ok((slots, used@)),
            items[i as int],
        ));
        let item = param.equipments[i];
        let equipment = match find_in(&db.equipments, item.id) {
            Ok(eq) => eq,
            Err(e) => {
                proof {
                    lemma_equipments_err(db, *character, items, i + 1);
                }
                return Err(e);
            },
        };
        if !contains_id(&character.equipments, equipment.id) {
            proof {
                lemma_equipments_err(db, *character, items, i + 1);
            }
            return Err(XError::BadParameter);
        }
        if contains_slot(&used, equipment.slot) {
            proof {
                lemma_equipments_err(db, *character, items, i + 1);
            }
            return Err(XError::BadParameter);
        }
        if item.level < equipment.level_min || item.level > equipment.level_max {
            proof {
                lemma_equipments_err(db, *character, items, i + 1);
            }
            return Err(XError::BadParameter);
        }
        if equipment.slots.len() != 0 {
            proof {
                assert(equipment_slot_covered(db, *character, items, i as int));
            }
            let idx = (item.level - equipment.level_min) as usize;
            slots.append(&equipment.slots[idx]);
        }
        used.push(equipment.slot);
        i = i + 1;
    }
    proof {
        assert(items.take(items.len() as int) =~= items);
    }
    Ok(slots)
}

/// Checks a player's perks in order: each must exist, belong to or be
/// usable by the style, and have a level from 1 to its highest.  Gives the
/// slots they open on top of `slots`.
pub open spec fn spec_perks(db: &TmplDatabase, style: TmplID, items: Seq<TmplIDLevel>) -> Result<
    JewelSlots,
    XError,
>
    decreases items.len(),
{
    if items.len() == 0 {
        Ok(JewelSlots::zero())
    } else {
        perk_step(db, style, spec_perks(db, style, items.drop_last()), items.last())
    }
}

/// One perk checked after those before it gave `prev`.
pub open spec fn perk_step(
    db: &TmplDatabase,
    style: TmplID,
    prev: Result<JewelSlots, XError>,
    it: TmplIDLevel,
) -> Result<JewelSlots, XError> {
    match prev {
        Err(e) => Err(e),
        Ok(slots) => match lookup(db.perks@, it.id) {
            None => Err(XError::NotFound),
            Some(p) => if p.style != style && !p.usable_styles@.contains(style) {
                Err(XError::BadParameter)
            } else if it.level < 1 || it.level > p.max_level {
                Err(XError::BadParameter)
            } else if it.level - 1 < p.slots@.len() {
                Ok(slots.plus(p.slots@[it.level - 1]))
            } else {
                Ok(slots)
            },
        },
    }
}

/// The result of checking the perks of `param`.
pub open spec fn spec_verify_perks(db: &TmplDatabase, param: &ParamPlayer) -> Result<JewelSlots, XError> {
    match lookup(db.styles@, param.style) {
        None => Err(XError::NotFound),
        Some(s) => spec_perks(db, s.id, param.perks@),
    }
}

/// Checks the perks of `param` and returns the jewel slots they open.
#[verifier::rlimit(40)]
pub fn verify_perks(ctx: &ContextVerify<'_>, param: &ParamPlayer) -> (r: XResult<JewelSlots>)
    ensures
        r == spec_verify_perks(ctx.tmpl_db, param),
{
    let db = ctx.tmpl_db;
    let style = match find_in(&db.styles, param.style) {
        Ok(s) => s,
        Err(e) => {
            return Err(e);
        },
    };
    let ghost items = param.perks@;
    let mut slots = JewelSlots::empty();
    let mut i: usize = 0;
    while i < param.perks.len()
        invariant
            db == ctx.tmpl_db,
            lookup(db.styles@, param.style) == Some(*style),
            i <= items.len(),
            items == param.perks@,
            spec_perks(db, style.id, items.take(i as int)) == Ok::<JewelSlots, XError>(slots),
        decreases items.len() - i,
    {
        proof {
            assert(items.take(i + 1).drop_last() =~= items.take(i as int));
            assert(items.take(i + 1).last() == items[i as int]);
        }
        assert(spec_perks(db, style.id, items.take(i + 1)) == perk_step(
            db,
            style.id,
            Ok(slots),
            items[i as int],
        ));
        let item = param.perks[i];
        let perk = match find_in(&db.perks, item.id) {
            Ok(p) => p,
            Err(e) => {
                proof {
                    lemma_perks_err(db, style.id, items, i + 1);
                }
                return Err(e);
            },
        };
        if perk.style != style.id && !contains_id(&perk.usable_styles, style.id) {
            proof {
                lemma_perks_err(db, style.id, items, i + 1);
            }
            return Err(XError::BadParameter);
        }
        if item.level < 1 || item.level > perk.max_level {
            proof {
                lemma_perks_err(db, style.id, items, i + 1);
            }
            return Err(XError::BadParameter);
        }
        let k = (item.level - 1) as usize;
        if k < perk.slots.len() {
            slots.append(&perk.slots[k]);
        }
        i = i + 1;
    }
    proof {
        assert(items.take(items.len() as int) =~= items);
    }
    Ok(slots)
}

/// Whether an entry may fill an accessory slot of the given pattern.
pub open spec fn entry_allowed(pool: TmplAccessoryPool, pattern: TmplAccessoryPattern, entry: TmplID) -> bool {
    match pattern {
        TmplAccessoryPattern::A => pool.a_entries@.contains(entry),
        TmplAccessoryPattern::B => pool.b_entries@.contains(entry),
        TmplAccessoryPattern::AB => pool.a_entries@.contains(entry) || pool.b_entries@.contains(entry),
    }
}

/// Checks a player's accessories in order: each and its pool must exist,
/// its level may not pass the pool's highest, it may not have more entries
/// than the pool has slots, and each entry must fit its slot's pattern.
pub open spec fn spec_accessories(db: &TmplDatabase, items: Seq<ParamAccessory>) -> Result<(), XError>
    decreases items.len(),
{
    if items.len() == 0 {
        Ok(())
    } else {
        accessory_step(db, spec_accessories(db, items.drop_last()), items.last())
    }
}

/// One accessory checked after those before it gave `prev`.
pub open spec fn accessory_step(db: &TmplDatabase, prev: Result<(), XError>, pa: ParamAccessory) -> Result<
    (),
    XError,
> {
    match prev {
        Err(e) => Err(e),
        Ok(()) => match lookup(db.accessories@, pa.id) {
            None => Err(XError::NotFound),
            Some(a) => match lookup(db.accessory_pools@, a.pool) {
                None => Err(XError::NotFound),
                Some(pool) => if pa.level > pool.max_level {
                    Err(XError::BadParameter)
                } else if pa.entries@.len() > pool.patterns@.len() {
                    Err(XError::BadParameter)
                } else if exists|k: int|
                    0 <= k < pa.entries@.len() && !entry_allowed(
                        pool,
                        pool.patterns@[k],
                        #[trigger] pa.entries@[k],
                    ) {
                    Err(XError::BadParameter)
                } else {
                    Ok(())
                },
            },
        },
    }
}

/// The result of checking the accessories of `param`.
pub open spec fn spec_verify_accessories(db: &TmplDatabase, param: &ParamPlayer) -> Result<(), XError> {
    if param.accessories@.len() > ACCESSORY_MAX_COUNT {
        Err(XError::BadParameter)
    } else {
        spec_accessories(db, param.accessories@)
    }
}

/// Whether every entry of `pa` fits the pattern of its slot in `pool`.
fn entries_allowed(pool: &TmplAccessoryPool, pa: &ParamAccessory) -> (r: bool)
    requires
        pa.entries@.len() <= pool.patterns@.len(),
    ensures
        r == !(exists|k: int|
            0 <= k < pa.entries@.len() && !entry_allowed(*pool, pool.patterns@[k], #[trigger] pa.entries@[k])),
{
    let mut k: usize = 0;
    while k < pa.entries.len()
        invariant
            k <= pa.entries@.len() <= pool.patterns@.len(),
            forall|j: int| 0 <= j < k ==> entry_allowed(*pool, pool.patterns@[j], #[trigger] pa.entries@[j]),
        decreases pa.entries@.len() - k,
    {
        let entry = pa.entries[k];
        let contain = match pool.patterns[k] {
            TmplAccessoryPattern::A => contains_id(&pool.a_entries, entry),
            TmplAccessoryPattern::B => contains_id(&pool.b_entries, entry),
            TmplAccessoryPattern::AB => contains_id(&pool.a_entries, entry) || contains_id(
                &pool.b_entries,
                entry,
            ),
        };
        if !contain {
            proof {
                assert(!entry_allowed(*pool, pool.patterns@[k as int], pa.entries@[k as int]));
            }
            return false;
        }
        k = k + 1;
    }
    true
}

/// Checks the accessories of `param`.
#[verifier::rlimit(40)]
pub fn verify_accessories(ctx: &ContextVerify<'_>, param: &ParamPlayer) -> (r: XResult<()>)
    ensures
        r == spec_verify_accessories(ctx.tmpl_db, param),
{
    if param.accessories.len() > ACCESSORY_MAX_COUNT {
        return Err(XError::BadParameter);
    }
    let db = ctx.tmpl_db;
    let ghost items = param.accessories@;
    let mut i: usize = 0;
    while i < param.accessories.len()
        invariant
            db == ctx.tmpl_db,
            param.accessories@.len() <= ACCESSORY_MAX_COUNT,
            i <= items.len(),
            items == param.accessories@,
            spec_accessories(db, items.take(i as int)) == Ok::<(), XError>(()),
        decreases items.len() - i,
    {
        proof {
            assert(items.take(i + 1).drop_last() =~= items.take(i as int));
            assert(items.take(i + 1).last() == items[i as int]);
        }
        assert(spec_accessories(db, items.take(i + 1)) == accessory_step(db, Ok(()), items[i as int]));
        let pa = &param.accessories[i];
        let accessory = match find_in(&db.accessories, pa.id) {
            Ok(a) => a,
            Err(e) => {
                proof {
                    lemma_accessories_err(db, items, i + 1);
                }
                return Err(e);
            },
        };
        let pool = match find_in(&db.accessory_pools, accessory.pool) {
            Ok(p) => p,
            Err(e) => {
                proof {
                    lemma_accessories_err(db, items, i + 1);
                }
                return Err(e);
            },
        };
        if pa.level > pool.max_level {
            proof {
                lemma_accessories_err(db, items, i + 1);
            }
            return Err(XError::BadParameter);
        }
        if pa.entries.len() > pool.patterns.len() {
            proof {
                lemma_accessories_err(db, items, i + 1);
            }
            return Err(XError::BadParameter);
        }
        if !entries_allowed(pool, pa) {
            proof {
                lemma_accessories_err(db, items, i + 1);
            }
            return Err(XError::BadParameter);
        }
        i = i + 1;
    }
    proof {
        assert(items.take(items.len() as int) =~= items);
    }
    Ok(())
}

/// `slots` with one slot of the given kind taken, or `None` when no slot of
/// that kind is open.
pub open spec fn take_slot(slots: JewelSlots, kind: TmplJewelSlot) -> Option<JewelSlots> {
    match kind {
        TmplJewelSlot::Attack => if slots.attack == 0 {
            None
        } else {
            Some(JewelSlots { attack: (slots.attack - 1) as u16, ..slots })
        },
        TmplJewelSlot::Defense => if slots.defense == 0 {
            None
        } else {
            Some(JewelSlots { defense: (slots.defense - 1) as u16, ..slots })
        },
        TmplJewelSlot::Special => if slots.special == 0 {
            None
        } else {
            Some(JewelSlots { special: (slots.special - 1) as u16, ..slots })
        },
    }
}

/// Places a player's jewels in order into the open `slots`: each must exist,
/// have a plus level no higher than the highest, and find an open slot of
/// its kind.  Gives the slots left open.
pub open spec fn spec_jewels(db: &TmplDatabase, slots: JewelSlots, items: Seq<TmplIDPlus>) -> Result<
    JewelSlots,
    XError,
>
    decreases items.len(),
{
    if items.len() == 0 {
        Ok(slots)
    } else {
        jewel_step(db, spec_jewels(db, slots, items.drop_last()), items.last())
    }
}

/// One jewel placed after those before it left `prev` open.
pub open spec fn jewel_step(db: &TmplDatabase, prev: Result<JewelSlots, XError>, it: TmplIDPlus) -> Result<
    JewelSlots,
    XError,
> {
    match prev {
        Err(e) => Err(e),
        Ok(left) => match lookup(db.jewels@, it.id) {
            None => Err(XError::NotFound),
            Some(j) => if it.plus > MAX_ENTRY_PLUS {
                Err(XError::BadParameter)
            } else {
                match take_slot(left, j.slot) {
                    None => Err(XError::BadParameter),
                    Some(l) => Ok(l),
                }
            },
        },
    }
}

/// The result of placing the jewels of `param` into `slots`.
pub open spec fn spec_verify_jewels(db: &TmplDatabase, param: &ParamPlayer, slots: JewelSlots) -> Result<
    (),
    XError,
> {
    match spec_jewels(db, slots, param.jewels@) {
        Err(e) => Err(e),
        Ok(_) => Ok(()),
    }
}

/// Places the jewels of `param` into the open `slots`.
#[verifier::rlimit(40)]
pub fn verify_jewels(ctx: &ContextVerify<'_>, param: &ParamPlayer, slots: JewelSlots) -> (r: XResult<()>)
    ensures
        r == spec_verify_jewels(ctx.tmpl_db, param, slots),
{
    let db = ctx.tmpl_db;
    let ghost items = param.jewels@;
    let mut left = slots;
    let mut i: usize = 0;
    while i < param.jewels.len()
        invariant
            db == ctx.tmpl_db,
            i <= items.len(),
            items == param.jewels@,
            spec_jewels(db, slots, items.take(i as int)) == Ok::<JewelSlots, XError>(left),
        decreases items.len() - i,
    {
        proof {
            assert(items.take(i + 1).drop_last() =~= items.take(i as int));
            assert(items.take(i + 1).last() == items[i as int]);
        }
        assert(spec_jewels(db, slots, items.take(i + 1)) == jewel_step(db, Ok(left), items[i as int]));
        let item = param.jewels[i];
        let jewel = match find_in(&db.jewels, item.id) {
            Ok(j) => j,
            Err(e) => {
                proof {
                    lemma_jewels_err(db, slots, items, i + 1);
                }
                return Err(e);
            },
        };
        if item.plus > MAX_ENTRY_PLUS {
            proof {
                lemma_jewels_err(db, slots, items, i + 1);
            }
            return Err(XError::BadParameter);
        }
        match jewel.slot {
            TmplJewelSlot::Attack => {
                if left.attack == 0 {
                    proof {
                        lemma_jewels_err(db, slots, items, i + 1);
                    }
                    return Err(XError::BadParameter);
                }
                left.attack = left.attack - 1;
            },
            TmplJewelSlot::Defense => {
                if left.defense == 0 {
                    proof {
                        lemma_jewels_err(db, slots, items, i + 1);
                    }
                    return Err(XError::BadParameter);
                }
                left.defense = left.defense - 1;
            },
            TmplJewelSlot::Special => {
                if left.special == 0 {
                    proof {
                        lemma_jewels_err(db, slots, items, i + 1);
                    }
                    return Err(XError::BadParameter);
                }
                left.special = left.special - 1;
            },
        }
        i = i + 1;
    }
    proof {
        assert(items.take(items.len() as int) =~= items);
    }
    Ok(())
}

proof fn lemma_equipments_err(db: &TmplDatabase, c: TmplCharacter, items: Seq<TmplIDLevel>, k: int)
    requires
        0 <= k <= items.len(),
        spec_equipments(db, c, items.take(k)) is Err,
    ensures
        spec_equipments(db, c, items) == spec_equipments(db, c, items.take(k)),
    decreases items.len(),
{
    if items.len() == k {
        assert(items.take(k) =~= items);
    } else {
        assert(items.drop_last().take(k) =~= items.take(k));
        lemma_equipments_err(db, c, items.drop_last(), k);
    }
}

proof fn lemma_perks_err(db: &TmplDatabase, style: TmplID, items: Seq<TmplIDLevel>, k: int)
    requires
        0 <= k <= items.len(),
        spec_perks(db, style, items.take(k)) is Err,
    ensures
        spec_perks(db, style, items) == spec_perks(db, style, items.take(k)),
    decreases items.len(),
{
    if items.len() == k {
        assert(items.take(k) =~= items);
    } else {
        assert(items.drop_last().take(k) =~= items.take(k));
        lemma_perks_err(db, style, items.drop_last(), k);
    }
}

proof fn lemma_accessories_err(db: &TmplDatabase, items: Seq<ParamAccessory>, k: int)
    requires
        0 <= k <= items.len(),
        spec_accessories(db, items.take(k)) is Err,
    ensures
        spec_accessories(db, items) == spec_accessories(db, items.take(k)),
    decreases items.len(),
{
    if items.len() == k {
        assert(items.take(k) =~= items);
    } else {
        assert(items.drop_last().take(k) =~= items.take(k));
        lemma_accessories_err(db, items.drop_last(), k);
    }
}

proof fn lemma_jewels_err(db: &TmplDatabase, slots: JewelSlots, items: Seq<TmplIDPlus>, k: int)
    requires
        0 <= k <= items.len(),
        spec_jewels(db, slots, items.take(k)) is Err,
    ensures
        spec_jewels(db, slots, items) == spec_jewels(db, slots, items.take(k)),
    decreases items.len(),
{
    if items.len() == k {
        assert(items.take(k) =~= items);
    } else {
        assert(items.drop_last().take(k) =~= items.take(k));
        lemma_jewels_err(db, slots, items.drop_last(), k);
    }
}

/// The result of checking everything a player chose: style, equipments and
/// perks in turn, each adding the jewel slots it opens, then accessories,
/// then the jewels against the slots opened.
pub open spec fn spec_verify_player(db: &TmplDatabase, param: &ParamPlayer) -> Result<(), XError> {
    match spec_verify_style(db, param) {
        Err(e) => Err(e),
        Ok(s1) => match spec_verify_equipments(db, param) {
            Err(e) => Err(e),
            Ok(s2) => match spec_verify_perks(db, param) {
                Err(e) => Err(e),
                Ok(s3) => match spec_verify_accessories(db, param) {
                    Err(e) => Err(e),
                    Ok(()) => spec_verify_jewels(db, param, JewelSlots::zero().plus(s1).plus(s2).plus(s3)),
                },
            },
        },
    }
}

/// Checks everything a player chose before a game.
pub fn verify_player(ctx: &mut ContextVerify<'_>, param: &ParamPlayer) -> (r: XResult<()>)
    requires
        style_slots_cover(old(ctx).tmpl_db, param),
        spec_verify_style(old(ctx).tmpl_db, param) is Ok ==> equipment_slots_cover(old(ctx).tmpl_db, param),
    ensures
        r == spec_verify_player(old(ctx).tmpl_db, param),
        *final(ctx) == *old(ctx),
{
    let ctx: &ContextVerify<'_> = ctx;
    let mut slots = JewelSlots::empty();
    match verify_style(ctx, param) {
        Ok(s) => slots.append(&s),
        Err(e) => {
            return Err(e);
        },
    }
    match verify_equipments(ctx, param) {
        Ok(s) => slots.append(&s),
        Err(e) => {
            return Err(e);
        },
    }
    match verify_perks(ctx, param) {
        Ok(s) => slots.append(&s),
        Err(e) => {
            return Err(e);
        },
    }
    match verify_accessories(ctx, param) {
        Ok(()) => {},
        Err(e) => {
            return Err(e);
        },
    }
    verify_jewels(ctx, param, slots)
}

/// A perk a player chose is valid for the style `style`: its template
/// exists, it belongs to that style or may be used by it, and its level lies
/// from 1 to the perk's highest level.
pub open spec fn perk_valid(db: &TmplDatabase, style: TmplID, it: TmplIDLevel) -> bool {
    match lookup(db.perks@, it.id) {
        Some(p) => (p.style == style || p.usable_styles@.contains(style)) && 1 <= it.level
            && it.level <= p.max_level,
        None => false,
    }
}

proof fn lemma_perks_ok_iff(db: &TmplDatabase, style: TmplID, items: Seq<TmplIDLevel>)
    ensures
        spec_perks(db, style, items) is Ok <==> forall|i: int|
            0 <= i < items.len() ==> perk_valid(db, style, #[trigger] items[i]),
    decreases items.len(),
{
    if items.len() > 0 {
        let prev = items.drop_last();
        lemma_perks_ok_iff(db, style, prev);
        let n = items.len() - 1;
        assert(items.last() == items[n]);
        if spec_perks(db, style, items) is Ok {
            assert forall|i: int| 0 <= i < items.len() implies perk_valid(db, style, #[trigger] items[i]) by {
                if i < n {
                    assert(prev[i] == items[i]);
                }
            }
        }
        if forall|i: int| 0 <= i < items.len() ==> perk_valid(db, style, #[trigger] items[i]) {
            assert forall|i: int| 0 <= i < prev.len() implies perk_valid(db, style, #[trigger] prev[i]) by {
                assert(prev[i] == items[i]);
            }
            assert(perk_valid(db, style, items[n]));
        }
    }
}

/// The perks of a player pass the check exactly when the chosen style
/// exists and every perk is valid for it: its template exists, it belongs
/// to or may be used by that style, and its level lies from 1 to the perk's
/// highest level.
pub proof fn lemma_verify_perks_ok(db: &TmplDatabase, param: &ParamPlayer)
    ensures
        spec_verify_perks(db, param) is Ok <==> (lookup(db.styles@, param.style) matches Some(s) && forall|i: int|
            0 <= i < param.perks@.len() ==> perk_valid(db, s.id, #[trigger] param.perks@[i])),
{
    if let Some(s) = lookup(db.styles@, param.style) {
        lemma_perks_ok_iff(db, s.id, param.perks@);
    }
}

/// An accessory a player chose is valid: it and its pool exist, its level
/// is no higher than the pool's highest, it has no more entries than the
/// pool has slots, and every entry fits the pattern of its slot.
pub open spec fn accessory_valid(db: &TmplDatabase, pa: ParamAccessory) -> bool {
    match lookup(db.accessories@, pa.id) {
        Some(a) => match lookup(db.accessory_pools@, a.pool) {
            Some(pool) => {
                &&& pa.level <= pool.max_level
                &&& pa.entries@.len() <= pool.patterns@.len()
                &&& forall|k: int|
                    0 <= k < pa.entries@.len() ==> entry_allowed(pool, pool.patterns@[k], #[trigger] pa.entries@[k])
            },
            None => false,
        },
        None => false,
    }
}

proof fn lemma_accessories_ok_iff(db: &TmplDatabase, items: Seq<ParamAccessory>)
    ensures
        spec_accessories(db, items) is Ok <==> forall|i: int|
            0 <= i < items.len() ==> accessory_valid(db, #[trigger] items[i]),
    decreases items.len(),
{
    if items.len() > 0 {
        let prev = items.drop_last();
        lemma_accessories_ok_iff(db, prev);
        let n = items.len() - 1;
        assert(items.last() == items[n]);
        if spec_accessories(db, items) is Ok {
            assert forall|i: int| 0 <= i < items.len() implies accessory_valid(db, #[trigger] items[i]) by {
                if i < n {
                    assert(prev[i] == items[i]);
                }
            }
        }
        if forall|i: int| 0 <= i < items.len() ==> accessory_valid(db, #[trigger] items[i]) {
            assert forall|i: int| 0 <= i < prev.len() implies accessory_valid(db, #[trigger] prev[i]) by {
                assert(prev[i] == items[i]);
            }
            assert(accessory_valid(db, items[n]));
        }
    }
}

/// The accessories of a player pass the check exactly when there are at
/// most as many as a player may wear and every one is valid: it and its
/// pool exist, its level is no higher than the pool's highest, and its
/// entries fit the pool's slots.
pub proof fn lemma_verify_accessories_ok(db: &TmplDatabase, param: &ParamPlayer)
    ensures
        spec_verify_accessories(db, param) is Ok <==> (param.accessories@.len() <= ACCESSORY_MAX_COUNT && forall|
            i: int,
        | 0 <= i < param.accessories@.len() ==> accessory_valid(db, #[trigger] param.accessories@[i])),
{
    lemma_accessories_ok_iff(db, param.accessories@);
}

/// The style check passes exactly when the character and the style exist,
/// the character may take that style, and the level lies in the
/// character's range.
pub proof fn lemma_verify_style_ok(db: &TmplDatabase, param: &ParamPlayer)
    ensures
        spec_verify_style(db, param) is Ok <==> (lookup(db.characters@, param.character) matches Some(c)
            && lookup(db.styles@, param.style) matches Some(s) && c.styles@.contains(s.id) && c.level_min
            <= param.level && param.level <= c.level_max),
        spec_verify_style(db, param) matches Ok(v) ==> (lookup(db.characters@, param.character) matches Some(c)
            && lookup(db.styles@, param.style) matches Some(s) && v == if s.slots@.len() == 0 {
            JewelSlots::zero()
        } else {
            s.slots@[param.level - c.level_min]
        }),
{
}

/// A player passes the checks exactly when the style, equipments, perks and
/// accessories each pass and every jewel is valid and, kind by kind, fits
/// the slots that the style, the equipments and the perks open together.
pub proof fn lemma_verify_player_ok(db: &TmplDatabase, param: &ParamPlayer)
    ensures
        spec_verify_player(db, param) is Ok <==> (spec_verify_style(db, param) matches Ok(s1)
            && spec_verify_equipments(db, param) matches Ok(s2) && spec_verify_perks(db, param) matches Ok(s3)
            && spec_verify_accessories(db, param) is Ok && (forall|i: int|
            0 <= i < param.jewels@.len() ==> jewel_valid(db, #[trigger] param.jewels@[i])) && jewels_fit(
            db,
            s1.plus(s2).plus(s3),
            param.jewels@,
        )),
{
    if let Ok(s1) = spec_verify_style(db, param) {
        assert(JewelSlots::zero().plus(s1) == s1);
        if let Ok(s2) = spec_verify_equipments(db, param) {
            if let Ok(s3) = spec_verify_perks(db, param) {
                lemma_verify_jewels_ok(db, param, s1.plus(s2).plus(s3));
            }
        }
    }
}

/// A jewel a player chose is valid: its template exists and its plus level
/// is no higher than the highest.
pub open spec fn jewel_valid(db: &TmplDatabase, it: TmplIDPlus) -> bool {
    lookup(db.jewels@, it.id) is Some && it.plus <= MAX_ENTRY_PLUS
}

/// How many of `items` are jewels whose template takes a slot of `kind`.
pub open spec fn jewel_count(db: &TmplDatabase, items: Seq<TmplIDPlus>, kind: TmplJewelSlot) -> nat
    decreases items.len(),
{
    if items.len() == 0 {
        0
    } else {
        jewel_count(db, items.drop_last(), kind) + match lookup(db.jewels@, items.last().id) {
            Some(j) => if j.slot == kind {
                1nat
            } else {
                0nat
            },
            None => 0nat,
        }
    }
}

/// The jewels of `items` fit the open `slots`, kind by kind.
pub open spec fn jewels_fit(db: &TmplDatabase, slots: JewelSlots, items: Seq<TmplIDPlus>) -> bool {
    &&& jewel_count(db, items, TmplJewelSlot::Attack) <= slots.attack
    &&& jewel_count(db, items, TmplJewelSlot::Defense) <= slots.defense
    &&& jewel_count(db, items, TmplJewelSlot::Special) <= slots.special
}

proof fn lemma_jewels_state(db: &TmplDatabase, slots: JewelSlots, items: Seq<TmplIDPlus>)
    ensures
        spec_jewels(db, slots, items) is Ok <==> (forall|i: int|
            0 <= i < items.len() ==> jewel_valid(db, #[trigger] items[i])) && jewels_fit(db, slots, items),
        spec_jewels(db, slots, items) matches Ok(left) ==> {
            &&& left.attack == slots.attack - jewel_count(db, items, TmplJewelSlot::Attack)
            &&& left.defense == slots.defense - jewel_count(db, items, TmplJewelSlot::Defense)
            &&& left.special == slots.special - jewel_count(db, items, TmplJewelSlot::Special)
        },
    decreases items.len(),
{
    if items.len() > 0 {
        let prev = items.drop_last();
        lemma_jewels_state(db, slots, prev);
        let n = items.len() - 1;
        assert(items.last() == items[n]);
        assert forall|i: int| 0 <= i < prev.len() implies #[trigger] prev[i] == items[i] by {}
        if forall|i: int| 0 <= i < items.len() ==> jewel_valid(db, #[trigger] items[i]) {
            assert forall|i: int| 0 <= i < prev.len() implies jewel_valid(db, #[trigger] prev[i]) by {
                assert(prev[i] == items[i]);
            }
            assert(jewel_valid(db, items[n]));
        }
        if spec_jewels(db, slots, items) is Ok {
            assert forall|i: int| 0 <= i < items.len() implies jewel_valid(db, #[trigger] items[i]) by {
                if i < n {
                    assert(prev[i] == items[i]);
                }
            }
        }
        if !(forall|i: int| 0 <= i < prev.len() ==> jewel_valid(db, #[trigger] prev[i])) {
            let i = choose|i: int| 0 <= i < prev.len() && !jewel_valid(db, #[trigger] prev[i]);
            assert(prev[i] == items[i]);
        }
    }
}

/// The jewels of a player are placed exactly when every one is valid (its
/// template exists and its plus level is no higher than the highest) and,
/// for each kind of slot, no more jewels take that kind than `slots` opens.
pub proof fn lemma_verify_jewels_ok(db: &TmplDatabase, param: &ParamPlayer, slots: JewelSlots)
    ensures
        spec_verify_jewels(db, param, slots) is Ok <==> (forall|i: int|
            0 <= i < param.jewels@.len() ==> jewel_valid(db, #[trigger] param.jewels@[i])) && jewels_fit(
            db,
            slots,
            param.jewels@,
        ),
{
    lemma_jewels_state(db, slots, param.jewels@);
}

/// An equipment a player chose is valid for the character `c`: its template
/// exists, the character may wear it, and its level lies in its range.
pub open spec fn equipment_valid(db: &TmplDatabase, c: TmplCharacter, it: TmplIDLevel) -> bool {
    match lookup(db.equipments@, it.id) {
        Some(eq) => c.equipments@.contains(eq.id) && eq.level_min <= it.level && it.level <= eq.level_max,
        None => false,
    }
}

/// The body slot the template of an equipment takes (`Slot1` when there is
/// no such template).
pub open spec fn equipment_slot_of(db: &TmplDatabase, it: TmplIDLevel) -> EquipmentSlot {
    match lookup(db.equipments@, it.id) {
        Some(eq) => eq.slot,
        None => EquipmentSlot::Slot1,
    }
}

/// No two of `items` take the same body slot.
pub open spec fn equipment_slots_distinct(db: &TmplDatabase, items: Seq<TmplIDLevel>) -> bool {
    forall|i: int, j: int|
        0 <= i < j < items.len() ==> equipment_slot_of(db, #[trigger] items[i]) != equipment_slot_of(
            db,
            #[trigger] items[j],
        )
}

proof fn lemma_equipments_state(db: &TmplDatabase, c: TmplCharacter, items: Seq<TmplIDLevel>)
    ensures
        spec_equipments(db, c, items) is Ok <==> (forall|i: int|
            0 <= i < items.len() ==> equipment_valid(db, c, #[trigger] items[i])) && equipment_slots_distinct(
            db,
            items,
        ),
        spec_equipments(db, c, items) matches Ok((_, used)) ==> used.len() == items.len() && forall|i: int|
            0 <= i < items.len() ==> used[i] == equipment_slot_of(db, #[trigger] items[i]),
    decreases items.len(),
{
    if items.len() > 0 {
        let prev = items.drop_last();
        lemma_equipments_state(db, c, prev);
        let n = items.len() - 1;
        assert(items.last() == items[n]);
        assert forall|i: int| 0 <= i < prev.len() implies #[trigger] prev[i] == items[i] by {}
        let all_valid = forall|i: int| 0 <= i < items.len() ==> equipment_valid(db, c, #[trigger] items[i]);
        if all_valid {
            assert forall|i: int| 0 <= i < prev.len() implies equipment_valid(db, c, #[trigger] prev[i]) by {
                assert(prev[i] == items[i]);
            }
            assert(equipment_valid(db, c, items[n]));
        }
        if equipment_slots_distinct(db, items) {
            assert forall|i: int, j: int| 0 <= i < j < prev.len() implies equipment_slot_of(db, #[trigger] prev[i])
                != equipment_slot_of(db, #[trigger] prev[j]) by {
                assert(prev[i] == items[i]);
                assert(prev[j] == items[j]);
            }
        }
        if spec_equipments(db, c, items) is Ok {
            assert forall|i: int| 0 <= i < items.len() implies equipment_valid(db, c, #[trigger] items[i]) by {
                if i < n {
                    assert(prev[i] == items[i]);
                }
            }
        }
        match spec_equipments(db, c, prev) {
            Err(_) => {
                if !(forall|i: int| 0 <= i < prev.len() ==> equipment_valid(db, c, #[trigger] prev[i])) {
                    let i = choose|i: int| 0 <= i < prev.len() && !equipment_valid(db, c, #[trigger] prev[i]);
                    assert(prev[i] == items[i]);
                }
                if !equipment_slots_distinct(db, prev) {
                    let (i, j) = choose|i: int, j: int|
                        0 <= i < j < prev.len() && equipment_slot_of(db, #[trigger] prev[i]) == equipment_slot_of(
                            db,
                            #[trigger] prev[j],
                        );
                    assert(prev[i] == items[i]);
                    assert(prev[j] == items[j]);
                }
            },
            Ok((slots, used)) => {
                match lookup(db.equipments@, items[n].id) {
                    None => {},
                    Some(eq) => {
                        if used.contains(eq.slot) {
                            let k = choose|k: int| 0 <= k < used.len() && used[k] == eq.slot;
                            assert(equipment_slot_of(db, prev[k]) == eq.slot);
                            assert(prev[k] == items[k]);
                            assert(equipment_slot_of(db, items[n]) == eq.slot);
                        } else if c.equipments@.contains(eq.id) && eq.level_min <= items[n].level
                            <= eq.level_max {
                            let used2 = used.push(eq.slot);
                            assert forall|i: int, j: int| 0 <= i < j < items.len() implies equipment_slot_of(
                                db,
                                #[trigger] items[i],
                            ) != equipment_slot_of(db, #[trigger] items[j]) by {
                                assert(prev[i] == items[i]);
                                if j < n {
                                    assert(prev[j] == items[j]);
                                } else {
                                    assert(used[i] == equipment_slot_of(db, prev[i]));
                                    assert(!used.contains(eq.slot));
                                    assert(used[i] != eq.slot);
                                }
                            }
                            assert forall|i: int| 0 <= i < items.len() implies used2[i] == equipment_slot_of(
                                db,
                                #[trigger] items[i],
                            ) by {
                                if i < n {
                                    assert(prev[i] == items[i]);
                                }
                            }
                        }
                    },
                }
            },
        }
    }
}

/// The equipments of a player pass the check exactly when the character
/// exists, every equipment is valid for it (its template exists, the
/// character may wear it, its level lies in its range), and no two take
/// the same body slot.
pub proof fn lemma_verify_equipments_ok(db: &TmplDatabase, param: &ParamPlayer)
    ensures
        spec_verify_equipments(db, param) is Ok <==> (lookup(db.characters@, param.character) matches Some(c)
            && (forall|i: int| 0 <= i < param.equipments@.len() ==> equipment_valid(db, c, #[trigger] param.equipments@[i]))
            && equipment_slots_distinct(db, param.equipments@)),
{
    if let Some(c) = lookup(db.characters@, param.character) {
        lemma_equipments_state(db, c, param.equipments@);
    }
}

/// The jewel slots one perk opens: the row of its level in its slot table,
/// or none when the table has no such row (or the perk does not exist).
pub open spec fn perk_slots(db: &TmplDatabase, it: TmplIDLevel) -> JewelSlots {
    match lookup(db.perks@, it.id) {
        Some(p) => if 1 <= it.level && it.level - 1 < p.slots@.len() {
            p.slots@[it.level - 1]
        } else {
            JewelSlots::zero()
        },
        None => JewelSlots::zero(),
    }
}

/// The jewel slots the perks of `items` open together, added in order.
pub open spec fn perk_slots_total(db: &TmplDatabase, items: Seq<TmplIDLevel>) -> JewelSlots
    decreases items.len(),
{
    if items.len() == 0 {
        JewelSlots::zero()
    } else {
        perk_slots_total(db, items.drop_last()).plus(perk_slots(db, items.last()))
    }
}

/// Perks that pass the check open, together, the slots of each perk's
/// level added in order.
pub proof fn lemma_perks_slots(db: &TmplDatabase, style: TmplID, items: Seq<TmplIDLevel>)
    ensures
        spec_perks(db, style, items) is Ok ==> spec_perks(db, style, items) == Ok::<JewelSlots, XError>(
            perk_slots_total(db, items),
        ),
    decreases items.len(),
{
    if items.len() > 0 {
        lemma_perks_slots(db, style, items.drop_last());
    }
}

/// The jewel slots one equipment opens: the row of its level in its slot
/// table, counted from its lowest level, or none when the table is empty
/// (or the equipment does not exist).
pub open spec fn equipment_slots(db: &TmplDatabase, it: TmplIDLevel) -> JewelSlots {
    match lookup(db.equipments@, it.id) {
        Some(eq) => if eq.slots@.len() == 0 {
            JewelSlots::zero()
        } else {
            eq.slots@[it.level - eq.level_min]
        },
        None => JewelSlots::zero(),
    }
}

/// The jewel slots the equipments of `items` open together, added in order.
pub open spec fn equipment_slots_total(db: &TmplDatabase, items: Seq<TmplIDLevel>) -> JewelSlots
    decreases items.len(),
{
    if items.len() == 0 {
        JewelSlots::zero()
    } else {
        equipment_slots_total(db, items.drop_last()).plus(equipment_slots(db, items.last()))
    }
}

/// Equipments that pass the check open, together, the slots of each
/// equipment's level added in order.
pub proof fn lemma_equipments_slots(db: &TmplDatabase, c: TmplCharacter, items: Seq<TmplIDLevel>)
    ensures
        spec_equipments(db, c, items) matches Ok((slots, _)) ==> slots == equipment_slots_total(db, items),
    decreases items.len(),
{
    if items.len() > 0 {
        lemma_equipments_slots(db, c, items.drop_last());
        if let Ok((slots, _)) = spec_equipments(db, c, items.drop_last()) {
            let prev = equipment_slots_total(db, items.drop_last());
            assert(prev.plus(JewelSlots::zero()) == prev);
        }
    }
}

} // verus!
