use vstd::prelude::*;

verus! {

/// A numeric identity of a logic object (player, character, zone ...).
#[derive(Debug, Clone, Copy, PartialEq, Eq, Hash, Structural)]
pub struct NumID(pub u32);

/// The id of a template in the template database.
#[derive(Debug, Clone, Copy, PartialEq, Eq, Hash, Structural)]
pub struct TmplID(pub u64);

/// The smallest id handed to a player.
pub const MIN_PLAYER_ID: u32 = 100;

/// The number of players a game may hold.
pub const MAX_PLAYER: usize = 8;

/// The largest id handed to a player.
pub const MAX_PLAYER_ID: u32 = 107;

/// The first id handed out by automatic generation.
pub const MIN_AUTO_GEN_ID: u32 = 1000;

/// The id that stands for "no object".
pub const INVALID_ID: u32 = 0xFFFF_FFFF;

impl NumID {
    /// The first player id.
    pub fn min_player() -> (r: NumID)
        ensures
            r.0 == MIN_PLAYER_ID,
    {
        NumID(MIN_PLAYER_ID)
    }

    /// The last player id.
    pub fn max_player() -> (r: NumID)
        ensures
            r.0 == MAX_PLAYER_ID,
    {
        NumID(MAX_PLAYER_ID)
    }

    /// The first automatically generated id.
    pub fn min_auto_gen() -> (r: NumID)
        ensures
            r.0 == MIN_AUTO_GEN_ID,
    {
        NumID(MIN_AUTO_GEN_ID)
    }

    /// The id that stands for "no object".
    pub fn invalid() -> (r: NumID)
        ensures
            r.0 == INVALID_ID,
    {
        NumID(INVALID_ID)
    }

    /// Whether the id names an object.
    pub fn is_valid(&self) -> (r: bool)
        ensures
            r == (self.0 != INVALID_ID),
    {
        self.0 != INVALID_ID
    }
}

} // verus!
