use vstd::prelude::*;

use crate::ids::NumID;

verus! {

/// What a physics body stands for, packed into the body's 64-bit user data.
#[derive(Debug, Clone, Copy, PartialEq, Eq, Structural)]
pub enum PhyBodyUserData {
    Empty,
    Zone,
    Hit { chara_id: NumID, hit: u16 },
    Character { id: NumID },
}

/// The first tag byte that no variant uses.
pub const PHY_BODY_USER_DATA_PADDING: u8 = 4;

/// The packed form: the variant's tag in the low byte, the hit box index in
/// bits 16 to 31 and the character id in bits 32 to 63.
pub open spec fn spec_encode(d: PhyBodyUserData) -> u64 {
    match d {
        PhyBodyUserData::Empty => 0,
        PhyBodyUserData::Zone => 1,
        PhyBodyUserData::Hit { chara_id, hit } => 2u64 | ((hit as u64) << 16u64) | ((chara_id.0 as u64)
            << 32u64),
        PhyBodyUserData::Character { id } => 3u64 | ((id.0 as u64) << 32u64),
    }
}

/// The user data that a packed value stands for; a tag byte that no variant
/// uses stands for no data.
pub open spec fn spec_decode(num: u64) -> PhyBodyUserData {
    let tag = (num & 0xFF) as u8;
    if tag >= PHY_BODY_USER_DATA_PADDING {
        PhyBodyUserData::Empty
    } else if tag == 0 {
        PhyBodyUserData::Empty
    } else if tag == 1 {
        PhyBodyUserData::Zone
    } else if tag == 2 {
        PhyBodyUserData::Hit {
            chara_id: NumID((num >> 32u64) as u32),
            hit: ((num >> 16u64) & 0xFFFF) as u16,
        }
    } else {
        PhyBodyUserData::Character { id: NumID((num >> 32u64) as u32) }
    }
}

impl PhyBodyUserData {
    pub fn new_zone() -> (r: PhyBodyUserData)
        ensures
            r == PhyBodyUserData::Zone,
    {
        PhyBodyUserData::Zone
    }

    pub fn new_hit(chara_id: NumID, hit: u16) -> (r: PhyBodyUserData)
        ensures
            r == (PhyBodyUserData::Hit { chara_id, hit }),
    {
        PhyBodyUserData::Hit { chara_id, hit }
    }

    pub fn new_character(id: NumID) -> (r: PhyBodyUserData)
        ensures
            r == (PhyBodyUserData::Character { id }),
    {
        PhyBodyUserData::Character { id }
    }

    /// The packed form of the user data.
    pub fn to_u64(self) -> (r: u64)
        ensures
            r == spec_encode(self),
    {
        match self {
            PhyBodyUserData::Empty => 0,
            PhyBodyUserData::Zone => 1,
            PhyBodyUserData::Hit { chara_id, hit } => 2u64 | ((hit as u64) << 16u64) | ((
            chara_id.0 as u64) << 32u64),
            PhyBodyUserData::Character { id } => 3u64 | ((id.0 as u64) << 32u64),
        }
    }

    /// The user data a packed value stands for.
    pub fn from_u64(num: u64) -> (r: PhyBodyUserData)
        ensures
            r == spec_decode(num),
    {
        let tag = (num & 0xFF) as u8;
        if tag >= PHY_BODY_USER_DATA_PADDING {
            return PhyBodyUserData::Empty;
        }
        if tag == 0 {
            PhyBodyUserData::Empty
        } else if tag == 1 {
            PhyBodyUserData::Zone
        } else if tag == 2 {
            PhyBodyUserData::Hit {
                chara_id: NumID((num >> 32u64) as u32),
                hit: ((num >> 16u64) & 0xFFFF) as u16,
            }
        } else {
            PhyBodyUserData::Character { id: NumID((num >> 32u64) as u32) }
        }
    }
}

impl From<u64> for PhyBodyUserData {
    fn from(num: u64) -> (r: PhyBodyUserData) {
        PhyBodyUserData::from_u64(num)
    }
}

impl vstd::std_specs::convert::FromSpecImpl<u64> for PhyBodyUserData {
    open spec fn obeys_from_spec() -> bool {
        true
    }

    open spec fn from_spec(num: u64) -> PhyBodyUserData {
        spec_decode(num)
    }
}

impl From<PhyBodyUserData> for u64 {
    fn from(value: PhyBodyUserData) -> (r: u64) {
        value.to_u64()
    }
}

impl vstd::std_specs::convert::FromSpecImpl<PhyBodyUserData> for u64 {
    open spec fn obeys_from_spec() -> bool {
        true
    }

    open spec fn from_spec(value: PhyBodyUserData) -> u64 {
        spec_encode(value)
    }
}

/// Unpacking the packed form of any user data gives it back.
pub proof fn lemma_decode_encode(d: PhyBodyUserData)
    ensures
        spec_decode(spec_encode(d)) == d,
{
    match d {
        PhyBodyUserData::Empty => {
            assert(((0u64 & 0xFF) as u8) == 0u8) by (bit_vector);
        },
        PhyBodyUserData::Zone => {
            assert(((1u64 & 0xFF) as u8) == 1u8) by (bit_vector);
        },
        PhyBodyUserData::Hit { chara_id, hit } => {
            let c = chara_id.0;
            let n = 2u64 | ((hit as u64) << 16u64) | ((c as u64) << 32u64);
            assert(((n & 0xFF) as u8) == 2u8 && ((n >> 32u64) as u32) == c && (((n >> 16u64)
                & 0xFFFF) as u16) == hit) by (bit_vector)
                requires
                    n == 2u64 | ((hit as u64) << 16u64) | ((c as u64) << 32u64),
            ;
        },
        PhyBodyUserData::Character { id } => {
            let c = id.0;
            let n = 3u64 | ((c as u64) << 32u64);
            assert(((n & 0xFF) as u8) == 3u8 && ((n >> 32u64) as u32) == c) by (bit_vector)
                requires
                    n == 3u64 | ((c as u64) << 32u64),
            ;
        },
    }
}

} // verus!
