//! Flag word and option sets of the `eqip` (equipment) tag.
use vstd::prelude::*;

use crate::api::TagStruct;
use crate::geometry::{read_int_any, read_int_like_spec};
use crate::numtext::{ascii_lower, eq_ignore_ascii_case, eq_ignore_case};

verus! {

/// `equipment_flags` (word_flags).
#[derive(Clone, Copy, PartialEq, Eq, Debug, Structural)]
pub enum EquipmentFlags {
    PathfindingObstacle,
    GravityLiftCollisionGroup,
    EquipmentIsDangerousToAi,
    ProtectsParentFromAoe,
    NeverDroppedByAi,
}

impl EquipmentFlags {
    /// Every variant, in order of its stored value.
    pub open spec fn spec_variants() -> Seq<Self> {
        seq![EquipmentFlags::PathfindingObstacle, EquipmentFlags::GravityLiftCollisionGroup, EquipmentFlags::EquipmentIsDangerousToAi, EquipmentFlags::ProtectsParentFromAoe, EquipmentFlags::NeverDroppedByAi]
    }

    /// The value the tag stores for this variant.
    pub open spec fn spec_value(self) -> int {
        match self {
            EquipmentFlags::PathfindingObstacle => 0,
            EquipmentFlags::GravityLiftCollisionGroup => 1,
            EquipmentFlags::EquipmentIsDangerousToAi => 2,
            EquipmentFlags::ProtectsParentFromAoe => 3,
            EquipmentFlags::NeverDroppedByAi => 4,
        }
    }

    /// The variant stored as `v`.
    pub open spec fn spec_from_value(v: int) -> Option<Self> {
        if 0 <= v < 5 {
            Some(Self::spec_variants()[v])
        } else {
            None
        }
    }

    /// The option name of this variant.
    pub open spec fn spec_name(self) -> Seq<char> {
        match self {
            EquipmentFlags::PathfindingObstacle => "pathfinding obstacle"@,
            EquipmentFlags::GravityLiftCollisionGroup => "gravity lift collision group"@,
            EquipmentFlags::EquipmentIsDangerousToAi => "equipment is dangerous to ai"@,
            EquipmentFlags::ProtectsParentFromAoe => "protects parent from AOE"@,
            EquipmentFlags::NeverDroppedByAi => "never dropped by ai"@,
        }
    }

    /// The first variant whose name equals `s` up to ASCII case.
    pub open spec fn spec_from_name(s: Seq<char>) -> Option<Self> {
        if eq_ignore_case(s, "pathfinding obstacle"@) {
            Some(EquipmentFlags::PathfindingObstacle)
        } else if eq_ignore_case(s, "gravity lift collision group"@) {
            Some(EquipmentFlags::GravityLiftCollisionGroup)
        } else if eq_ignore_case(s, "equipment is dangerous to ai"@) {
            Some(EquipmentFlags::EquipmentIsDangerousToAi)
        } else if eq_ignore_case(s, "protects parent from AOE"@) {
            Some(EquipmentFlags::ProtectsParentFromAoe)
        } else if eq_ignore_case(s, "never dropped by ai"@) {
            Some(EquipmentFlags::NeverDroppedByAi)
        } else {
            None
        }
    }

    /// No two option names are equal up to ASCII case, so each name
    /// parses back to its own variant.
    pub proof fn lemma_name_roundtrip(e: Self)
        ensures
            Self::spec_from_name(e.spec_name()) == Some(e),
    {
        reveal_strlit("pathfinding obstacle");
        reveal_strlit("gravity lift collision group");
        reveal_strlit("equipment is dangerous to ai");
        reveal_strlit("protects parent from AOE");
        reveal_strlit("never dropped by ai");
        match e {
            EquipmentFlags::PathfindingObstacle => {
                assert(eq_ignore_case("pathfinding obstacle"@, "pathfinding obstacle"@));
            },
            EquipmentFlags::GravityLiftCollisionGroup => {
                assert(!eq_ignore_case("gravity lift collision group"@, "pathfinding obstacle"@));
                assert(eq_ignore_case("gravity lift collision group"@, "gravity lift collision group"@));
            },
            EquipmentFlags::EquipmentIsDangerousToAi => {
                assert(!eq_ignore_case("equipment is dangerous to ai"@, "pathfinding obstacle"@));
                assert(ascii_lower("equipment is dangerous to ai"@[0]) != ascii_lower("gravity lift collision group"@[0]));
                assert(eq_ignore_case("equipment is dangerous to ai"@, "equipment is dangerous to ai"@));
            },
            EquipmentFlags::ProtectsParentFromAoe => {
                assert(!eq_ignore_case("protects parent from AOE"@, "pathfinding obstacle"@));
                assert(!eq_ignore_case("protects parent from AOE"@, "gravity lift collision group"@));
                assert(!eq_ignore_case("protects parent from AOE"@, "equipment is dangerous to ai"@));
                assert(eq_ignore_case("protects parent from AOE"@, "protects parent from AOE"@));
            },
            EquipmentFlags::NeverDroppedByAi => {
                assert(!eq_ignore_case("never dropped by ai"@, "pathfinding obstacle"@));
                assert(!eq_ignore_case("never dropped by ai"@, "gravity lift collision group"@));
                assert(!eq_ignore_case("never dropped by ai"@, "equipment is dangerous to ai"@));
                assert(!eq_ignore_case("never dropped by ai"@, "protects parent from AOE"@));
                assert(eq_ignore_case("never dropped by ai"@, "never dropped by ai"@));
            },
        }
    }

    /// The value the tag stores for this variant.
    pub fn value(self) -> (r: u16)
        ensures
            r == self.spec_value(),
            Self::spec_from_value(r as int) == Some(self),
    {
        match self {
            EquipmentFlags::PathfindingObstacle => 0,
            EquipmentFlags::GravityLiftCollisionGroup => 1,
            EquipmentFlags::EquipmentIsDangerousToAi => 2,
            EquipmentFlags::ProtectsParentFromAoe => 3,
            EquipmentFlags::NeverDroppedByAi => 4,
        }
    }

    /// The variant stored as `v`; `None` for a value no variant has.
    pub fn from_i64(v: i64) -> (r: Option<Self>)
        ensures
            r == Self::spec_from_value(v as int),
            r matches Some(e) ==> e.spec_value() == v,
    {
        match v {
            0 => Some(EquipmentFlags::PathfindingObstacle),
            1 => Some(EquipmentFlags::GravityLiftCollisionGroup),
            2 => Some(EquipmentFlags::EquipmentIsDangerousToAi),
            3 => Some(EquipmentFlags::ProtectsParentFromAoe),
            4 => Some(EquipmentFlags::NeverDroppedByAi),
            _ => None,
        }
    }

    /// The option name of this variant.
    pub fn name(self) -> (r: &'static str)
        ensures
            r@ == self.spec_name(),
            Self::spec_from_name(r@) == Some(self),
    {
        proof {
            Self::lemma_name_roundtrip(self);
        }
        match self {
            EquipmentFlags::PathfindingObstacle => "pathfinding obstacle",
            EquipmentFlags::GravityLiftCollisionGroup => "gravity lift collision group",
            EquipmentFlags::EquipmentIsDangerousToAi => "equipment is dangerous to ai",
            EquipmentFlags::ProtectsParentFromAoe => "protects parent from AOE",
            EquipmentFlags::NeverDroppedByAi => "never dropped by ai",
        }
    }

    /// The variant named `s`, compared up to ASCII case; `None` when no
    /// option has that name.
    pub fn from_name(s: &str) -> (r: Option<Self>)
        ensures
            r == Self::spec_from_name(s@),
    {
        if eq_ignore_ascii_case(s, "pathfinding obstacle") {
            return Some(EquipmentFlags::PathfindingObstacle);
        }
        if eq_ignore_ascii_case(s, "gravity lift collision group") {
            return Some(EquipmentFlags::GravityLiftCollisionGroup);
        }
        if eq_ignore_ascii_case(s, "equipment is dangerous to ai") {
            return Some(EquipmentFlags::EquipmentIsDangerousToAi);
        }
        if eq_ignore_ascii_case(s, "protects parent from AOE") {
            return Some(EquipmentFlags::ProtectsParentFromAoe);
        }
        if eq_ignore_ascii_case(s, "never dropped by ai") {
            return Some(EquipmentFlags::NeverDroppedByAi);
        }
        None
    }

    /// Every variant, in order of its stored value.
    pub fn variants() -> (r: Vec<Self>)
        ensures
            r@ == Self::spec_variants(),
            forall|k: int| 0 <= k < r@.len() ==> (#[trigger] r@[k]).spec_value() == k,
    {
        vec![EquipmentFlags::PathfindingObstacle, EquipmentFlags::GravityLiftCollisionGroup, EquipmentFlags::EquipmentIsDangerousToAi, EquipmentFlags::ProtectsParentFromAoe, EquipmentFlags::NeverDroppedByAi]
    }
}

/// `equipment_spawner_spawn_type` (short_enum).
#[derive(Clone, Copy, PartialEq, Eq, Debug, Structural)]
pub enum EquipmentSpawnerSpawnType {
    AlongAimingVector,
    CameraPosZPlane,
    FootPosZPlane,
}

impl Default for EquipmentSpawnerSpawnType {
    fn default() -> (r: Self)
        ensures
            r == EquipmentSpawnerSpawnType::AlongAimingVector,
    {
        EquipmentSpawnerSpawnType::AlongAimingVector
    }
}

impl EquipmentSpawnerSpawnType {
    /// Every variant, in order of its stored value.
    pub open spec fn spec_variants() -> Seq<Self> {
        seq![EquipmentSpawnerSpawnType::AlongAimingVector, EquipmentSpawnerSpawnType::CameraPosZPlane, EquipmentSpawnerSpawnType::FootPosZPlane]
    }

    /// The value the tag stores for this variant.
    pub open spec fn spec_value(self) -> int {
        match self {
            EquipmentSpawnerSpawnType::AlongAimingVector => 0,
            EquipmentSpawnerSpawnType::CameraPosZPlane => 1,
            EquipmentSpawnerSpawnType::FootPosZPlane => 2,
        }
    }

    /// The variant stored as `v`.
    pub open spec fn spec_from_value(v: int) -> Option<Self> {
        if 0 <= v < 3 {
            Some(Self::spec_variants()[v])
        } else {
            None
        }
    }

    /// The option name of this variant.
    pub open spec fn spec_name(self) -> Seq<char> {
        match self {
            EquipmentSpawnerSpawnType::AlongAimingVector => "along aiming vector"@,
            EquipmentSpawnerSpawnType::CameraPosZPlane => "camera pos z plane"@,
            EquipmentSpawnerSpawnType::FootPosZPlane => "foot pos z plane"@,
        }
    }

    /// The first variant whose name equals `s` up to ASCII case.
    pub open spec fn spec_from_name(s: Seq<char>) -> Option<Self> {
        if eq_ignore_case(s, "along aiming vector"@) {
            Some(EquipmentSpawnerSpawnType::AlongAimingVector)
        } else if eq_ignore_case(s, "camera pos z plane"@) {
            Some(EquipmentSpawnerSpawnType::CameraPosZPlane)
        } else if eq_ignore_case(s, "foot pos z plane"@) {
            Some(EquipmentSpawnerSpawnType::FootPosZPlane)
        } else {
            None
        }
    }

    /// No two option names are equal up to ASCII case, so each name
    /// parses back to its own variant.
    pub proof fn lemma_name_roundtrip(e: Self)
        ensures
            Self::spec_from_name(e.spec_name()) == Some(e),
    {
        reveal_strlit("along aiming vector");
        reveal_strlit("camera pos z plane");
        reveal_strlit("foot pos z plane");
        match e {
            EquipmentSpawnerSpawnType::AlongAimingVector => {
                assert(eq_ignore_case("along aiming vector"@, "along aiming vector"@));
            },
            EquipmentSpawnerSpawnType::CameraPosZPlane => {
                assert(!eq_ignore_case("camera pos z plane"@, "along aiming vector"@));
                assert(eq_ignore_case("camera pos z plane"@, "camera pos z plane"@));
            },
            EquipmentSpawnerSpawnType::FootPosZPlane => {
                assert(!eq_ignore_case("foot pos z plane"@, "along aiming vector"@));
                assert(!eq_ignore_case("foot pos z plane"@, "camera pos z plane"@));
                assert(eq_ignore_case("foot pos z plane"@, "foot pos z plane"@));
            },
        }
    }

    /// The value the tag stores for this variant.
    pub fn value(self) -> (r: i16)
        ensures
            r == self.spec_value(),
            Self::spec_from_value(r as int) == Some(self),
    {
        match self {
            EquipmentSpawnerSpawnType::AlongAimingVector => 0,
            EquipmentSpawnerSpawnType::CameraPosZPlane => 1,
            EquipmentSpawnerSpawnType::FootPosZPlane => 2,
        }
    }

    /// The variant stored as `v`; `None` for a value no variant has.
    pub fn from_i64(v: i64) -> (r: Option<Self>)
        ensures
            r == Self::spec_from_value(v as int),
            r matches Some(e) ==> e.spec_value() == v,
    {
        match v {
            0 => Some(EquipmentSpawnerSpawnType::AlongAimingVector),
            1 => Some(EquipmentSpawnerSpawnType::CameraPosZPlane),
            2 => Some(EquipmentSpawnerSpawnType::FootPosZPlane),
            _ => None,
        }
    }

    /// The option name of this variant.
    pub fn name(self) -> (r: &'static str)
        ensures
            r@ == self.spec_name(),
            Self::spec_from_name(r@) == Some(self),
    {
        proof {
            Self::lemma_name_roundtrip(self);
        }
        match self {
            EquipmentSpawnerSpawnType::AlongAimingVector => "along aiming vector",
            EquipmentSpawnerSpawnType::CameraPosZPlane => "camera pos z plane",
            EquipmentSpawnerSpawnType::FootPosZPlane => "foot pos z plane",
        }
    }

    /// The variant named `s`, compared up to ASCII case; `None` when no
    /// option has that name.
    pub fn from_name(s: &str) -> (r: Option<Self>)
        ensures
            r == Self::spec_from_name(s@),
    {
        if eq_ignore_ascii_case(s, "along aiming vector") {
            return Some(EquipmentSpawnerSpawnType::AlongAimingVector);
        }
        if eq_ignore_ascii_case(s, "camera pos z plane") {
            return Some(EquipmentSpawnerSpawnType::CameraPosZPlane);
        }
        if eq_ignore_ascii_case(s, "foot pos z plane") {
            return Some(EquipmentSpawnerSpawnType::FootPosZPlane);
        }
        None
    }

    /// Every variant, in order of its stored value.
    pub fn variants() -> (r: Vec<Self>)
        ensures
            r@ == Self::spec_variants(),
            forall|k: int| 0 <= k < r@.len() ==> (#[trigger] r@[k]).spec_value() == k,
    {
        vec![EquipmentSpawnerSpawnType::AlongAimingVector, EquipmentSpawnerSpawnType::CameraPosZPlane, EquipmentSpawnerSpawnType::FootPosZPlane]
    }
}

/// `multiplayer_powerup_flavor` (long_enum).
#[derive(Clone, Copy, PartialEq, Eq, Debug, Structural)]
pub enum MultiplayerPowerupFlavor {
    Red,
    Blue,
    Yellow,
}

impl Default for MultiplayerPowerupFlavor {
    fn default() -> (r: Self)
        ensures
            r == MultiplayerPowerupFlavor::Red,
    {
        MultiplayerPowerupFlavor::Red
    }
}

impl MultiplayerPowerupFlavor {
    /// Every variant, in order of its stored value.
    pub open spec fn spec_variants() -> Seq<Self> {
        seq![MultiplayerPowerupFlavor::Red, MultiplayerPowerupFlavor::Blue, MultiplayerPowerupFlavor::Yellow]
    }

    /// The value the tag stores for this variant.
    pub open spec fn spec_value(self) -> int {
        match self {
            MultiplayerPowerupFlavor::Red => 0,
            MultiplayerPowerupFlavor::Blue => 1,
            MultiplayerPowerupFlavor::Yellow => 2,
        }
    }

    /// The variant stored as `v`.
    pub open spec fn spec_from_value(v: int) -> Option<Self> {
        if 0 <= v < 3 {
            Some(Self::spec_variants()[v])
        } else {
            None
        }
    }

    /// The option name of this variant.
    pub open spec fn spec_name(self) -> Seq<char> {
        match self {
            MultiplayerPowerupFlavor::Red => "red powerup"@,
            MultiplayerPowerupFlavor::Blue => "blue powerup"@,
            MultiplayerPowerupFlavor::Yellow => "yellow powerup"@,
        }
    }

    /// The first variant whose name equals `s` up to ASCII case.
    pub open spec fn spec_from_name(s: Seq<char>) -> Option<Self> {
        if eq_ignore_case(s, "red powerup"@) {
            Some(MultiplayerPowerupFlavor::Red)
        } else if eq_ignore_case(s, "blue powerup"@) {
            Some(MultiplayerPowerupFlavor::Blue)
        } else if eq_ignore_case(s, "yellow powerup"@) {
            Some(MultiplayerPowerupFlavor::Yellow)
        } else {
            None
        }
    }

    /// No two option names are equal up to ASCII case, so each name
    /// parses back to its own variant.
    pub proof fn lemma_name_roundtrip(e: Self)
        ensures
            Self::spec_from_name(e.spec_name()) == Some(e),
    {
        reveal_strlit("red powerup");
        reveal_strlit("blue powerup");
        reveal_strlit("yellow powerup");
        match e {
            MultiplayerPowerupFlavor::Red => {
                assert(eq_ignore_case("red powerup"@, "red powerup"@));
            },
            MultiplayerPowerupFlavor::Blue => {
                assert(!eq_ignore_case("blue powerup"@, "red powerup"@));
                assert(eq_ignore_case("blue powerup"@, "blue powerup"@));
            },
            MultiplayerPowerupFlavor::Yellow => {
                assert(!eq_ignore_case("yellow powerup"@, "red powerup"@));
                assert(!eq_ignore_case("yellow powerup"@, "blue powerup"@));
                assert(eq_ignore_case("yellow powerup"@, "yellow powerup"@));
            },
        }
    }

    /// The value the tag stores for this variant.
    pub fn value(self) -> (r: i32)
        ensures
            r == self.spec_value(),
            Self::spec_from_value(r as int) == Some(self),
    {
        match self {
            MultiplayerPowerupFlavor::Red => 0,
            MultiplayerPowerupFlavor::Blue => 1,
            MultiplayerPowerupFlavor::Yellow => 2,
        }
    }

    /// The variant stored as `v`; `None` for a value no variant has.
    pub fn from_i64(v: i64) -> (r: Option<Self>)
        ensures
            r == Self::spec_from_value(v as int),
            r matches Some(e) ==> e.spec_value() == v,
    {
        match v {
            0 => Some(MultiplayerPowerupFlavor::Red),
            1 => Some(MultiplayerPowerupFlavor::Blue),
            2 => Some(MultiplayerPowerupFlavor::Yellow),
            _ => None,
        }
    }

    /// The option name of this variant.
    pub fn name(self) -> (r: &'static str)
        ensures
            r@ == self.spec_name(),
            Self::spec_from_name(r@) == Some(self),
    {
        proof {
            Self::lemma_name_roundtrip(self);
        }
        match self {
            MultiplayerPowerupFlavor::Red => "red powerup",
            MultiplayerPowerupFlavor::Blue => "blue powerup",
            MultiplayerPowerupFlavor::Yellow => "yellow powerup",
        }
    }

    /// The variant named `s`, compared up to ASCII case; `None` when no
    /// option has that name.
    pub fn from_name(s: &str) -> (r: Option<Self>)
        ensures
            r == Self::spec_from_name(s@),
    {
        if eq_ignore_ascii_case(s, "red powerup") {
            return Some(MultiplayerPowerupFlavor::Red);
        }
        if eq_ignore_ascii_case(s, "blue powerup") {
            return Some(MultiplayerPowerupFlavor::Blue);
        }
        if eq_ignore_ascii_case(s, "yellow powerup") {
            return Some(MultiplayerPowerupFlavor::Yellow);
        }
        None
    }

    /// Every variant, in order of its stored value.
    pub fn variants() -> (r: Vec<Self>)
        ensures
            r@ == Self::spec_variants(),
            forall|k: int| 0 <= k < r@.len() ==> (#[trigger] r@[k]).spec_value() == k,
    {
        vec![MultiplayerPowerupFlavor::Red, MultiplayerPowerupFlavor::Blue, MultiplayerPowerupFlavor::Yellow]
    }
}

/// The `flags` word of an equipment type block: its integer value
/// truncated to 32 bits, or 0 when the block has no integer-shaped
/// `flags` field.
pub open spec fn equipment_flags_of(s: TagStruct) -> u32 {
    match read_int_like_spec(s.spec_layout(), s.spec_data(), s.spec_raw(), "flags"@) {
        Some(v) => v as u32,
        None => 0,
    }
}

fn read_flags_word(s: &TagStruct) -> (r: u32)
    ensures
        r == equipment_flags_of(*s),
{
    match read_int_any(s, "flags") {
        Some(v) => v as u32,
        None => 0,
    }
}

/// `equipment_type_showme_block` (4 bytes).
#[derive(Debug, Clone, Default)]
pub struct EquipmentTypeShowme {
    pub flags: u32,
}

impl EquipmentTypeShowme {
    /// Walks one `showme` block element.
    pub fn from_struct(s: &TagStruct) -> (r: Self)
        ensures
            r.flags == equipment_flags_of(*s),
    {
        EquipmentTypeShowme { flags: read_flags_word(s) }
    }
}

/// `equipment_type_treeoflife_block` (4 bytes).
#[derive(Debug, Clone, Default)]
pub struct EquipmentTypeTreeOfLife {
    pub flags: u32,
}

impl EquipmentTypeTreeOfLife {
    /// Walks one `tree of life` block element.
    pub fn from_struct(s: &TagStruct) -> (r: Self)
        ensures
            r.flags == equipment_flags_of(*s),
    {
        EquipmentTypeTreeOfLife { flags: read_flags_word(s) }
    }
}

} // verus!
