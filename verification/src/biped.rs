//! Flag words of the `bipd` (biped) tag and its physics blocks.
use vstd::prelude::*;

use crate::bytes::{u32_be_bytes, u32_to_be};
use crate::file::TagFile;
use crate::numtext::{ascii_lower, eq_ignore_ascii_case, eq_ignore_case};

verus! {

/// Group tag of biped tags: `bipd`, its four bytes read big-endian.
pub const BIPED_GROUP: u32 = 0x6269_7064;

/// Why a tag is not read as a biped definition.
#[derive(Debug)]
pub enum BipedError {
    /// The tag belongs to another group: the four bytes of the group
    /// expected and of the tag's own.
    WrongGroup { expected: [u8; 4], actual: [u8; 4] },
}

/// The check that opens reading a biped definition: the tag must be of
/// the `bipd` group; otherwise both groups' bytes are reported.
pub fn check_biped_group(tag: &TagFile) -> (r: Result<(), BipedError>)
    ensures
        r is Ok <==> tag.header.group_tag == BIPED_GROUP,
        r matches Err(BipedError::WrongGroup { expected, actual }) ==> expected@ == u32_be_bytes(BIPED_GROUP)
            && actual@ == u32_be_bytes(tag.header.group_tag),
{
    let group = tag.group().tag;
    if group != BIPED_GROUP {
        return Err(BipedError::WrongGroup { expected: u32_to_be(BIPED_GROUP), actual: u32_to_be(group) });
    }
    Ok(())
}

/// `biped_definition_flags` (long_flags). `unusedN` bits are
/// schema-hidden (`!`) and not author-meaningful.
#[derive(Clone, Copy, PartialEq, Eq, Debug, Structural)]
pub enum BipedDefinitionFlags {
    TurnsWithoutAnimating,
    Unused4,
    ImmuneToFallingDamage,
    Unused0,
    Unused1,
    Unused2,
    RandomSpeedIncrease,
    Unused3,
    SpawnDeathChildrenOnDestroy,
    StunnedByEmpDamage,
    DeadPhysicsWhenStunned,
    AlwaysRagdollWhenDead,
    SnapsTurns,
}

impl BipedDefinitionFlags {
    /// Every variant, in order of its stored value.
    pub open spec fn spec_variants() -> Seq<Self> {
        seq![BipedDefinitionFlags::TurnsWithoutAnimating, BipedDefinitionFlags::Unused4, BipedDefinitionFlags::ImmuneToFallingDamage, BipedDefinitionFlags::Unused0, BipedDefinitionFlags::Unused1, BipedDefinitionFlags::Unused2, BipedDefinitionFlags::RandomSpeedIncrease, BipedDefinitionFlags::Unused3, BipedDefinitionFlags::SpawnDeathChildrenOnDestroy, BipedDefinitionFlags::StunnedByEmpDamage, BipedDefinitionFlags::DeadPhysicsWhenStunned, BipedDefinitionFlags::AlwaysRagdollWhenDead, BipedDefinitionFlags::SnapsTurns]
    }

    /// The value the tag stores for this variant.
    pub open spec fn spec_value(self) -> int {
        match self {
            BipedDefinitionFlags::TurnsWithoutAnimating => 0,
            BipedDefinitionFlags::Unused4 => 1,
            BipedDefinitionFlags::ImmuneToFallingDamage => 2,
            BipedDefinitionFlags::Unused0 => 3,
            BipedDefinitionFlags::Unused1 => 4,
            BipedDefinitionFlags::Unused2 => 5,
            BipedDefinitionFlags::RandomSpeedIncrease => 6,
            BipedDefinitionFlags::Unused3 => 7,
            BipedDefinitionFlags::SpawnDeathChildrenOnDestroy => 8,
            BipedDefinitionFlags::StunnedByEmpDamage => 9,
            BipedDefinitionFlags::DeadPhysicsWhenStunned => 10,
            BipedDefinitionFlags::AlwaysRagdollWhenDead => 11,
            BipedDefinitionFlags::SnapsTurns => 12,
        }
    }

    /// The variant stored as `v`.
    pub open spec fn spec_from_value(v: int) -> Option<Self> {
        if 0 <= v < 13 {
            Some(Self::spec_variants()[v])
        } else {
            None
        }
    }

    /// The option name of this variant.
    pub open spec fn spec_name(self) -> Seq<char> {
        match self {
            BipedDefinitionFlags::TurnsWithoutAnimating => "turns without animating"@,
            BipedDefinitionFlags::Unused4 => "unused4"@,
            BipedDefinitionFlags::ImmuneToFallingDamage => "immune to falling damage"@,
            BipedDefinitionFlags::Unused0 => "unused0"@,
            BipedDefinitionFlags::Unused1 => "unused1"@,
            BipedDefinitionFlags::Unused2 => "unused2"@,
            BipedDefinitionFlags::RandomSpeedIncrease => "random speed increase"@,
            BipedDefinitionFlags::Unused3 => "unused3"@,
            BipedDefinitionFlags::SpawnDeathChildrenOnDestroy => "spawn death children on destroy"@,
            BipedDefinitionFlags::StunnedByEmpDamage => "stunned by emp damage"@,
            BipedDefinitionFlags::DeadPhysicsWhenStunned => "dead physics when stunned"@,
            BipedDefinitionFlags::AlwaysRagdollWhenDead => "always ragdoll when dead"@,
            BipedDefinitionFlags::SnapsTurns => "snaps turns"@,
        }
    }

    /// The first variant whose name equals `s` up to ASCII case.
    pub open spec fn spec_from_name(s: Seq<char>) -> Option<Self> {
        if eq_ignore_case(s, "turns without animating"@) {
            Some(BipedDefinitionFlags::TurnsWithoutAnimating)
        } else if eq_ignore_case(s, "unused4"@) {
            Some(BipedDefinitionFlags::Unused4)
        } else if eq_ignore_case(s, "immune to falling damage"@) {
            Some(BipedDefinitionFlags::ImmuneToFallingDamage)
        } else if eq_ignore_case(s, "unused0"@) {
            Some(BipedDefinitionFlags::Unused0)
        } else if eq_ignore_case(s, "unused1"@) {
            Some(BipedDefinitionFlags::Unused1)
        } else if eq_ignore_case(s, "unused2"@) {
            Some(BipedDefinitionFlags::Unused2)
        } else if eq_ignore_case(s, "random speed increase"@) {
            Some(BipedDefinitionFlags::RandomSpeedIncrease)
        } else if eq_ignore_case(s, "unused3"@) {
            Some(BipedDefinitionFlags::Unused3)
        } else if eq_ignore_case(s, "spawn death children on destroy"@) {
            Some(BipedDefinitionFlags::SpawnDeathChildrenOnDestroy)
        } else if eq_ignore_case(s, "stunned by emp damage"@) {
            Some(BipedDefinitionFlags::StunnedByEmpDamage)
        } else if eq_ignore_case(s, "dead physics when stunned"@) {
            Some(BipedDefinitionFlags::DeadPhysicsWhenStunned)
        } else if eq_ignore_case(s, "always ragdoll when dead"@) {
            Some(BipedDefinitionFlags::AlwaysRagdollWhenDead)
        } else if eq_ignore_case(s, "snaps turns"@) {
            Some(BipedDefinitionFlags::SnapsTurns)
        } else {
            None
        }
    }

    /// No two option names are equal up to ASCII case, so each name
    /// parses back to its own variant.
    pub proof fn lemma_name_roundtrip(e: Self)
        ensures
            Self::spec_from_name(e.spec_name()) == Some(e),
    {
        reveal_strlit("turns without animating");
        reveal_strlit("unused4");
        reveal_strlit("immune to falling damage");
        reveal_strlit("unused0");
        reveal_strlit("unused1");
        reveal_strlit("unused2");
        reveal_strlit("random speed increase");
        reveal_strlit("unused3");
        reveal_strlit("spawn death children on destroy");
        reveal_strlit("stunned by emp damage");
        reveal_strlit("dead physics when stunned");
        reveal_strlit("always ragdoll when dead");
        reveal_strlit("snaps turns");
        match e {
            BipedDefinitionFlags::TurnsWithoutAnimating => {
                assert(eq_ignore_case("turns without animating"@, "turns without animating"@));
            },
            BipedDefinitionFlags::Unused4 => {
                assert(!eq_ignore_case("unused4"@, "turns without animating"@));
                assert(eq_ignore_case("unused4"@, "unused4"@));
            },
            BipedDefinitionFlags::ImmuneToFallingDamage => {
                assert(!eq_ignore_case("immune to falling damage"@, "turns without animating"@));
                assert(!eq_ignore_case("immune to falling damage"@, "unused4"@));
                assert(eq_ignore_case("immune to falling damage"@, "immune to falling damage"@));
            },
            BipedDefinitionFlags::Unused0 => {
                assert(!eq_ignore_case("unused0"@, "turns without animating"@));
                assert(ascii_lower("unused0"@[6]) != ascii_lower("unused4"@[6]));
                assert(!eq_ignore_case("unused0"@, "immune to falling damage"@));
                assert(eq_ignore_case("unused0"@, "unused0"@));
            },
            BipedDefinitionFlags::Unused1 => {
                assert(!eq_ignore_case("unused1"@, "turns without animating"@));
                assert(ascii_lower("unused1"@[6]) != ascii_lower("unused4"@[6]));
                assert(!eq_ignore_case("unused1"@, "immune to falling damage"@));
                assert(ascii_lower("unused1"@[6]) != ascii_lower("unused0"@[6]));
                assert(eq_ignore_case("unused1"@, "unused1"@));
            },
            BipedDefinitionFlags::Unused2 => {
                assert(!eq_ignore_case("unused2"@, "turns without animating"@));
                assert(ascii_lower("unused2"@[6]) != ascii_lower("unused4"@[6]));
                assert(!eq_ignore_case("unused2"@, "immune to falling damage"@));
                assert(ascii_lower("unused2"@[6]) != ascii_lower("unused0"@[6]));
                assert(ascii_lower("unused2"@[6]) != ascii_lower("unused1"@[6]));
                assert(eq_ignore_case("unused2"@, "unused2"@));
            },
            BipedDefinitionFlags::RandomSpeedIncrease => {
                assert(!eq_ignore_case("random speed increase"@, "turns without animating"@));
                assert(!eq_ignore_case("random speed increase"@, "unused4"@));
                assert(!eq_ignore_case("random speed increase"@, "immune to falling damage"@));
                assert(!eq_ignore_case("random speed increase"@, "unused0"@));
                assert(!eq_ignore_case("random speed increase"@, "unused1"@));
                assert(!eq_ignore_case("random speed increase"@, "unused2"@));
                assert(eq_ignore_case("random speed increase"@, "random speed increase"@));
            },
            BipedDefinitionFlags::Unused3 => {
                assert(!eq_ignore_case("unused3"@, "turns without animating"@));
                assert(ascii_lower("unused3"@[6]) != ascii_lower("unused4"@[6]));
                assert(!eq_ignore_case("unused3"@, "immune to falling damage"@));
                assert(ascii_lower("unused3"@[6]) != ascii_lower("unused0"@[6]));
                assert(ascii_lower("unused3"@[6]) != ascii_lower("unused1"@[6]));
                assert(ascii_lower("unused3"@[6]) != ascii_lower("unused2"@[6]));
                assert(!eq_ignore_case("unused3"@, "random speed increase"@));
                assert(eq_ignore_case("unused3"@, "unused3"@));
            },
            BipedDefinitionFlags::SpawnDeathChildrenOnDestroy => {
                assert(!eq_ignore_case("spawn death children on destroy"@, "turns without animating"@));
                assert(!eq_ignore_case("spawn death children on destroy"@, "unused4"@));
                assert(!eq_ignore_case("spawn death children on destroy"@, "immune to falling damage"@));
                assert(!eq_ignore_case("spawn death children on destroy"@, "unused0"@));
                assert(!eq_ignore_case("spawn death children on destroy"@, "unused1"@));
                assert(!eq_ignore_case("spawn death children on destroy"@, "unused2"@));
                assert(!eq_ignore_case("spawn death children on destroy"@, "random speed increase"@));
                assert(!eq_ignore_case("spawn death children on destroy"@, "unused3"@));
                assert(eq_ignore_case("spawn death children on destroy"@, "spawn death children on destroy"@));
            },
            BipedDefinitionFlags::StunnedByEmpDamage => {
                assert(!eq_ignore_case("stunned by emp damage"@, "turns without animating"@));
                assert(!eq_ignore_case("stunned by emp damage"@, "unused4"@));
                assert(!eq_ignore_case("stunned by emp damage"@, "immune to falling damage"@));
                assert(!eq_ignore_case("stunned by emp damage"@, "unused0"@));
                assert(!eq_ignore_case("stunned by emp damage"@, "unused1"@));
                assert(!eq_ignore_case("stunned by emp damage"@, "unused2"@));
                assert(ascii_lower("stunned by emp damage"@[0]) != ascii_lower("random speed increase"@[0]));
                assert(!eq_ignore_case("stunned by emp damage"@, "unused3"@));
                assert(!eq_ignore_case("stunned by emp damage"@, "spawn death children on destroy"@));
                assert(eq_ignore_case("stunned by emp damage"@, "stunned by emp damage"@));
            },
            BipedDefinitionFlags::DeadPhysicsWhenStunned => {
                assert(!eq_ignore_case("dead physics when stunned"@, "turns without animating"@));
                assert(!eq_ignore_case("dead physics when stunned"@, "unused4"@));
                assert(!eq_ignore_case("dead physics when stunned"@, "immune to falling damage"@));
                assert(!eq_ignore_case("dead physics when stunned"@, "unused0"@));
                assert(!eq_ignore_case("dead physics when stunned"@, "unused1"@));
                assert(!eq_ignore_case("dead physics when stunned"@, "unused2"@));
                assert(!eq_ignore_case("dead physics when stunned"@, "random speed increase"@));
                assert(!eq_ignore_case("dead physics when stunned"@, "unused3"@));
                assert(!eq_ignore_case("dead physics when stunned"@, "spawn death children on destroy"@));
                assert(!eq_ignore_case("dead physics when stunned"@, "stunned by emp damage"@));
                assert(eq_ignore_case("dead physics when stunned"@, "dead physics when stunned"@));
            },
            BipedDefinitionFlags::AlwaysRagdollWhenDead => {
                assert(!eq_ignore_case("always ragdoll when dead"@, "turns without animating"@));
                assert(!eq_ignore_case("always ragdoll when dead"@, "unused4"@));
                assert(ascii_lower("always ragdoll when dead"@[0]) != ascii_lower("immune to falling damage"@[0]));
                assert(!eq_ignore_case("always ragdoll when dead"@, "unused0"@));
                assert(!eq_ignore_case("always ragdoll when dead"@, "unused1"@));
                assert(!eq_ignore_case("always ragdoll when dead"@, "unused2"@));
                assert(!eq_ignore_case("always ragdoll when dead"@, "random speed increase"@));
                assert(!eq_ignore_case("always ragdoll when dead"@, "unused3"@));
                assert(!eq_ignore_case("always ragdoll when dead"@, "spawn death children on destroy"@));
                assert(!eq_ignore_case("always ragdoll when dead"@, "stunned by emp damage"@));
                assert(!eq_ignore_case("always ragdoll when dead"@, "dead physics when stunned"@));
                assert(eq_ignore_case("always ragdoll when dead"@, "always ragdoll when dead"@));
            },
            BipedDefinitionFlags::SnapsTurns => {
                assert(!eq_ignore_case("snaps turns"@, "turns without animating"@));
                assert(!eq_ignore_case("snaps turns"@, "unused4"@));
                assert(!eq_ignore_case("snaps turns"@, "immune to falling damage"@));
                assert(!eq_ignore_case("snaps turns"@, "unused0"@));
                assert(!eq_ignore_case("snaps turns"@, "unused1"@));
                assert(!eq_ignore_case("snaps turns"@, "unused2"@));
                assert(!eq_ignore_case("snaps turns"@, "random speed increase"@));
                assert(!eq_ignore_case("snaps turns"@, "unused3"@));
                assert(!eq_ignore_case("snaps turns"@, "spawn death children on destroy"@));
                assert(!eq_ignore_case("snaps turns"@, "stunned by emp damage"@));
                assert(!eq_ignore_case("snaps turns"@, "dead physics when stunned"@));
                assert(!eq_ignore_case("snaps turns"@, "always ragdoll when dead"@));
                assert(eq_ignore_case("snaps turns"@, "snaps turns"@));
            },
        }
    }

    /// The value the tag stores for this variant.
    pub fn value(self) -> (r: u32)
        ensures
            r == self.spec_value(),
            Self::spec_from_value(r as int) == Some(self),
    {
        match self {
            BipedDefinitionFlags::TurnsWithoutAnimating => 0,
            BipedDefinitionFlags::Unused4 => 1,
            BipedDefinitionFlags::ImmuneToFallingDamage => 2,
            BipedDefinitionFlags::Unused0 => 3,
            BipedDefinitionFlags::Unused1 => 4,
            BipedDefinitionFlags::Unused2 => 5,
            BipedDefinitionFlags::RandomSpeedIncrease => 6,
            BipedDefinitionFlags::Unused3 => 7,
            BipedDefinitionFlags::SpawnDeathChildrenOnDestroy => 8,
            BipedDefinitionFlags::StunnedByEmpDamage => 9,
            BipedDefinitionFlags::DeadPhysicsWhenStunned => 10,
            BipedDefinitionFlags::AlwaysRagdollWhenDead => 11,
            BipedDefinitionFlags::SnapsTurns => 12,
        }
    }

    /// The variant stored as `v`; `None` for a value no variant has.
    pub fn from_i64(v: i64) -> (r: Option<Self>)
        ensures
            r == Self::spec_from_value(v as int),
            r matches Some(e) ==> e.spec_value() == v,
    {
        match v {
            0 => Some(BipedDefinitionFlags::TurnsWithoutAnimating),
            1 => Some(BipedDefinitionFlags::Unused4),
            2 => Some(BipedDefinitionFlags::ImmuneToFallingDamage),
            3 => Some(BipedDefinitionFlags::Unused0),
            4 => Some(BipedDefinitionFlags::Unused1),
            5 => Some(BipedDefinitionFlags::Unused2),
            6 => Some(BipedDefinitionFlags::RandomSpeedIncrease),
            7 => Some(BipedDefinitionFlags::Unused3),
            8 => Some(BipedDefinitionFlags::SpawnDeathChildrenOnDestroy),
            9 => Some(BipedDefinitionFlags::StunnedByEmpDamage),
            10 => Some(BipedDefinitionFlags::DeadPhysicsWhenStunned),
            11 => Some(BipedDefinitionFlags::AlwaysRagdollWhenDead),
            12 => Some(BipedDefinitionFlags::SnapsTurns),
            _ => None,
        }
    }

    /// The option name of this variant.
    pub fn name(self) -> (r: &'static str)
        ensures
            r@ == self.spec_name(),
            Self::spec_from_name(r@) == Some(self),
    {
        proof {
            Self::lemma_name_roundtrip(self);
        }
        match self {
            BipedDefinitionFlags::TurnsWithoutAnimating => "turns without animating",
            BipedDefinitionFlags::Unused4 => "unused4",
            BipedDefinitionFlags::ImmuneToFallingDamage => "immune to falling damage",
            BipedDefinitionFlags::Unused0 => "unused0",
            BipedDefinitionFlags::Unused1 => "unused1",
            BipedDefinitionFlags::Unused2 => "unused2",
            BipedDefinitionFlags::RandomSpeedIncrease => "random speed increase",
            BipedDefinitionFlags::Unused3 => "unused3",
            BipedDefinitionFlags::SpawnDeathChildrenOnDestroy => "spawn death children on destroy",
            BipedDefinitionFlags::StunnedByEmpDamage => "stunned by emp damage",
            BipedDefinitionFlags::DeadPhysicsWhenStunned => "dead physics when stunned",
            BipedDefinitionFlags::AlwaysRagdollWhenDead => "always ragdoll when dead",
            BipedDefinitionFlags::SnapsTurns => "snaps turns",
        }
    }

    /// The variant named `s`, compared up to ASCII case; `None` when no
    /// option has that name.
    pub fn from_name(s: &str) -> (r: Option<Self>)
        ensures
            r == Self::spec_from_name(s@),
    {
        if eq_ignore_ascii_case(s, "turns without animating") {
            return Some(BipedDefinitionFlags::TurnsWithoutAnimating);
        }
        if eq_ignore_ascii_case(s, "unused4") {
            return Some(BipedDefinitionFlags::Unused4);
        }
        if eq_ignore_ascii_case(s, "immune to falling damage") {
            return Some(BipedDefinitionFlags::ImmuneToFallingDamage);
        }
        if eq_ignore_ascii_case(s, "unused0") {
            return Some(BipedDefinitionFlags::Unused0);
        }
        if eq_ignore_ascii_case(s, "unused1") {
            return Some(BipedDefinitionFlags::Unused1);
        }
        if eq_ignore_ascii_case(s, "unused2") {
            return Some(BipedDefinitionFlags::Unused2);
        }
        if eq_ignore_ascii_case(s, "random speed increase") {
            return Some(BipedDefinitionFlags::RandomSpeedIncrease);
        }
        if eq_ignore_ascii_case(s, "unused3") {
            return Some(BipedDefinitionFlags::Unused3);
        }
        if eq_ignore_ascii_case(s, "spawn death children on destroy") {
            return Some(BipedDefinitionFlags::SpawnDeathChildrenOnDestroy);
        }
        if eq_ignore_ascii_case(s, "stunned by emp damage") {
            return Some(BipedDefinitionFlags::StunnedByEmpDamage);
        }
        if eq_ignore_ascii_case(s, "dead physics when stunned") {
            return Some(BipedDefinitionFlags::DeadPhysicsWhenStunned);
        }
        if eq_ignore_ascii_case(s, "always ragdoll when dead") {
            return Some(BipedDefinitionFlags::AlwaysRagdollWhenDead);
        }
        if eq_ignore_ascii_case(s, "snaps turns") {
            return Some(BipedDefinitionFlags::SnapsTurns);
        }
        None
    }

    /// Every variant, in order of its stored value.
    pub fn variants() -> (r: Vec<Self>)
        ensures
            r@ == Self::spec_variants(),
            forall|k: int| 0 <= k < r@.len() ==> (#[trigger] r@[k]).spec_value() == k,
    {
        vec![BipedDefinitionFlags::TurnsWithoutAnimating, BipedDefinitionFlags::Unused4, BipedDefinitionFlags::ImmuneToFallingDamage, BipedDefinitionFlags::Unused0, BipedDefinitionFlags::Unused1, BipedDefinitionFlags::Unused2, BipedDefinitionFlags::RandomSpeedIncrease, BipedDefinitionFlags::Unused3, BipedDefinitionFlags::SpawnDeathChildrenOnDestroy, BipedDefinitionFlags::StunnedByEmpDamage, BipedDefinitionFlags::DeadPhysicsWhenStunned, BipedDefinitionFlags::AlwaysRagdollWhenDead, BipedDefinitionFlags::SnapsTurns]
    }
}

/// `character_physics_flags` (long_flags). Shared by biped + creature
/// (both hang `character_physics_struct` off their root).
#[derive(Clone, Copy, PartialEq, Eq, Debug, Structural)]
pub enum CharacterPhysicsFlags {
    CenteredAtOrigin,
    ShapeSpherical,
    UsePlayerPhysics,
    ClimbAnySurface,
    Flying,
    NotPhysical,
    DeadCharacterCollisionGroup,
    SuppressGroundPlanesOnBipeds,
}

impl CharacterPhysicsFlags {
    /// Every variant, in order of its stored value.
    pub open spec fn spec_variants() -> Seq<Self> {
        seq![CharacterPhysicsFlags::CenteredAtOrigin, CharacterPhysicsFlags::ShapeSpherical, CharacterPhysicsFlags::UsePlayerPhysics, CharacterPhysicsFlags::ClimbAnySurface, CharacterPhysicsFlags::Flying, CharacterPhysicsFlags::NotPhysical, CharacterPhysicsFlags::DeadCharacterCollisionGroup, CharacterPhysicsFlags::SuppressGroundPlanesOnBipeds]
    }

    /// The value the tag stores for this variant.
    pub open spec fn spec_value(self) -> int {
        match self {
            CharacterPhysicsFlags::CenteredAtOrigin => 0,
            CharacterPhysicsFlags::ShapeSpherical => 1,
            CharacterPhysicsFlags::UsePlayerPhysics => 2,
            CharacterPhysicsFlags::ClimbAnySurface => 3,
            CharacterPhysicsFlags::Flying => 4,
            CharacterPhysicsFlags::NotPhysical => 5,
            CharacterPhysicsFlags::DeadCharacterCollisionGroup => 6,
            CharacterPhysicsFlags::SuppressGroundPlanesOnBipeds => 7,
        }
    }

    /// The variant stored as `v`.
    pub open spec fn spec_from_value(v: int) -> Option<Self> {
        if 0 <= v < 8 {
            Some(Self::spec_variants()[v])
        } else {
            None
        }
    }

    /// The option name of this variant.
    pub open spec fn spec_name(self) -> Seq<char> {
        match self {
            CharacterPhysicsFlags::CenteredAtOrigin => "centered_at_origin"@,
            CharacterPhysicsFlags::ShapeSpherical => "shape spherical"@,
            CharacterPhysicsFlags::UsePlayerPhysics => "use player physics"@,
            CharacterPhysicsFlags::ClimbAnySurface => "climb any surface"@,
            CharacterPhysicsFlags::Flying => "flying"@,
            CharacterPhysicsFlags::NotPhysical => "not physical"@,
            CharacterPhysicsFlags::DeadCharacterCollisionGroup => "dead character collision group"@,
            CharacterPhysicsFlags::SuppressGroundPlanesOnBipeds => "suppress ground planes on bipeds"@,
        }
    }

    /// The first variant whose name equals `s` up to ASCII case.
    pub open spec fn spec_from_name(s: Seq<char>) -> Option<Self> {
        if eq_ignore_case(s, "centered_at_origin"@) {
            Some(CharacterPhysicsFlags::CenteredAtOrigin)
        } else if eq_ignore_case(s, "shape spherical"@) {
            Some(CharacterPhysicsFlags::ShapeSpherical)
        } else if eq_ignore_case(s, "use player physics"@) {
            Some(CharacterPhysicsFlags::UsePlayerPhysics)
        } else if eq_ignore_case(s, "climb any surface"@) {
            Some(CharacterPhysicsFlags::ClimbAnySurface)
        } else if eq_ignore_case(s, "flying"@) {
            Some(CharacterPhysicsFlags::Flying)
        } else if eq_ignore_case(s, "not physical"@) {
            Some(CharacterPhysicsFlags::NotPhysical)
        } else if eq_ignore_case(s, "dead character collision group"@) {
            Some(CharacterPhysicsFlags::DeadCharacterCollisionGroup)
        } else if eq_ignore_case(s, "suppress ground planes on bipeds"@) {
            Some(CharacterPhysicsFlags::SuppressGroundPlanesOnBipeds)
        } else {
            None
        }
    }

    /// No two option names are equal up to ASCII case, so each name
    /// parses back to its own variant.
    pub proof fn lemma_name_roundtrip(e: Self)
        ensures
            Self::spec_from_name(e.spec_name()) == Some(e),
    {
        reveal_strlit("centered_at_origin");
        reveal_strlit("shape spherical");
        reveal_strlit("use player physics");
        reveal_strlit("climb any surface");
        reveal_strlit("flying");
        reveal_strlit("not physical");
        reveal_strlit("dead character collision group");
        reveal_strlit("suppress ground planes on bipeds");
        match e {
            CharacterPhysicsFlags::CenteredAtOrigin => {
                assert(eq_ignore_case("centered_at_origin"@, "centered_at_origin"@));
            },
            CharacterPhysicsFlags::ShapeSpherical => {
                assert(!eq_ignore_case("shape spherical"@, "centered_at_origin"@));
                assert(eq_ignore_case("shape spherical"@, "shape spherical"@));
            },
            CharacterPhysicsFlags::UsePlayerPhysics => {
                assert(ascii_lower("use player physics"@[0]) != ascii_lower("centered_at_origin"@[0]));
                assert(!eq_ignore_case("use player physics"@, "shape spherical"@));
                assert(eq_ignore_case("use player physics"@, "use player physics"@));
            },
            CharacterPhysicsFlags::ClimbAnySurface => {
                assert(!eq_ignore_case("climb any surface"@, "centered_at_origin"@));
                assert(!eq_ignore_case("climb any surface"@, "shape spherical"@));
                assert(!eq_ignore_case("climb any surface"@, "use player physics"@));
                assert(eq_ignore_case("climb any surface"@, "climb any surface"@));
            },
            CharacterPhysicsFlags::Flying => {
                assert(!eq_ignore_case("flying"@, "centered_at_origin"@));
                assert(!eq_ignore_case("flying"@, "shape spherical"@));
                assert(!eq_ignore_case("flying"@, "use player physics"@));
                assert(!eq_ignore_case("flying"@, "climb any surface"@));
                assert(eq_ignore_case("flying"@, "flying"@));
            },
            CharacterPhysicsFlags::NotPhysical => {
                assert(!eq_ignore_case("not physical"@, "centered_at_origin"@));
                assert(!eq_ignore_case("not physical"@, "shape spherical"@));
                assert(!eq_ignore_case("not physical"@, "use player physics"@));
                assert(!eq_ignore_case("not physical"@, "climb any surface"@));
                assert(!eq_ignore_case("not physical"@, "flying"@));
                assert(eq_ignore_case("not physical"@, "not physical"@));
            },
            CharacterPhysicsFlags::DeadCharacterCollisionGroup => {
                assert(!eq_ignore_case("dead character collision group"@, "centered_at_origin"@));
                assert(!eq_ignore_case("dead character collision group"@, "shape spherical"@));
                assert(!eq_ignore_case("dead character collision group"@, "use player physics"@));
                assert(!eq_ignore_case("dead character collision group"@, "climb any surface"@));
                assert(!eq_ignore_case("dead character collision group"@, "flying"@));
                assert(!eq_ignore_case("dead character collision group"@, "not physical"@));
                assert(eq_ignore_case("dead character collision group"@, "dead character collision group"@));
            },
            CharacterPhysicsFlags::SuppressGroundPlanesOnBipeds => {
                assert(!eq_ignore_case("suppress ground planes on bipeds"@, "centered_at_origin"@));
                assert(!eq_ignore_case("suppress ground planes on bipeds"@, "shape spherical"@));
                assert(!eq_ignore_case("suppress ground planes on bipeds"@, "use player physics"@));
                assert(!eq_ignore_case("suppress ground planes on bipeds"@, "climb any surface"@));
                assert(!eq_ignore_case("suppress ground planes on bipeds"@, "flying"@));
                assert(!eq_ignore_case("suppress ground planes on bipeds"@, "not physical"@));
                assert(!eq_ignore_case("suppress ground planes on bipeds"@, "dead character collision group"@));
                assert(eq_ignore_case("suppress ground planes on bipeds"@, "suppress ground planes on bipeds"@));
            },
        }
    }

    /// The value the tag stores for this variant.
    pub fn value(self) -> (r: u32)
        ensures
            r == self.spec_value(),
            Self::spec_from_value(r as int) == Some(self),
    {
        match self {
            CharacterPhysicsFlags::CenteredAtOrigin => 0,
            CharacterPhysicsFlags::ShapeSpherical => 1,
            CharacterPhysicsFlags::UsePlayerPhysics => 2,
            CharacterPhysicsFlags::ClimbAnySurface => 3,
            CharacterPhysicsFlags::Flying => 4,
            CharacterPhysicsFlags::NotPhysical => 5,
            CharacterPhysicsFlags::DeadCharacterCollisionGroup => 6,
            CharacterPhysicsFlags::SuppressGroundPlanesOnBipeds => 7,
        }
    }

    /// The variant stored as `v`; `None` for a value no variant has.
    pub fn from_i64(v: i64) -> (r: Option<Self>)
        ensures
            r == Self::spec_from_value(v as int),
            r matches Some(e) ==> e.spec_value() == v,
    {
        match v {
            0 => Some(CharacterPhysicsFlags::CenteredAtOrigin),
            1 => Some(CharacterPhysicsFlags::ShapeSpherical),
            2 => Some(CharacterPhysicsFlags::UsePlayerPhysics),
            3 => Some(CharacterPhysicsFlags::ClimbAnySurface),
            4 => Some(CharacterPhysicsFlags::Flying),
            5 => Some(CharacterPhysicsFlags::NotPhysical),
            6 => Some(CharacterPhysicsFlags::DeadCharacterCollisionGroup),
            7 => Some(CharacterPhysicsFlags::SuppressGroundPlanesOnBipeds),
            _ => None,
        }
    }

    /// The option name of this variant.
    pub fn name(self) -> (r: &'static str)
        ensures
            r@ == self.spec_name(),
            Self::spec_from_name(r@) == Some(self),
    {
        proof {
            Self::lemma_name_roundtrip(self);
        }
        match self {
            CharacterPhysicsFlags::CenteredAtOrigin => "centered_at_origin",
            CharacterPhysicsFlags::ShapeSpherical => "shape spherical",
            CharacterPhysicsFlags::UsePlayerPhysics => "use player physics",
            CharacterPhysicsFlags::ClimbAnySurface => "climb any surface",
            CharacterPhysicsFlags::Flying => "flying",
            CharacterPhysicsFlags::NotPhysical => "not physical",
            CharacterPhysicsFlags::DeadCharacterCollisionGroup => "dead character collision group",
            CharacterPhysicsFlags::SuppressGroundPlanesOnBipeds => "suppress ground planes on bipeds",
        }
    }

    /// The variant named `s`, compared up to ASCII case; `None` when no
    /// option has that name.
    pub fn from_name(s: &str) -> (r: Option<Self>)
        ensures
            r == Self::spec_from_name(s@),
    {
        if eq_ignore_ascii_case(s, "centered_at_origin") {
            return Some(CharacterPhysicsFlags::CenteredAtOrigin);
        }
        if eq_ignore_ascii_case(s, "shape spherical") {
            return Some(CharacterPhysicsFlags::ShapeSpherical);
        }
        if eq_ignore_ascii_case(s, "use player physics") {
            return Some(CharacterPhysicsFlags::UsePlayerPhysics);
        }
        if eq_ignore_ascii_case(s, "climb any surface") {
            return Some(CharacterPhysicsFlags::ClimbAnySurface);
        }
        if eq_ignore_ascii_case(s, "flying") {
            return Some(CharacterPhysicsFlags::Flying);
        }
        if eq_ignore_ascii_case(s, "not physical") {
            return Some(CharacterPhysicsFlags::NotPhysical);
        }
        if eq_ignore_ascii_case(s, "dead character collision group") {
            return Some(CharacterPhysicsFlags::DeadCharacterCollisionGroup);
        }
        if eq_ignore_ascii_case(s, "suppress ground planes on bipeds") {
            return Some(CharacterPhysicsFlags::SuppressGroundPlanesOnBipeds);
        }
        None
    }

    /// Every variant, in order of its stored value.
    pub fn variants() -> (r: Vec<Self>)
        ensures
            r@ == Self::spec_variants(),
            forall|k: int| 0 <= k < r@.len() ==> (#[trigger] r@[k]).spec_value() == k,
    {
        vec![CharacterPhysicsFlags::CenteredAtOrigin, CharacterPhysicsFlags::ShapeSpherical, CharacterPhysicsFlags::UsePlayerPhysics, CharacterPhysicsFlags::ClimbAnySurface, CharacterPhysicsFlags::Flying, CharacterPhysicsFlags::NotPhysical, CharacterPhysicsFlags::DeadCharacterCollisionGroup, CharacterPhysicsFlags::SuppressGroundPlanesOnBipeds]
    }
}

/// `flying_physics_flags` (long_flags).
#[derive(Clone, Copy, PartialEq, Eq, Debug, Structural)]
pub enum FlyingPhysicsFlags {
    UseWorldUp,
}

impl FlyingPhysicsFlags {
    /// Every variant, in order of its stored value.
    pub open spec fn spec_variants() -> Seq<Self> {
        seq![FlyingPhysicsFlags::UseWorldUp]
    }

    /// The value the tag stores for this variant.
    pub open spec fn spec_value(self) -> int {
        match self {
            FlyingPhysicsFlags::UseWorldUp => 0,
        }
    }

    /// The variant stored as `v`.
    pub open spec fn spec_from_value(v: int) -> Option<Self> {
        if 0 <= v < 1 {
            Some(Self::spec_variants()[v])
        } else {
            None
        }
    }

    /// The option name of this variant.
    pub open spec fn spec_name(self) -> Seq<char> {
        match self {
            FlyingPhysicsFlags::UseWorldUp => "use world up"@,
        }
    }

    /// The first variant whose name equals `s` up to ASCII case.
    pub open spec fn spec_from_name(s: Seq<char>) -> Option<Self> {
        if eq_ignore_case(s, "use world up"@) {
            Some(FlyingPhysicsFlags::UseWorldUp)
        } else {
            None
        }
    }

    /// No two option names are equal up to ASCII case, so each name
    /// parses back to its own variant.
    pub proof fn lemma_name_roundtrip(e: Self)
        ensures
            Self::spec_from_name(e.spec_name()) == Some(e),
    {
        reveal_strlit("use world up");
        match e {
            FlyingPhysicsFlags::UseWorldUp => {
                assert(eq_ignore_case("use world up"@, "use world up"@));
            },
        }
    }

    /// The value the tag stores for this variant.
    pub fn value(self) -> (r: u32)
        ensures
            r == self.spec_value(),
            Self::spec_from_value(r as int) == Some(self),
    {
        match self {
            FlyingPhysicsFlags::UseWorldUp => 0,
        }
    }

    /// The variant stored as `v`; `None` for a value no variant has.
    pub fn from_i64(v: i64) -> (r: Option<Self>)
        ensures
            r == Self::spec_from_value(v as int),
            r matches Some(e) ==> e.spec_value() == v,
    {
        match v {
            0 => Some(FlyingPhysicsFlags::UseWorldUp),
            _ => None,
        }
    }

    /// The option name of this variant.
    pub fn name(self) -> (r: &'static str)
        ensures
            r@ == self.spec_name(),
            Self::spec_from_name(r@) == Some(self),
    {
        proof {
            Self::lemma_name_roundtrip(self);
        }
        match self {
            FlyingPhysicsFlags::UseWorldUp => "use world up",
        }
    }

    /// The variant named `s`, compared up to ASCII case; `None` when no
    /// option has that name.
    pub fn from_name(s: &str) -> (r: Option<Self>)
        ensures
            r == Self::spec_from_name(s@),
    {
        if eq_ignore_ascii_case(s, "use world up") {
            return Some(FlyingPhysicsFlags::UseWorldUp);
        }
        None
    }

    /// Every variant, in order of its stored value.
    pub fn variants() -> (r: Vec<Self>)
        ensures
            r@ == Self::spec_variants(),
            forall|k: int| 0 <= k < r@.len() ==> (#[trigger] r@[k]).spec_value() == k,
    {
        vec![FlyingPhysicsFlags::UseWorldUp]
    }
}

/// `biped_lock_on_flags_definition` (long_flags).
#[derive(Clone, Copy, PartialEq, Eq, Debug, Structural)]
pub enum BipedLockOnFlags {
    LockedByHumanTargeting,
    LockedByPlasmaTargeting,
    AlwaysLockedByPlasmaTargeting,
}

impl BipedLockOnFlags {
    /// Every variant, in order of its stored value.
    pub open spec fn spec_variants() -> Seq<Self> {
        seq![BipedLockOnFlags::LockedByHumanTargeting, BipedLockOnFlags::LockedByPlasmaTargeting, BipedLockOnFlags::AlwaysLockedByPlasmaTargeting]
    }

    /// The value the tag stores for this variant.
    pub open spec fn spec_value(self) -> int {
        match self {
            BipedLockOnFlags::LockedByHumanTargeting => 0,
            BipedLockOnFlags::LockedByPlasmaTargeting => 1,
            BipedLockOnFlags::AlwaysLockedByPlasmaTargeting => 2,
        }
    }

    /// The variant stored as `v`.
    pub open spec fn spec_from_value(v: int) -> Option<Self> {
        if 0 <= v < 3 {
            Some(Self::spec_variants()[v])
        } else {
            None
        }
    }

    /// The option name of this variant.
    pub open spec fn spec_name(self) -> Seq<char> {
        match self {
            BipedLockOnFlags::LockedByHumanTargeting => "locked by human targeting"@,
            BipedLockOnFlags::LockedByPlasmaTargeting => "locked by plasma targeting"@,
            BipedLockOnFlags::AlwaysLockedByPlasmaTargeting => "always locked by plasma targeting"@,
        }
    }

    /// The first variant whose name equals `s` up to ASCII case.
    pub open spec fn spec_from_name(s: Seq<char>) -> Option<Self> {
        if eq_ignore_case(s, "locked by human targeting"@) {
            Some(BipedLockOnFlags::LockedByHumanTargeting)
        } else if eq_ignore_case(s, "locked by plasma targeting"@) {
            Some(BipedLockOnFlags::LockedByPlasmaTargeting)
        } else if eq_ignore_case(s, "always locked by plasma targeting"@) {
            Some(BipedLockOnFlags::AlwaysLockedByPlasmaTargeting)
        } else {
            None
        }
    }

    /// No two option names are equal up to ASCII case, so each name
    /// parses back to its own variant.
    pub proof fn lemma_name_roundtrip(e: Self)
        ensures
            Self::spec_from_name(e.spec_name()) == Some(e),
    {
        reveal_strlit("locked by human targeting");
        reveal_strlit("locked by plasma targeting");
        reveal_strlit("always locked by plasma targeting");
        match e {
            BipedLockOnFlags::LockedByHumanTargeting => {
                assert(eq_ignore_case("locked by human targeting"@, "locked by human targeting"@));
            },
            BipedLockOnFlags::LockedByPlasmaTargeting => {
                assert(!eq_ignore_case("locked by plasma targeting"@, "locked by human targeting"@));
                assert(eq_ignore_case("locked by plasma targeting"@, "locked by plasma targeting"@));
            },
            BipedLockOnFlags::AlwaysLockedByPlasmaTargeting => {
                assert(!eq_ignore_case("always locked by plasma targeting"@, "locked by human targeting"@));
                assert(!eq_ignore_case("always locked by plasma targeting"@, "locked by plasma targeting"@));
                assert(eq_ignore_case("always locked by plasma targeting"@, "always locked by plasma targeting"@));
            },
        }
    }

    /// The value the tag stores for this variant.
    pub fn value(self) -> (r: u32)
        ensures
            r == self.spec_value(),
            Self::spec_from_value(r as int) == Some(self),
    {
        match self {
            BipedLockOnFlags::LockedByHumanTargeting => 0,
            BipedLockOnFlags::LockedByPlasmaTargeting => 1,
            BipedLockOnFlags::AlwaysLockedByPlasmaTargeting => 2,
        }
    }

    /// The variant stored as `v`; `None` for a value no variant has.
    pub fn from_i64(v: i64) -> (r: Option<Self>)
        ensures
            r == Self::spec_from_value(v as int),
            r matches Some(e) ==> e.spec_value() == v,
    {
        match v {
            0 => Some(BipedLockOnFlags::LockedByHumanTargeting),
            1 => Some(BipedLockOnFlags::LockedByPlasmaTargeting),
            2 => Some(BipedLockOnFlags::AlwaysLockedByPlasmaTargeting),
            _ => None,
        }
    }

    /// The option name of this variant.
    pub fn name(self) -> (r: &'static str)
        ensures
            r@ == self.spec_name(),
            Self::spec_from_name(r@) == Some(self),
    {
        proof {
            Self::lemma_name_roundtrip(self);
        }
        match self {
            BipedLockOnFlags::LockedByHumanTargeting => "locked by human targeting",
            BipedLockOnFlags::LockedByPlasmaTargeting => "locked by plasma targeting",
            BipedLockOnFlags::AlwaysLockedByPlasmaTargeting => "always locked by plasma targeting",
        }
    }

    /// The variant named `s`, compared up to ASCII case; `None` when no
    /// option has that name.
    pub fn from_name(s: &str) -> (r: Option<Self>)
        ensures
            r == Self::spec_from_name(s@),
    {
        if eq_ignore_ascii_case(s, "locked by human targeting") {
            return Some(BipedLockOnFlags::LockedByHumanTargeting);
        }
        if eq_ignore_ascii_case(s, "locked by plasma targeting") {
            return Some(BipedLockOnFlags::LockedByPlasmaTargeting);
        }
        if eq_ignore_ascii_case(s, "always locked by plasma targeting") {
            return Some(BipedLockOnFlags::AlwaysLockedByPlasmaTargeting);
        }
        None
    }

    /// Every variant, in order of its stored value.
    pub fn variants() -> (r: Vec<Self>)
        ensures
            r@ == Self::spec_variants(),
            forall|k: int| 0 <= k < r@.len() ==> (#[trigger] r@[k]).spec_value() == k,
    {
        vec![BipedLockOnFlags::LockedByHumanTargeting, BipedLockOnFlags::LockedByPlasmaTargeting, BipedLockOnFlags::AlwaysLockedByPlasmaTargeting]
    }
}

/// `biped_leap_flags_definition` (long_flags).
#[derive(Clone, Copy, PartialEq, Eq, Debug, Structural)]
pub enum BipedLeapFlags {
    ForceEarlyRoll,
}

impl BipedLeapFlags {
    /// Every variant, in order of its stored value.
    pub open spec fn spec_variants() -> Seq<Self> {
        seq![BipedLeapFlags::ForceEarlyRoll]
    }

    /// The value the tag stores for this variant.
    pub open spec fn spec_value(self) -> int {
        match self {
            BipedLeapFlags::ForceEarlyRoll => 0,
        }
    }

    /// The variant stored as `v`.
    pub open spec fn spec_from_value(v: int) -> Option<Self> {
        if 0 <= v < 1 {
            Some(Self::spec_variants()[v])
        } else {
            None
        }
    }

    /// The option name of this variant.
    pub open spec fn spec_name(self) -> Seq<char> {
        match self {
            BipedLeapFlags::ForceEarlyRoll => "force early roll"@,
        }
    }

    /// The first variant whose name equals `s` up to ASCII case.
    pub open spec fn spec_from_name(s: Seq<char>) -> Option<Self> {
        if eq_ignore_case(s, "force early roll"@) {
            Some(BipedLeapFlags::ForceEarlyRoll)
        } else {
            None
        }
    }

    /// No two option names are equal up to ASCII case, so each name
    /// parses back to its own variant.
    pub proof fn lemma_name_roundtrip(e: Self)
        ensures
            Self::spec_from_name(e.spec_name()) == Some(e),
    {
        reveal_strlit("force early roll");
        match e {
            BipedLeapFlags::ForceEarlyRoll => {
                assert(eq_ignore_case("force early roll"@, "force early roll"@));
            },
        }
    }

    /// The value the tag stores for this variant.
    pub fn value(self) -> (r: u32)
        ensures
            r == self.spec_value(),
            Self::spec_from_value(r as int) == Some(self),
    {
        match self {
            BipedLeapFlags::ForceEarlyRoll => 0,
        }
    }

    /// The variant stored as `v`; `None` for a value no variant has.
    pub fn from_i64(v: i64) -> (r: Option<Self>)
        ensures
            r == Self::spec_from_value(v as int),
            r matches Some(e) ==> e.spec_value() == v,
    {
        match v {
            0 => Some(BipedLeapFlags::ForceEarlyRoll),
            _ => None,
        }
    }

    /// The option name of this variant.
    pub fn name(self) -> (r: &'static str)
        ensures
            r@ == self.spec_name(),
            Self::spec_from_name(r@) == Some(self),
    {
        proof {
            Self::lemma_name_roundtrip(self);
        }
        match self {
            BipedLeapFlags::ForceEarlyRoll => "force early roll",
        }
    }

    /// The variant named `s`, compared up to ASCII case; `None` when no
    /// option has that name.
    pub fn from_name(s: &str) -> (r: Option<Self>)
        ensures
            r == Self::spec_from_name(s@),
    {
        if eq_ignore_ascii_case(s, "force early roll") {
            return Some(BipedLeapFlags::ForceEarlyRoll);
        }
        None
    }

    /// Every variant, in order of its stored value.
    pub fn variants() -> (r: Vec<Self>)
        ensures
            r@ == Self::spec_variants(),
            forall|k: int| 0 <= k < r@.len() ==> (#[trigger] r@[k]).spec_value() == k,
    {
        vec![BipedLeapFlags::ForceEarlyRoll]
    }
}

} // verus!
