//! Flag words and option sets of the `jpt!` (damage effect) tag.
use vstd::prelude::*;

use crate::numtext::{ascii_lower, eq_ignore_ascii_case, eq_ignore_case};

verus! {

/// `damage_effect_flags` (long_flags).
#[derive(Clone, Copy, PartialEq, Eq, Debug, Structural)]
pub enum DamageEffectFlags {
    DontScaleDamageByDistance,
    AreaDamagePlayersOnly,
}

impl DamageEffectFlags {
    /// Every variant, in order of its stored value.
    pub open spec fn spec_variants() -> Seq<Self> {
        seq![DamageEffectFlags::DontScaleDamageByDistance, DamageEffectFlags::AreaDamagePlayersOnly]
    }

    /// The value the tag stores for this variant.
    pub open spec fn spec_value(self) -> int {
        match self {
            DamageEffectFlags::DontScaleDamageByDistance => 0,
            DamageEffectFlags::AreaDamagePlayersOnly => 1,
        }
    }

    /// The variant stored as `v`.
    pub open spec fn spec_from_value(v: int) -> Option<Self> {
        if 0 <= v < 2 {
            Some(Self::spec_variants()[v])
        } else {
            None
        }
    }

    /// The option name of this variant.
    pub open spec fn spec_name(self) -> Seq<char> {
        match self {
            DamageEffectFlags::DontScaleDamageByDistance => "don't scale damage by distance"@,
            DamageEffectFlags::AreaDamagePlayersOnly => "area damage players only"@,
        }
    }

    /// The first variant whose name equals `s` up to ASCII case.
    pub open spec fn spec_from_name(s: Seq<char>) -> Option<Self> {
        if eq_ignore_case(s, "don't scale damage by distance"@) {
            Some(DamageEffectFlags::DontScaleDamageByDistance)
        } else if eq_ignore_case(s, "area damage players only"@) {
            Some(DamageEffectFlags::AreaDamagePlayersOnly)
        } else {
            None
        }
    }

    /// No two option names are equal up to ASCII case, so each name
    /// parses back to its own variant.
    pub proof fn lemma_name_roundtrip(e: Self)
        ensures
            Self::spec_from_name(e.spec_name()) == Some(e),
    {
        reveal_strlit("don't scale damage by distance");
        reveal_strlit("area damage players only");
        match e {
            DamageEffectFlags::DontScaleDamageByDistance => {
                assert(eq_ignore_case("don't scale damage by distance"@, "don't scale damage by distance"@));
            },
            DamageEffectFlags::AreaDamagePlayersOnly => {
                assert(!eq_ignore_case("area damage players only"@, "don't scale damage by distance"@));
                assert(eq_ignore_case("area damage players only"@, "area damage players only"@));
            },
        }
    }

    /// The value the tag stores for this variant.
    pub fn value(self) -> (r: u32)
        ensures
            r == self.spec_value(),
            Self::spec_from_value(r as int) == Some(self),
    {
        match self {
            DamageEffectFlags::DontScaleDamageByDistance => 0,
            DamageEffectFlags::AreaDamagePlayersOnly => 1,
        }
    }

    /// The variant stored as `v`; `None` for a value no variant has.
    pub fn from_i64(v: i64) -> (r: Option<Self>)
        ensures
            r == Self::spec_from_value(v as int),
            r matches Some(e) ==> e.spec_value() == v,
    {
        match v {
            0 => Some(DamageEffectFlags::DontScaleDamageByDistance),
            1 => Some(DamageEffectFlags::AreaDamagePlayersOnly),
            _ => None,
        }
    }

    /// The option name of this variant.
    pub fn name(self) -> (r: &'static str)
        ensures
            r@ == self.spec_name(),
            Self::spec_from_name(r@) == Some(self),
    {
        proof {
            Self::lemma_name_roundtrip(self);
        }
        match self {
            DamageEffectFlags::DontScaleDamageByDistance => "don't scale damage by distance",
            DamageEffectFlags::AreaDamagePlayersOnly => "area damage players only",
        }
    }

    /// The variant named `s`, compared up to ASCII case; `None` when no
    /// option has that name.
    pub fn from_name(s: &str) -> (r: Option<Self>)
        ensures
            r == Self::spec_from_name(s@),
    {
        if eq_ignore_ascii_case(s, "don't scale damage by distance") {
            return Some(DamageEffectFlags::DontScaleDamageByDistance);
        }
        if eq_ignore_ascii_case(s, "area damage players only") {
            return Some(DamageEffectFlags::AreaDamagePlayersOnly);
        }
        None
    }

    /// Every variant, in order of its stored value.
    pub fn variants() -> (r: Vec<Self>)
        ensures
            r@ == Self::spec_variants(),
            forall|k: int| 0 <= k < r@.len() ==> (#[trigger] r@[k]).spec_value() == k,
    {
        vec![DamageEffectFlags::DontScaleDamageByDistance, DamageEffectFlags::AreaDamagePlayersOnly]
    }
}

/// `damage_side_effects` (short_enum).
#[derive(Clone, Copy, PartialEq, Eq, Debug, Structural)]
pub enum DamageSideEffect {
    NoSideEffect,
    Harmless,
    LethalToTheUnsuspecting,
    Emp,
}

impl Default for DamageSideEffect {
    fn default() -> (r: Self)
        ensures
            r == DamageSideEffect::NoSideEffect,
    {
        DamageSideEffect::NoSideEffect
    }
}

impl DamageSideEffect {
    /// Every variant, in order of its stored value.
    pub open spec fn spec_variants() -> Seq<Self> {
        seq![DamageSideEffect::NoSideEffect, DamageSideEffect::Harmless, DamageSideEffect::LethalToTheUnsuspecting, DamageSideEffect::Emp]
    }

    /// The value the tag stores for this variant.
    pub open spec fn spec_value(self) -> int {
        match self {
            DamageSideEffect::NoSideEffect => 0,
            DamageSideEffect::Harmless => 1,
            DamageSideEffect::LethalToTheUnsuspecting => 2,
            DamageSideEffect::Emp => 3,
        }
    }

    /// The variant stored as `v`.
    pub open spec fn spec_from_value(v: int) -> Option<Self> {
        if 0 <= v < 4 {
            Some(Self::spec_variants()[v])
        } else {
            None
        }
    }

    /// The option name of this variant.
    pub open spec fn spec_name(self) -> Seq<char> {
        match self {
            DamageSideEffect::NoSideEffect => "none"@,
            DamageSideEffect::Harmless => "harmless"@,
            DamageSideEffect::LethalToTheUnsuspecting => "lethal to the unsuspecting"@,
            DamageSideEffect::Emp => "emp"@,
        }
    }

    /// The first variant whose name equals `s` up to ASCII case.
    pub open spec fn spec_from_name(s: Seq<char>) -> Option<Self> {
        if eq_ignore_case(s, "none"@) {
            Some(DamageSideEffect::NoSideEffect)
        } else if eq_ignore_case(s, "harmless"@) {
            Some(DamageSideEffect::Harmless)
        } else if eq_ignore_case(s, "lethal to the unsuspecting"@) {
            Some(DamageSideEffect::LethalToTheUnsuspecting)
        } else if eq_ignore_case(s, "emp"@) {
            Some(DamageSideEffect::Emp)
        } else {
            None
        }
    }

    /// No two option names are equal up to ASCII case, so each name
    /// parses back to its own variant.
    pub proof fn lemma_name_roundtrip(e: Self)
        ensures
            Self::spec_from_name(e.spec_name()) == Some(e),
    {
        reveal_strlit("none");
        reveal_strlit("harmless");
        reveal_strlit("lethal to the unsuspecting");
        reveal_strlit("emp");
        match e {
            DamageSideEffect::NoSideEffect => {
                assert(eq_ignore_case("none"@, "none"@));
            },
            DamageSideEffect::Harmless => {
                assert(!eq_ignore_case("harmless"@, "none"@));
                assert(eq_ignore_case("harmless"@, "harmless"@));
            },
            DamageSideEffect::LethalToTheUnsuspecting => {
                assert(!eq_ignore_case("lethal to the unsuspecting"@, "none"@));
                assert(!eq_ignore_case("lethal to the unsuspecting"@, "harmless"@));
                assert(eq_ignore_case("lethal to the unsuspecting"@, "lethal to the unsuspecting"@));
            },
            DamageSideEffect::Emp => {
                assert(!eq_ignore_case("emp"@, "none"@));
                assert(!eq_ignore_case("emp"@, "harmless"@));
                assert(!eq_ignore_case("emp"@, "lethal to the unsuspecting"@));
                assert(eq_ignore_case("emp"@, "emp"@));
            },
        }
    }

    /// The value the tag stores for this variant.
    pub fn value(self) -> (r: i16)
        ensures
            r == self.spec_value(),
            Self::spec_from_value(r as int) == Some(self),
    {
        match self {
            DamageSideEffect::NoSideEffect => 0,
            DamageSideEffect::Harmless => 1,
            DamageSideEffect::LethalToTheUnsuspecting => 2,
            DamageSideEffect::Emp => 3,
        }
    }

    /// The variant stored as `v`; `None` for a value no variant has.
    pub fn from_i64(v: i64) -> (r: Option<Self>)
        ensures
            r == Self::spec_from_value(v as int),
            r matches Some(e) ==> e.spec_value() == v,
    {
        match v {
            0 => Some(DamageSideEffect::NoSideEffect),
            1 => Some(DamageSideEffect::Harmless),
            2 => Some(DamageSideEffect::LethalToTheUnsuspecting),
            3 => Some(DamageSideEffect::Emp),
            _ => None,
        }
    }

    /// The option name of this variant.
    pub fn name(self) -> (r: &'static str)
        ensures
            r@ == self.spec_name(),
            Self::spec_from_name(r@) == Some(self),
    {
        proof {
            Self::lemma_name_roundtrip(self);
        }
        match self {
            DamageSideEffect::NoSideEffect => "none",
            DamageSideEffect::Harmless => "harmless",
            DamageSideEffect::LethalToTheUnsuspecting => "lethal to the unsuspecting",
            DamageSideEffect::Emp => "emp",
        }
    }

    /// The variant named `s`, compared up to ASCII case; `None` when no
    /// option has that name.
    pub fn from_name(s: &str) -> (r: Option<Self>)
        ensures
            r == Self::spec_from_name(s@),
    {
        if eq_ignore_ascii_case(s, "none") {
            return Some(DamageSideEffect::NoSideEffect);
        }
        if eq_ignore_ascii_case(s, "harmless") {
            return Some(DamageSideEffect::Harmless);
        }
        if eq_ignore_ascii_case(s, "lethal to the unsuspecting") {
            return Some(DamageSideEffect::LethalToTheUnsuspecting);
        }
        if eq_ignore_ascii_case(s, "emp") {
            return Some(DamageSideEffect::Emp);
        }
        None
    }

    /// Every variant, in order of its stored value.
    pub fn variants() -> (r: Vec<Self>)
        ensures
            r@ == Self::spec_variants(),
            forall|k: int| 0 <= k < r@.len() ==> (#[trigger] r@[k]).spec_value() == k,
    {
        vec![DamageSideEffect::NoSideEffect, DamageSideEffect::Harmless, DamageSideEffect::LethalToTheUnsuspecting, DamageSideEffect::Emp]
    }
}

/// `damage_categories` (short_enum).
#[derive(Clone, Copy, PartialEq, Eq, Debug, Structural)]
pub enum DamageCategory {
    NoCategory,
    Falling,
    Bullet,
    Grenade,
    HighExplosive,
    Sniper,
    Melee,
    Flame,
    MountedWeapon,
    Vehicle,
    Plasma,
    Needle,
    Shotgun,
}

impl Default for DamageCategory {
    fn default() -> (r: Self)
        ensures
            r == DamageCategory::NoCategory,
    {
        DamageCategory::NoCategory
    }
}

impl DamageCategory {
    /// Every variant, in order of its stored value.
    pub open spec fn spec_variants() -> Seq<Self> {
        seq![DamageCategory::NoCategory, DamageCategory::Falling, DamageCategory::Bullet, DamageCategory::Grenade, DamageCategory::HighExplosive, DamageCategory::Sniper, DamageCategory::Melee, DamageCategory::Flame, DamageCategory::MountedWeapon, DamageCategory::Vehicle, DamageCategory::Plasma, DamageCategory::Needle, DamageCategory::Shotgun]
    }

    /// The value the tag stores for this variant.
    pub open spec fn spec_value(self) -> int {
        match self {
            DamageCategory::NoCategory => 0,
            DamageCategory::Falling => 1,
            DamageCategory::Bullet => 2,
            DamageCategory::Grenade => 3,
            DamageCategory::HighExplosive => 4,
            DamageCategory::Sniper => 5,
            DamageCategory::Melee => 6,
            DamageCategory::Flame => 7,
            DamageCategory::MountedWeapon => 8,
            DamageCategory::Vehicle => 9,
            DamageCategory::Plasma => 10,
            DamageCategory::Needle => 11,
            DamageCategory::Shotgun => 12,
        }
    }

    /// The variant stored as `v`.
    pub open spec fn spec_from_value(v: int) -> Option<Self> {
        if 0 <= v < 13 {
            Some(Self::spec_variants()[v])
        } else {
            None
        }
    }

    /// The option name of this variant.
    pub open spec fn spec_name(self) -> Seq<char> {
        match self {
            DamageCategory::NoCategory => "none"@,
            DamageCategory::Falling => "falling"@,
            DamageCategory::Bullet => "bullet"@,
            DamageCategory::Grenade => "grenade"@,
            DamageCategory::HighExplosive => "high explosive"@,
            DamageCategory::Sniper => "sniper"@,
            DamageCategory::Melee => "melee"@,
            DamageCategory::Flame => "flame"@,
            DamageCategory::MountedWeapon => "mounted weapon"@,
            DamageCategory::Vehicle => "vehicle"@,
            DamageCategory::Plasma => "plasma"@,
            DamageCategory::Needle => "needle"@,
            DamageCategory::Shotgun => "shotgun"@,
        }
    }

    /// The first variant whose name equals `s` up to ASCII case.
    pub open spec fn spec_from_name(s: Seq<char>) -> Option<Self> {
        if eq_ignore_case(s, "none"@) {
            Some(DamageCategory::NoCategory)
        } else if eq_ignore_case(s, "falling"@) {
            Some(DamageCategory::Falling)
        } else if eq_ignore_case(s, "bullet"@) {
            Some(DamageCategory::Bullet)
        } else if eq_ignore_case(s, "grenade"@) {
            Some(DamageCategory::Grenade)
        } else if eq_ignore_case(s, "high explosive"@) {
            Some(DamageCategory::HighExplosive)
        } else if eq_ignore_case(s, "sniper"@) {
            Some(DamageCategory::Sniper)
        } else if eq_ignore_case(s, "melee"@) {
            Some(DamageCategory::Melee)
        } else if eq_ignore_case(s, "flame"@) {
            Some(DamageCategory::Flame)
        } else if eq_ignore_case(s, "mounted weapon"@) {
            Some(DamageCategory::MountedWeapon)
        } else if eq_ignore_case(s, "vehicle"@) {
            Some(DamageCategory::Vehicle)
        } else if eq_ignore_case(s, "plasma"@) {
            Some(DamageCategory::Plasma)
        } else if eq_ignore_case(s, "needle"@) {
            Some(DamageCategory::Needle)
        } else if eq_ignore_case(s, "shotgun"@) {
            Some(DamageCategory::Shotgun)
        } else {
            None
        }
    }

    /// No two option names are equal up to ASCII case, so each name
    /// parses back to its own variant.
    pub proof fn lemma_name_roundtrip(e: Self)
        ensures
            Self::spec_from_name(e.spec_name()) == Some(e),
    {
        reveal_strlit("none");
        reveal_strlit("falling");
        reveal_strlit("bullet");
        reveal_strlit("grenade");
        reveal_strlit("high explosive");
        reveal_strlit("sniper");
        reveal_strlit("melee");
        reveal_strlit("flame");
        reveal_strlit("mounted weapon");
        reveal_strlit("vehicle");
        reveal_strlit("plasma");
        reveal_strlit("needle");
        reveal_strlit("shotgun");
        match e {
            DamageCategory::NoCategory => {
                assert(eq_ignore_case("none"@, "none"@));
            },
            DamageCategory::Falling => {
                assert(!eq_ignore_case("falling"@, "none"@));
                assert(eq_ignore_case("falling"@, "falling"@));
            },
            DamageCategory::Bullet => {
                assert(!eq_ignore_case("bullet"@, "none"@));
                assert(!eq_ignore_case("bullet"@, "falling"@));
                assert(eq_ignore_case("bullet"@, "bullet"@));
            },
            DamageCategory::Grenade => {
                assert(!eq_ignore_case("grenade"@, "none"@));
                assert(ascii_lower("grenade"@[0]) != ascii_lower("falling"@[0]));
                assert(!eq_ignore_case("grenade"@, "bullet"@));
                assert(eq_ignore_case("grenade"@, "grenade"@));
            },
            DamageCategory::HighExplosive => {
                assert(!eq_ignore_case("high explosive"@, "none"@));
                assert(!eq_ignore_case("high explosive"@, "falling"@));
                assert(!eq_ignore_case("high explosive"@, "bullet"@));
                assert(!eq_ignore_case("high explosive"@, "grenade"@));
                assert(eq_ignore_case("high explosive"@, "high explosive"@));
            },
            DamageCategory::Sniper => {
                assert(!eq_ignore_case("sniper"@, "none"@));
                assert(!eq_ignore_case("sniper"@, "falling"@));
                assert(ascii_lower("sniper"@[0]) != ascii_lower("bullet"@[0]));
                assert(!eq_ignore_case("sniper"@, "grenade"@));
                assert(!eq_ignore_case("sniper"@, "high explosive"@));
                assert(eq_ignore_case("sniper"@, "sniper"@));
            },
            DamageCategory::Melee => {
                assert(!eq_ignore_case("melee"@, "none"@));
                assert(!eq_ignore_case("melee"@, "falling"@));
                assert(!eq_ignore_case("melee"@, "bullet"@));
                assert(!eq_ignore_case("melee"@, "grenade"@));
                assert(!eq_ignore_case("melee"@, "high explosive"@));
                assert(!eq_ignore_case("melee"@, "sniper"@));
                assert(eq_ignore_case("melee"@, "melee"@));
            },
            DamageCategory::Flame => {
                assert(!eq_ignore_case("flame"@, "none"@));
                assert(!eq_ignore_case("flame"@, "falling"@));
                assert(!eq_ignore_case("flame"@, "bullet"@));
                assert(!eq_ignore_case("flame"@, "grenade"@));
                assert(!eq_ignore_case("flame"@, "high explosive"@));
                assert(!eq_ignore_case("flame"@, "sniper"@));
                assert(ascii_lower("flame"@[0]) != ascii_lower("melee"@[0]));
                assert(eq_ignore_case("flame"@, "flame"@));
            },
            DamageCategory::MountedWeapon => {
                assert(!eq_ignore_case("mounted weapon"@, "none"@));
                assert(!eq_ignore_case("mounted weapon"@, "falling"@));
                assert(!eq_ignore_case("mounted weapon"@, "bullet"@));
                assert(!eq_ignore_case("mounted weapon"@, "grenade"@));
                assert(ascii_lower("mounted weapon"@[0]) != ascii_lower("high explosive"@[0]));
                assert(!eq_ignore_case("mounted weapon"@, "sniper"@));
                assert(!eq_ignore_case("mounted weapon"@, "melee"@));
                assert(!eq_ignore_case("mounted weapon"@, "flame"@));
                assert(eq_ignore_case("mounted weapon"@, "mounted weapon"@));
            },
            DamageCategory::Vehicle => {
                assert(!eq_ignore_case("vehicle"@, "none"@));
                assert(ascii_lower("vehicle"@[0]) != ascii_lower("falling"@[0]));
                assert(!eq_ignore_case("vehicle"@, "bullet"@));
                assert(ascii_lower("vehicle"@[0]) != ascii_lower("grenade"@[0]));
                assert(!eq_ignore_case("vehicle"@, "high explosive"@));
                assert(!eq_ignore_case("vehicle"@, "sniper"@));
                assert(!eq_ignore_case("vehicle"@, "melee"@));
                assert(!eq_ignore_case("vehicle"@, "flame"@));
                assert(!eq_ignore_case("vehicle"@, "mounted weapon"@));
                assert(eq_ignore_case("vehicle"@, "vehicle"@));
            },
            DamageCategory::Plasma => {
                assert(!eq_ignore_case("plasma"@, "none"@));
                assert(!eq_ignore_case("plasma"@, "falling"@));
                assert(ascii_lower("plasma"@[0]) != ascii_lower("bullet"@[0]));
                assert(!eq_ignore_case("plasma"@, "grenade"@));
                assert(!eq_ignore_case("plasma"@, "high explosive"@));
                assert(ascii_lower("plasma"@[0]) != ascii_lower("sniper"@[0]));
                assert(!eq_ignore_case("plasma"@, "melee"@));
                assert(!eq_ignore_case("plasma"@, "flame"@));
                assert(!eq_ignore_case("plasma"@, "mounted weapon"@));
                assert(!eq_ignore_case("plasma"@, "vehicle"@));
                assert(eq_ignore_case("plasma"@, "plasma"@));
            },
            DamageCategory::Needle => {
                assert(!eq_ignore_case("needle"@, "none"@));
                assert(!eq_ignore_case("needle"@, "falling"@));
                assert(ascii_lower("needle"@[0]) != ascii_lower("bullet"@[0]));
                assert(!eq_ignore_case("needle"@, "grenade"@));
                assert(!eq_ignore_case("needle"@, "high explosive"@));
                assert(ascii_lower("needle"@[0]) != ascii_lower("sniper"@[0]));
                assert(!eq_ignore_case("needle"@, "melee"@));
                assert(!eq_ignore_case("needle"@, "flame"@));
                assert(!eq_ignore_case("needle"@, "mounted weapon"@));
                assert(!eq_ignore_case("needle"@, "vehicle"@));
                assert(ascii_lower("needle"@[0]) != ascii_lower("plasma"@[0]));
                assert(eq_ignore_case("needle"@, "needle"@));
            },
            DamageCategory::Shotgun => {
                assert(!eq_ignore_case("shotgun"@, "none"@));
                assert(ascii_lower("shotgun"@[0]) != ascii_lower("falling"@[0]));
                assert(!eq_ignore_case("shotgun"@, "bullet"@));
                assert(ascii_lower("shotgun"@[0]) != ascii_lower("grenade"@[0]));
                assert(!eq_ignore_case("shotgun"@, "high explosive"@));
                assert(!eq_ignore_case("shotgun"@, "sniper"@));
                assert(!eq_ignore_case("shotgun"@, "melee"@));
                assert(!eq_ignore_case("shotgun"@, "flame"@));
                assert(!eq_ignore_case("shotgun"@, "mounted weapon"@));
                assert(ascii_lower("shotgun"@[0]) != ascii_lower("vehicle"@[0]));
                assert(!eq_ignore_case("shotgun"@, "plasma"@));
                assert(!eq_ignore_case("shotgun"@, "needle"@));
                assert(eq_ignore_case("shotgun"@, "shotgun"@));
            },
        }
    }

    /// The value the tag stores for this variant.
    pub fn value(self) -> (r: i16)
        ensures
            r == self.spec_value(),
            Self::spec_from_value(r as int) == Some(self),
    {
        match self {
            DamageCategory::NoCategory => 0,
            DamageCategory::Falling => 1,
            DamageCategory::Bullet => 2,
            DamageCategory::Grenade => 3,
            DamageCategory::HighExplosive => 4,
            DamageCategory::Sniper => 5,
            DamageCategory::Melee => 6,
            DamageCategory::Flame => 7,
            DamageCategory::MountedWeapon => 8,
            DamageCategory::Vehicle => 9,
            DamageCategory::Plasma => 10,
            DamageCategory::Needle => 11,
            DamageCategory::Shotgun => 12,
        }
    }

    /// The variant stored as `v`; `None` for a value no variant has.
    pub fn from_i64(v: i64) -> (r: Option<Self>)
        ensures
            r == Self::spec_from_value(v as int),
            r matches Some(e) ==> e.spec_value() == v,
    {
        match v {
            0 => Some(DamageCategory::NoCategory),
            1 => Some(DamageCategory::Falling),
            2 => Some(DamageCategory::Bullet),
            3 => Some(DamageCategory::Grenade),
            4 => Some(DamageCategory::HighExplosive),
            5 => Some(DamageCategory::Sniper),
            6 => Some(DamageCategory::Melee),
            7 => Some(DamageCategory::Flame),
            8 => Some(DamageCategory::MountedWeapon),
            9 => Some(DamageCategory::Vehicle),
            10 => Some(DamageCategory::Plasma),
            11 => Some(DamageCategory::Needle),
            12 => Some(DamageCategory::Shotgun),
            _ => None,
        }
    }

    /// The option name of this variant.
    pub fn name(self) -> (r: &'static str)
        ensures
            r@ == self.spec_name(),
            Self::spec_from_name(r@) == Some(self),
    {
        proof {
            Self::lemma_name_roundtrip(self);
        }
        match self {
            DamageCategory::NoCategory => "none",
            DamageCategory::Falling => "falling",
            DamageCategory::Bullet => "bullet",
            DamageCategory::Grenade => "grenade",
            DamageCategory::HighExplosive => "high explosive",
            DamageCategory::Sniper => "sniper",
            DamageCategory::Melee => "melee",
            DamageCategory::Flame => "flame",
            DamageCategory::MountedWeapon => "mounted weapon",
            DamageCategory::Vehicle => "vehicle",
            DamageCategory::Plasma => "plasma",
            DamageCategory::Needle => "needle",
            DamageCategory::Shotgun => "shotgun",
        }
    }

    /// The variant named `s`, compared up to ASCII case; `None` when no
    /// option has that name.
    pub fn from_name(s: &str) -> (r: Option<Self>)
        ensures
            r == Self::spec_from_name(s@),
    {
        if eq_ignore_ascii_case(s, "none") {
            return Some(DamageCategory::NoCategory);
        }
        if eq_ignore_ascii_case(s, "falling") {
            return Some(DamageCategory::Falling);
        }
        if eq_ignore_ascii_case(s, "bullet") {
            return Some(DamageCategory::Bullet);
        }
        if eq_ignore_ascii_case(s, "grenade") {
            return Some(DamageCategory::Grenade);
        }
        if eq_ignore_ascii_case(s, "high explosive") {
            return Some(DamageCategory::HighExplosive);
        }
        if eq_ignore_ascii_case(s, "sniper") {
            return Some(DamageCategory::Sniper);
        }
        if eq_ignore_ascii_case(s, "melee") {
            return Some(DamageCategory::Melee);
        }
        if eq_ignore_ascii_case(s, "flame") {
            return Some(DamageCategory::Flame);
        }
        if eq_ignore_ascii_case(s, "mounted weapon") {
            return Some(DamageCategory::MountedWeapon);
        }
        if eq_ignore_ascii_case(s, "vehicle") {
            return Some(DamageCategory::Vehicle);
        }
        if eq_ignore_ascii_case(s, "plasma") {
            return Some(DamageCategory::Plasma);
        }
        if eq_ignore_ascii_case(s, "needle") {
            return Some(DamageCategory::Needle);
        }
        if eq_ignore_ascii_case(s, "shotgun") {
            return Some(DamageCategory::Shotgun);
        }
        None
    }

    /// Every variant, in order of its stored value.
    pub fn variants() -> (r: Vec<Self>)
        ensures
            r@ == Self::spec_variants(),
            forall|k: int| 0 <= k < r@.len() ==> (#[trigger] r@[k]).spec_value() == k,
    {
        vec![DamageCategory::NoCategory, DamageCategory::Falling, DamageCategory::Bullet, DamageCategory::Grenade, DamageCategory::HighExplosive, DamageCategory::Sniper, DamageCategory::Melee, DamageCategory::Flame, DamageCategory::MountedWeapon, DamageCategory::Vehicle, DamageCategory::Plasma, DamageCategory::Needle, DamageCategory::Shotgun]
    }
}

/// `damage_flags` (long_flags).
#[derive(Clone, Copy, PartialEq, Eq, Debug, Structural)]
pub enum DamageFlags {
    DoesNotHurtOwner,
    CanCauseHeadshots,
    PingsResistantUnits,
    DoesNotHurtFriends,
    DoesNotPingUnits,
    DetonatesExplosives,
    OnlyHurtsShields,
    CausesFlamingDeath,
    DamageIndicatorsAlwaysPointDown,
    SkipsShields,
    OnlyHurtsOneInfectionForm,
    TransferDmgAlwaysUsesMin,
    InfectionFormPop,
    IgnoreSeatScaleForDirDmg,
    ForcesHardPingIfBodyDmg,
    DoesNotHurtPlayers,
    DoesNotOvercombine,
    EnablesSpecialDeath,
    CannotCauseBetrayals,
    UsesOldEmpBehavior,
    IgnoresDamageResistance,
    ForceSKillOnDeath,
    CauseMagicDeceleration,
}

impl DamageFlags {
    /// Every variant, in order of its stored value.
    pub open spec fn spec_variants() -> Seq<Self> {
        seq![DamageFlags::DoesNotHurtOwner, DamageFlags::CanCauseHeadshots, DamageFlags::PingsResistantUnits, DamageFlags::DoesNotHurtFriends, DamageFlags::DoesNotPingUnits, DamageFlags::DetonatesExplosives, DamageFlags::OnlyHurtsShields, DamageFlags::CausesFlamingDeath, DamageFlags::DamageIndicatorsAlwaysPointDown, DamageFlags::SkipsShields, DamageFlags::OnlyHurtsOneInfectionForm, DamageFlags::TransferDmgAlwaysUsesMin, DamageFlags::InfectionFormPop, DamageFlags::IgnoreSeatScaleForDirDmg, DamageFlags::ForcesHardPingIfBodyDmg, DamageFlags::DoesNotHurtPlayers, DamageFlags::DoesNotOvercombine, DamageFlags::EnablesSpecialDeath, DamageFlags::CannotCauseBetrayals, DamageFlags::UsesOldEmpBehavior, DamageFlags::IgnoresDamageResistance, DamageFlags::ForceSKillOnDeath, DamageFlags::CauseMagicDeceleration]
    }

    /// The value the tag stores for this variant.
    pub open spec fn spec_value(self) -> int {
        match self {
            DamageFlags::DoesNotHurtOwner => 0,
            DamageFlags::CanCauseHeadshots => 1,
            DamageFlags::PingsResistantUnits => 2,
            DamageFlags::DoesNotHurtFriends => 3,
            DamageFlags::DoesNotPingUnits => 4,
            DamageFlags::DetonatesExplosives => 5,
            DamageFlags::OnlyHurtsShields => 6,
            DamageFlags::CausesFlamingDeath => 7,
            DamageFlags::DamageIndicatorsAlwaysPointDown => 8,
            DamageFlags::SkipsShields => 9,
            DamageFlags::OnlyHurtsOneInfectionForm => 10,
            DamageFlags::TransferDmgAlwaysUsesMin => 11,
            DamageFlags::InfectionFormPop => 12,
            DamageFlags::IgnoreSeatScaleForDirDmg => 13,
            DamageFlags::ForcesHardPingIfBodyDmg => 14,
            DamageFlags::DoesNotHurtPlayers => 15,
            DamageFlags::DoesNotOvercombine => 16,
            DamageFlags::EnablesSpecialDeath => 17,
            DamageFlags::CannotCauseBetrayals => 18,
            DamageFlags::UsesOldEmpBehavior => 19,
            DamageFlags::IgnoresDamageResistance => 20,
            DamageFlags::ForceSKillOnDeath => 21,
            DamageFlags::CauseMagicDeceleration => 22,
        }
    }

    /// The variant stored as `v`.
    pub open spec fn spec_from_value(v: int) -> Option<Self> {
        if 0 <= v < 23 {
            Some(Self::spec_variants()[v])
        } else {
            None
        }
    }

    /// The option name of this variant.
    pub open spec fn spec_name(self) -> Seq<char> {
        match self {
            DamageFlags::DoesNotHurtOwner => "does not hurt owner"@,
            DamageFlags::CanCauseHeadshots => "can cause headshots"@,
            DamageFlags::PingsResistantUnits => "pings resistant units"@,
            DamageFlags::DoesNotHurtFriends => "does not hurt friends"@,
            DamageFlags::DoesNotPingUnits => "does not ping units"@,
            DamageFlags::DetonatesExplosives => "detonates explosives"@,
            DamageFlags::OnlyHurtsShields => "only hurts shields"@,
            DamageFlags::CausesFlamingDeath => "causes flaming death"@,
            DamageFlags::DamageIndicatorsAlwaysPointDown => "damage indicators always point down"@,
            DamageFlags::SkipsShields => "skips shields"@,
            DamageFlags::OnlyHurtsOneInfectionForm => "only hurts one infection form"@,
            DamageFlags::TransferDmgAlwaysUsesMin => "transfer dmg always uses min"@,
            DamageFlags::InfectionFormPop => "infection form pop"@,
            DamageFlags::IgnoreSeatScaleForDirDmg => "ignore seat scale for dir. dmg"@,
            DamageFlags::ForcesHardPingIfBodyDmg => "forces hard ping if body dmg"@,
            DamageFlags::DoesNotHurtPlayers => "does not hurt players"@,
            DamageFlags::DoesNotOvercombine => "does not overcombine"@,
            DamageFlags::EnablesSpecialDeath => "enables special death"@,
            DamageFlags::CannotCauseBetrayals => "cannot cause betrayals"@,
            DamageFlags::UsesOldEmpBehavior => "uses old EMP behavior"@,
            DamageFlags::IgnoresDamageResistance => "ignores damage resistance"@,
            DamageFlags::ForceSKillOnDeath => "force s_kill on death"@,
            DamageFlags::CauseMagicDeceleration => "cause magic deceleration"@,
        }
    }

    /// The first variant whose name equals `s` up to ASCII case.
    pub open spec fn spec_from_name(s: Seq<char>) -> Option<Self> {
        if eq_ignore_case(s, "does not hurt owner"@) {
            Some(DamageFlags::DoesNotHurtOwner)
        } else if eq_ignore_case(s, "can cause headshots"@) {
            Some(DamageFlags::CanCauseHeadshots)
        } else if eq_ignore_case(s, "pings resistant units"@) {
            Some(DamageFlags::PingsResistantUnits)
        } else if eq_ignore_case(s, "does not hurt friends"@) {
            Some(DamageFlags::DoesNotHurtFriends)
        } else if eq_ignore_case(s, "does not ping units"@) {
            Some(DamageFlags::DoesNotPingUnits)
        } else if eq_ignore_case(s, "detonates explosives"@) {
            Some(DamageFlags::DetonatesExplosives)
        } else if eq_ignore_case(s, "only hurts shields"@) {
            Some(DamageFlags::OnlyHurtsShields)
        } else if eq_ignore_case(s, "causes flaming death"@) {
            Some(DamageFlags::CausesFlamingDeath)
        } else if eq_ignore_case(s, "damage indicators always point down"@) {
            Some(DamageFlags::DamageIndicatorsAlwaysPointDown)
        } else if eq_ignore_case(s, "skips shields"@) {
            Some(DamageFlags::SkipsShields)
        } else if eq_ignore_case(s, "only hurts one infection form"@) {
            Some(DamageFlags::OnlyHurtsOneInfectionForm)
        } else if eq_ignore_case(s, "transfer dmg always uses min"@) {
            Some(DamageFlags::TransferDmgAlwaysUsesMin)
        } else if eq_ignore_case(s, "infection form pop"@) {
            Some(DamageFlags::InfectionFormPop)
        } else if eq_ignore_case(s, "ignore seat scale for dir. dmg"@) {
            Some(DamageFlags::IgnoreSeatScaleForDirDmg)
        } else if eq_ignore_case(s, "forces hard ping if body dmg"@) {
            Some(DamageFlags::ForcesHardPingIfBodyDmg)
        } else if eq_ignore_case(s, "does not hurt players"@) {
            Some(DamageFlags::DoesNotHurtPlayers)
        } else if eq_ignore_case(s, "does not overcombine"@) {
            Some(DamageFlags::DoesNotOvercombine)
        } else if eq_ignore_case(s, "enables special death"@) {
            Some(DamageFlags::EnablesSpecialDeath)
        } else if eq_ignore_case(s, "cannot cause betrayals"@) {
            Some(DamageFlags::CannotCauseBetrayals)
        } else if eq_ignore_case(s, "uses old EMP behavior"@) {
            Some(DamageFlags::UsesOldEmpBehavior)
        } else if eq_ignore_case(s, "ignores damage resistance"@) {
            Some(DamageFlags::IgnoresDamageResistance)
        } else if eq_ignore_case(s, "force s_kill on death"@) {
            Some(DamageFlags::ForceSKillOnDeath)
        } else if eq_ignore_case(s, "cause magic deceleration"@) {
            Some(DamageFlags::CauseMagicDeceleration)
        } else {
            None
        }
    }

    /// No two option names are equal up to ASCII case, so each name
    /// parses back to its own variant.
    pub proof fn lemma_name_roundtrip(e: Self)
        ensures
            Self::spec_from_name(e.spec_name()) == Some(e),
    {
        reveal_strlit("does not hurt owner");
        reveal_strlit("can cause headshots");
        reveal_strlit("pings resistant units");
        reveal_strlit("does not hurt friends");
        reveal_strlit("does not ping units");
        reveal_strlit("detonates explosives");
        reveal_strlit("only hurts shields");
        reveal_strlit("causes flaming death");
        reveal_strlit("damage indicators always point down");
        reveal_strlit("skips shields");
        reveal_strlit("only hurts one infection form");
        reveal_strlit("transfer dmg always uses min");
        reveal_strlit("infection form pop");
        reveal_strlit("ignore seat scale for dir. dmg");
        reveal_strlit("forces hard ping if body dmg");
        reveal_strlit("does not hurt players");
        reveal_strlit("does not overcombine");
        reveal_strlit("enables special death");
        reveal_strlit("cannot cause betrayals");
        reveal_strlit("uses old EMP behavior");
        reveal_strlit("ignores damage resistance");
        reveal_strlit("force s_kill on death");
        reveal_strlit("cause magic deceleration");
        match e {
            DamageFlags::DoesNotHurtOwner => {
                assert(eq_ignore_case("does not hurt owner"@, "does not hurt owner"@));
            },
            DamageFlags::CanCauseHeadshots => {
                assert(ascii_lower("can cause headshots"@[0]) != ascii_lower("does not hurt owner"@[0]));
                assert(eq_ignore_case("can cause headshots"@, "can cause headshots"@));
            },
            DamageFlags::PingsResistantUnits => {
                assert(!eq_ignore_case("pings resistant units"@, "does not hurt owner"@));
                assert(!eq_ignore_case("pings resistant units"@, "can cause headshots"@));
                assert(eq_ignore_case("pings resistant units"@, "pings resistant units"@));
            },
            DamageFlags::DoesNotHurtFriends => {
                assert(!eq_ignore_case("does not hurt friends"@, "does not hurt owner"@));
                assert(!eq_ignore_case("does not hurt friends"@, "can cause headshots"@));
                assert(ascii_lower("does not hurt friends"@[0]) != ascii_lower("pings resistant units"@[0]));
                assert(eq_ignore_case("does not hurt friends"@, "does not hurt friends"@));
            },
            DamageFlags::DoesNotPingUnits => {
                assert(ascii_lower("does not ping units"@[9]) != ascii_lower("does not hurt owner"@[9]));
                assert(ascii_lower("does not ping units"@[0]) != ascii_lower("can cause headshots"@[0]));
                assert(!eq_ignore_case("does not ping units"@, "pings resistant units"@));
                assert(!eq_ignore_case("does not ping units"@, "does not hurt friends"@));
                assert(eq_ignore_case("does not ping units"@, "does not ping units"@));
            },
            DamageFlags::DetonatesExplosives => {
                assert(!eq_ignore_case("detonates explosives"@, "does not hurt owner"@));
                assert(!eq_ignore_case("detonates explosives"@, "can cause headshots"@));
                assert(!eq_ignore_case("detonates explosives"@, "pings resistant units"@));
                assert(!eq_ignore_case("detonates explosives"@, "does not hurt friends"@));
                assert(!eq_ignore_case("detonates explosives"@, "does not ping units"@));
                assert(eq_ignore_case("detonates explosives"@, "detonates explosives"@));
            },
            DamageFlags::OnlyHurtsShields => {
                assert(!eq_ignore_case("only hurts shields"@, "does not hurt owner"@));
                assert(!eq_ignore_case("only hurts shields"@, "can cause headshots"@));
                assert(!eq_ignore_case("only hurts shields"@, "pings resistant units"@));
                assert(!eq_ignore_case("only hurts shields"@, "does not hurt friends"@));
                assert(!eq_ignore_case("only hurts shields"@, "does not ping units"@));
                assert(!eq_ignore_case("only hurts shields"@, "detonates explosives"@));
                assert(eq_ignore_case("only hurts shields"@, "only hurts shields"@));
            },
            DamageFlags::CausesFlamingDeath => {
                assert(!eq_ignore_case("causes flaming death"@, "does not hurt owner"@));
                assert(!eq_ignore_case("causes flaming death"@, "can cause headshots"@));
                assert(!eq_ignore_case("causes flaming death"@, "pings resistant units"@));
                assert(!eq_ignore_case("causes flaming death"@, "does not hurt friends"@));
                assert(!eq_ignore_case("causes flaming death"@, "does not ping units"@));
                assert(ascii_lower("causes flaming death"@[0]) != ascii_lower("detonates explosives"@[0]));
                assert(!eq_ignore_case("causes flaming death"@, "only hurts shields"@));
                assert(eq_ignore_case("causes flaming death"@, "causes flaming death"@));
            },
            DamageFlags::DamageIndicatorsAlwaysPointDown => {
                assert(!eq_ignore_case("damage indicators always point down"@, "does not hurt owner"@));
                assert(!eq_ignore_case("damage indicators always point down"@, "can cause headshots"@));
                assert(!eq_ignore_case("damage indicators always point down"@, "pings resistant units"@));
                assert(!eq_ignore_case("damage indicators always point down"@, "does not hurt friends"@));
                assert(!eq_ignore_case("damage indicators always point down"@, "does not ping units"@));
                assert(!eq_ignore_case("damage indicators always point down"@, "detonates explosives"@));
                assert(!eq_ignore_case("damage indicators always point down"@, "only hurts shields"@));
                assert(!eq_ignore_case("damage indicators always point down"@, "causes flaming death"@));
                assert(eq_ignore_case("damage indicators always point down"@, "damage indicators always point down"@));
            },
            DamageFlags::SkipsShields => {
                assert(!eq_ignore_case("skips shields"@, "does not hurt owner"@));
                assert(!eq_ignore_case("skips shields"@, "can cause headshots"@));
                assert(!eq_ignore_case("skips shields"@, "pings resistant units"@));
                assert(!eq_ignore_case("skips shields"@, "does not hurt friends"@));
                assert(!eq_ignore_case("skips shields"@, "does not ping units"@));
                assert(!eq_ignore_case("skips shields"@, "detonates explosives"@));
                assert(!eq_ignore_case("skips shields"@, "only hurts shields"@));
                assert(!eq_ignore_case("skips shields"@, "causes flaming death"@));
                assert(!eq_ignore_case("skips shields"@, "damage indicators always point down"@));
                assert(eq_ignore_case("skips shields"@, "skips shields"@));
            },
            DamageFlags::OnlyHurtsOneInfectionForm => {
                assert(!eq_ignore_case("only hurts one infection form"@, "does not hurt owner"@));
                assert(!eq_ignore_case("only hurts one infection form"@, "can cause headshots"@));
                assert(!eq_ignore_case("only hurts one infection form"@, "pings resistant units"@));
                assert(!eq_ignore_case("only hurts one infection form"@, "does not hurt friends"@));
                assert(!eq_ignore_case("only hurts one infection form"@, "does not ping units"@));
                assert(!eq_ignore_case("only hurts one infection form"@, "detonates explosives"@));
                assert(!eq_ignore_case("only hurts one infection form"@, "only hurts shields"@));
                assert(!eq_ignore_case("only hurts one infection form"@, "causes flaming death"@));
                assert(!eq_ignore_case("only hurts one infection form"@, "damage indicators always point down"@));
                assert(!eq_ignore_case("only hurts one infection form"@, "skips shields"@));
                assert(eq_ignore_case("only hurts one infection form"@, "only hurts one infection form"@));
            },
            DamageFlags::TransferDmgAlwaysUsesMin => {
                assert(!eq_ignore_case("transfer dmg always uses min"@, "does not hurt owner"@));
                assert(!eq_ignore_case("transfer dmg always uses min"@, "can cause headshots"@));
                assert(!eq_ignore_case("transfer dmg always uses min"@, "pings resistant units"@));
                assert(!eq_ignore_case("transfer dmg always uses min"@, "does not hurt friends"@));
                assert(!eq_ignore_case("transfer dmg always uses min"@, "does not ping units"@));
                assert(!eq_ignore_case("transfer dmg always uses min"@, "detonates explosives"@));
                assert(!eq_ignore_case("transfer dmg always uses min"@, "only hurts shields"@));
                assert(!eq_ignore_case("transfer dmg always uses min"@, "causes flaming death"@));
                assert(!eq_ignore_case("transfer dmg always uses min"@, "damage indicators always point down"@));
                assert(!eq_ignore_case("transfer dmg always uses min"@, "skips shields"@));
                assert(!eq_ignore_case("transfer dmg always uses min"@, "only hurts one infection form"@));
                assert(eq_ignore_case("transfer dmg always uses min"@, "transfer dmg always uses min"@));
            },
            DamageFlags::InfectionFormPop => {
                assert(!eq_ignore_case("infection form pop"@, "does not hurt owner"@));
                assert(!eq_ignore_case("infection form pop"@, "can cause headshots"@));
                assert(!eq_ignore_case("infection form pop"@, "pings resistant units"@));
                assert(!eq_ignore_case("infection form pop"@, "does not hurt friends"@));
                assert(!eq_ignore_case("infection form pop"@, "does not ping units"@));
                assert(!eq_ignore_case("infection form pop"@, "detonates explosives"@));
                assert(ascii_lower("infection form pop"@[0]) != ascii_lower("only hurts shields"@[0]));
                assert(!eq_ignore_case("infection form pop"@, "causes flaming death"@));
                assert(!eq_ignore_case("infection form pop"@, "damage indicators always point down"@));
                assert(!eq_ignore_case("infection form pop"@, "skips shields"@));
                assert(!eq_ignore_case("infection form pop"@, "only hurts one infection form"@));
                assert(!eq_ignore_case("infection form pop"@, "transfer dmg always uses min"@));
                assert(eq_ignore_case("infection form pop"@, "infection form pop"@));
            },
            DamageFlags::IgnoreSeatScaleForDirDmg => {
                assert(!eq_ignore_case("ignore seat scale for dir. dmg"@, "does not hurt owner"@));
                assert(!eq_ignore_case("ignore seat scale for dir. dmg"@, "can cause headshots"@));
                assert(!eq_ignore_case("ignore seat scale for dir. dmg"@, "pings resistant units"@));
                assert(!eq_ignore_case("ignore seat scale for dir. dmg"@, "does not hurt friends"@));
                assert(!eq_ignore_case("ignore seat scale for dir. dmg"@, "does not ping units"@));
                assert(!eq_ignore_case("ignore seat scale for dir. dmg"@, "detonates explosives"@));
                assert(!eq_ignore_case("ignore seat scale for dir. dmg"@, "only hurts shields"@));
                assert(!eq_ignore_case("ignore seat scale for dir. dmg"@, "causes flaming death"@));
                assert(!eq_ignore_case("ignore seat scale for dir. dmg"@, "damage indicators always point down"@));
                assert(!eq_ignore_case("ignore seat scale for dir. dmg"@, "skips shields"@));
                assert(!eq_ignore_case("ignore seat scale for dir. dmg"@, "only hurts one infection form"@));
                assert(!eq_ignore_case("ignore seat scale for dir. dmg"@, "transfer dmg always uses min"@));
                assert(!eq_ignore_case("ignore seat scale for dir. dmg"@, "infection form pop"@));
                assert(eq_ignore_case("ignore seat scale for dir. dmg"@, "ignore seat scale for dir. dmg"@));
            },
            DamageFlags::ForcesHardPingIfBodyDmg => {
                assert(!eq_ignore_case("forces hard ping if body dmg"@, "does not hurt owner"@));
                assert(!eq_ignore_case("forces hard ping if body dmg"@, "can cause headshots"@));
                assert(!eq_ignore_case("forces hard ping if body dmg"@, "pings resistant units"@));
                assert(!eq_ignore_case("forces hard ping if body dmg"@, "does not hurt friends"@));
                assert(!eq_ignore_case("forces hard ping if body dmg"@, "does not ping units"@));
                assert(!eq_ignore_case("forces hard ping if body dmg"@, "detonates explosives"@));
                assert(!eq_ignore_case("forces hard ping if body dmg"@, "only hurts shields"@));
                assert(!eq_ignore_case("forces hard ping if body dmg"@, "causes flaming death"@));
                assert(!eq_ignore_case("forces hard ping if body dmg"@, "damage indicators always point down"@));
                assert(!eq_ignore_case("forces hard ping if body dmg"@, "skips shields"@));
                assert(!eq_ignore_case("forces hard ping if body dmg"@, "only hurts one infection form"@));
                assert(ascii_lower("forces hard ping if body dmg"@[0]) != ascii_lower("transfer dmg always uses min"@[0]));
                assert(!eq_ignore_case("forces hard ping if body dmg"@, "infection form pop"@));
                assert(!eq_ignore_case("forces hard ping if body dmg"@, "ignore seat scale for dir. dmg"@));
                assert(eq_ignore_case("forces hard ping if body dmg"@, "forces hard ping if body dmg"@));
            },
            DamageFlags::DoesNotHurtPlayers => {
                assert(!eq_ignore_case("does not hurt players"@, "does not hurt owner"@));
                assert(!eq_ignore_case("does not hurt players"@, "can cause headshots"@));
                assert(ascii_lower("does not hurt players"@[0]) != ascii_lower("pings resistant units"@[0]));
                assert(ascii_lower("does not hurt players"@[14]) != ascii_lower("does not hurt friends"@[14]));
                assert(!eq_ignore_case("does not hurt players"@, "does not ping units"@));
                assert(!eq_ignore_case("does not hurt players"@, "detonates explosives"@));
                assert(!eq_ignore_case("does not hurt players"@, "only hurts shields"@));
                assert(!eq_ignore_case("does not hurt players"@, "causes flaming death"@));
                assert(!eq_ignore_case("does not hurt players"@, "damage indicators always point down"@));
                assert(!eq_ignore_case("does not hurt players"@, "skips shields"@));
                assert(!eq_ignore_case("does not hurt players"@, "only hurts one infection form"@));
                assert(!eq_ignore_case("does not hurt players"@, "transfer dmg always uses min"@));
                assert(!eq_ignore_case("does not hurt players"@, "infection form pop"@));
                assert(!eq_ignore_case("does not hurt players"@, "ignore seat scale for dir. dmg"@));
                assert(!eq_ignore_case("does not hurt players"@, "forces hard ping if body dmg"@));
                assert(eq_ignore_case("does not hurt players"@, "does not hurt players"@));
            },
            DamageFlags::DoesNotOvercombine => {
                assert(!eq_ignore_case("does not overcombine"@, "does not hurt owner"@));
                assert(!eq_ignore_case("does not overcombine"@, "can cause headshots"@));
                assert(!eq_ignore_case("does not overcombine"@, "pings resistant units"@));
                assert(!eq_ignore_case("does not overcombine"@, "does not hurt friends"@));
                assert(!eq_ignore_case("does not overcombine"@, "does not ping units"@));
                assert(ascii_lower("does not overcombine"@[1]) != ascii_lower("detonates explosives"@[1]));
                assert(!eq_ignore_case("does not overcombine"@, "only hurts shields"@));
                assert(ascii_lower("does not overcombine"@[0]) != ascii_lower("causes flaming death"@[0]));
                assert(!eq_ignore_case("does not overcombine"@, "damage indicators always point down"@));
                assert(!eq_ignore_case("does not overcombine"@, "skips shields"@));
                assert(!eq_ignore_case("does not overcombine"@, "only hurts one infection form"@));
                assert(!eq_ignore_case("does not overcombine"@, "transfer dmg always uses min"@));
                assert(!eq_ignore_case("does not overcombine"@, "infection form pop"@));
                assert(!eq_ignore_case("does not overcombine"@, "ignore seat scale for dir. dmg"@));
                assert(!eq_ignore_case("does not overcombine"@, "forces hard ping if body dmg"@));
                assert(!eq_ignore_case("does not overcombine"@, "does not hurt players"@));
                assert(eq_ignore_case("does not overcombine"@, "does not overcombine"@));
            },
            DamageFlags::EnablesSpecialDeath => {
                assert(!eq_ignore_case("enables special death"@, "does not hurt owner"@));
                assert(!eq_ignore_case("enables special death"@, "can cause headshots"@));
                assert(ascii_lower("enables special death"@[0]) != ascii_lower("pings resistant units"@[0]));
                assert(ascii_lower("enables special death"@[0]) != ascii_lower("does not hurt friends"@[0]));
                assert(!eq_ignore_case("enables special death"@, "does not ping units"@));
                assert(!eq_ignore_case("enables special death"@, "detonates explosives"@));
                assert(!eq_ignore_case("enables special death"@, "only hurts shields"@));
                assert(!eq_ignore_case("enables special death"@, "causes flaming death"@));
                assert(!eq_ignore_case("enables special death"@, "damage indicators always point down"@));
                assert(!eq_ignore_case("enables special death"@, "skips shields"@));
                assert(!eq_ignore_case("enables special death"@, "only hurts one infection form"@));
                assert(!eq_ignore_case("enables special death"@, "transfer dmg always uses min"@));
                assert(!eq_ignore_case("enables special death"@, "infection form pop"@));
                assert(!eq_ignore_case("enables special death"@, "ignore seat scale for dir. dmg"@));
                assert(!eq_ignore_case("enables special death"@, "forces hard ping if body dmg"@));
                assert(ascii_lower("enables special death"@[0]) != ascii_lower("does not hurt players"@[0]));
                assert(!eq_ignore_case("enables special death"@, "does not overcombine"@));
                assert(eq_ignore_case("enables special death"@, "enables special death"@));
            },
            DamageFlags::CannotCauseBetrayals => {
                assert(!eq_ignore_case("cannot cause betrayals"@, "does not hurt owner"@));
                assert(!eq_ignore_case("cannot cause betrayals"@, "can cause headshots"@));
                assert(!eq_ignore_case("cannot cause betrayals"@, "pings resistant units"@));
                assert(!eq_ignore_case("cannot cause betrayals"@, "does not hurt friends"@));
                assert(!eq_ignore_case("cannot cause betrayals"@, "does not ping units"@));
                assert(!eq_ignore_case("cannot cause betrayals"@, "detonates explosives"@));
                assert(!eq_ignore_case("cannot cause betrayals"@, "only hurts shields"@));
                assert(!eq_ignore_case("cannot cause betrayals"@, "causes flaming death"@));
                assert(!eq_ignore_case("cannot cause betrayals"@, "damage indicators always point down"@));
                assert(!eq_ignore_case("cannot cause betrayals"@, "skips shields"@));
                assert(!eq_ignore_case("cannot cause betrayals"@, "only hurts one infection form"@));
                assert(!eq_ignore_case("cannot cause betrayals"@, "transfer dmg always uses min"@));
                assert(!eq_ignore_case("cannot cause betrayals"@, "infection form pop"@));
                assert(!eq_ignore_case("cannot cause betrayals"@, "ignore seat scale for dir. dmg"@));
                assert(!eq_ignore_case("cannot cause betrayals"@, "forces hard ping if body dmg"@));
                assert(!eq_ignore_case("cannot cause betrayals"@, "does not hurt players"@));
                assert(!eq_ignore_case("cannot cause betrayals"@, "does not overcombine"@));
                assert(!eq_ignore_case("cannot cause betrayals"@, "enables special death"@));
                assert(eq_ignore_case("cannot cause betrayals"@, "cannot cause betrayals"@));
            },
            DamageFlags::UsesOldEmpBehavior => {
                assert(!eq_ignore_case("uses old EMP behavior"@, "does not hurt owner"@));
                assert(!eq_ignore_case("uses old EMP behavior"@, "can cause headshots"@));
                assert(ascii_lower("uses old EMP behavior"@[0]) != ascii_lower("pings resistant units"@[0]));
                assert(ascii_lower("uses old EMP behavior"@[0]) != ascii_lower("does not hurt friends"@[0]));
                assert(!eq_ignore_case("uses old EMP behavior"@, "does not ping units"@));
                assert(!eq_ignore_case("uses old EMP behavior"@, "detonates explosives"@));
                assert(!eq_ignore_case("uses old EMP behavior"@, "only hurts shields"@));
                assert(!eq_ignore_case("uses old EMP behavior"@, "causes flaming death"@));
                assert(!eq_ignore_case("uses old EMP behavior"@, "damage indicators always point down"@));
                assert(!eq_ignore_case("uses old EMP behavior"@, "skips shields"@));
                assert(!eq_ignore_case("uses old EMP behavior"@, "only hurts one infection form"@));
                assert(!eq_ignore_case("uses old EMP behavior"@, "transfer dmg always uses min"@));
                assert(!eq_ignore_case("uses old EMP behavior"@, "infection form pop"@));
                assert(!eq_ignore_case("uses old EMP behavior"@, "ignore seat scale for dir. dmg"@));
                assert(!eq_ignore_case("uses old EMP behavior"@, "forces hard ping if body dmg"@));
                assert(ascii_lower("uses old EMP behavior"@[0]) != ascii_lower("does not hurt players"@[0]));
                assert(!eq_ignore_case("uses old EMP behavior"@, "does not overcombine"@));
                assert(ascii_lower("uses old EMP behavior"@[0]) != ascii_lower("enables special death"@[0]));
                assert(!eq_ignore_case("uses old EMP behavior"@, "cannot cause betrayals"@));
                assert(eq_ignore_case("uses old EMP behavior"@, "uses old EMP behavior"@));
            },
            DamageFlags::IgnoresDamageResistance => {
                assert(!eq_ignore_case("ignores damage resistance"@, "does not hurt owner"@));
                assert(!eq_ignore_case("ignores damage resistance"@, "can cause headshots"@));
                assert(!eq_ignore_case("ignores damage resistance"@, "pings resistant units"@));
                assert(!eq_ignore_case("ignores damage resistance"@, "does not hurt friends"@));
                assert(!eq_ignore_case("ignores damage resistance"@, "does not ping units"@));
                assert(!eq_ignore_case("ignores damage resistance"@, "detonates explosives"@));
                assert(!eq_ignore_case("ignores damage resistance"@, "only hurts shields"@));
                assert(!eq_ignore_case("ignores damage resistance"@, "causes flaming death"@));
                assert(!eq_ignore_case("ignores damage resistance"@, "damage indicators always point down"@));
                assert(!eq_ignore_case("ignores damage resistance"@, "skips shields"@));
                assert(!eq_ignore_case("ignores damage resistance"@, "only hurts one infection form"@));
                assert(!eq_ignore_case("ignores damage resistance"@, "transfer dmg always uses min"@));
                assert(!eq_ignore_case("ignores damage resistance"@, "infection form pop"@));
                assert(!eq_ignore_case("ignores damage resistance"@, "ignore seat scale for dir. dmg"@));
                assert(!eq_ignore_case("ignores damage resistance"@, "forces hard ping if body dmg"@));
                assert(!eq_ignore_case("ignores damage resistance"@, "does not hurt players"@));
                assert(!eq_ignore_case("ignores damage resistance"@, "does not overcombine"@));
                assert(!eq_ignore_case("ignores damage resistance"@, "enables special death"@));
                assert(!eq_ignore_case("ignores damage resistance"@, "cannot cause betrayals"@));
                assert(!eq_ignore_case("ignores damage resistance"@, "uses old EMP behavior"@));
                assert(eq_ignore_case("ignores damage resistance"@, "ignores damage resistance"@));
            },
            DamageFlags::ForceSKillOnDeath => {
                assert(!eq_ignore_case("force s_kill on death"@, "does not hurt owner"@));
                assert(!eq_ignore_case("force s_kill on death"@, "can cause headshots"@));
                assert(ascii_lower("force s_kill on death"@[0]) != ascii_lower("pings resistant units"@[0]));
                assert(ascii_lower("force s_kill on death"@[0]) != ascii_lower("does not hurt friends"@[0]));
                assert(!eq_ignore_case("force s_kill on death"@, "does not ping units"@));
                assert(!eq_ignore_case("force s_kill on death"@, "detonates explosives"@));
                assert(!eq_ignore_case("force s_kill on death"@, "only hurts shields"@));
                assert(!eq_ignore_case("force s_kill on death"@, "causes flaming death"@));
                assert(!eq_ignore_case("force s_kill on death"@, "damage indicators always point down"@));
                assert(!eq_ignore_case("force s_kill on death"@, "skips shields"@));
                assert(!eq_ignore_case("force s_kill on death"@, "only hurts one infection form"@));
                assert(!eq_ignore_case("force s_kill on death"@, "transfer dmg always uses min"@));
                assert(!eq_ignore_case("force s_kill on death"@, "infection form pop"@));
                assert(!eq_ignore_case("force s_kill on death"@, "ignore seat scale for dir. dmg"@));
                assert(!eq_ignore_case("force s_kill on death"@, "forces hard ping if body dmg"@));
                assert(ascii_lower("force s_kill on death"@[0]) != ascii_lower("does not hurt players"@[0]));
                assert(!eq_ignore_case("force s_kill on death"@, "does not overcombine"@));
                assert(ascii_lower("force s_kill on death"@[0]) != ascii_lower("enables special death"@[0]));
                assert(!eq_ignore_case("force s_kill on death"@, "cannot cause betrayals"@));
                assert(ascii_lower("force s_kill on death"@[0]) != ascii_lower("uses old EMP behavior"@[0]));
                assert(!eq_ignore_case("force s_kill on death"@, "ignores damage resistance"@));
                assert(eq_ignore_case("force s_kill on death"@, "force s_kill on death"@));
            },
            DamageFlags::CauseMagicDeceleration => {
                assert(!eq_ignore_case("cause magic deceleration"@, "does not hurt owner"@));
                assert(!eq_ignore_case("cause magic deceleration"@, "can cause headshots"@));
                assert(!eq_ignore_case("cause magic deceleration"@, "pings resistant units"@));
                assert(!eq_ignore_case("cause magic deceleration"@, "does not hurt friends"@));
                assert(!eq_ignore_case("cause magic deceleration"@, "does not ping units"@));
                assert(!eq_ignore_case("cause magic deceleration"@, "detonates explosives"@));
                assert(!eq_ignore_case("cause magic deceleration"@, "only hurts shields"@));
                assert(!eq_ignore_case("cause magic deceleration"@, "causes flaming death"@));
                assert(!eq_ignore_case("cause magic deceleration"@, "damage indicators always point down"@));
                assert(!eq_ignore_case("cause magic deceleration"@, "skips shields"@));
                assert(!eq_ignore_case("cause magic deceleration"@, "only hurts one infection form"@));
                assert(!eq_ignore_case("cause magic deceleration"@, "transfer dmg always uses min"@));
                assert(!eq_ignore_case("cause magic deceleration"@, "infection form pop"@));
                assert(!eq_ignore_case("cause magic deceleration"@, "ignore seat scale for dir. dmg"@));
                assert(!eq_ignore_case("cause magic deceleration"@, "forces hard ping if body dmg"@));
                assert(!eq_ignore_case("cause magic deceleration"@, "does not hurt players"@));
                assert(!eq_ignore_case("cause magic deceleration"@, "does not overcombine"@));
                assert(!eq_ignore_case("cause magic deceleration"@, "enables special death"@));
                assert(!eq_ignore_case("cause magic deceleration"@, "cannot cause betrayals"@));
                assert(!eq_ignore_case("cause magic deceleration"@, "uses old EMP behavior"@));
                assert(!eq_ignore_case("cause magic deceleration"@, "ignores damage resistance"@));
                assert(!eq_ignore_case("cause magic deceleration"@, "force s_kill on death"@));
                assert(eq_ignore_case("cause magic deceleration"@, "cause magic deceleration"@));
            },
        }
    }

    /// The value the tag stores for this variant.
    pub fn value(self) -> (r: u32)
        ensures
            r == self.spec_value(),
            Self::spec_from_value(r as int) == Some(self),
    {
        match self {
            DamageFlags::DoesNotHurtOwner => 0,
            DamageFlags::CanCauseHeadshots => 1,
            DamageFlags::PingsResistantUnits => 2,
            DamageFlags::DoesNotHurtFriends => 3,
            DamageFlags::DoesNotPingUnits => 4,
            DamageFlags::DetonatesExplosives => 5,
            DamageFlags::OnlyHurtsShields => 6,
            DamageFlags::CausesFlamingDeath => 7,
            DamageFlags::DamageIndicatorsAlwaysPointDown => 8,
            DamageFlags::SkipsShields => 9,
            DamageFlags::OnlyHurtsOneInfectionForm => 10,
            DamageFlags::TransferDmgAlwaysUsesMin => 11,
            DamageFlags::InfectionFormPop => 12,
            DamageFlags::IgnoreSeatScaleForDirDmg => 13,
            DamageFlags::ForcesHardPingIfBodyDmg => 14,
            DamageFlags::DoesNotHurtPlayers => 15,
            DamageFlags::DoesNotOvercombine => 16,
            DamageFlags::EnablesSpecialDeath => 17,
            DamageFlags::CannotCauseBetrayals => 18,
            DamageFlags::UsesOldEmpBehavior => 19,
            DamageFlags::IgnoresDamageResistance => 20,
            DamageFlags::ForceSKillOnDeath => 21,
            DamageFlags::CauseMagicDeceleration => 22,
        }
    }

    /// The variant stored as `v`; `None` for a value no variant has.
    pub fn from_i64(v: i64) -> (r: Option<Self>)
        ensures
            r == Self::spec_from_value(v as int),
            r matches Some(e) ==> e.spec_value() == v,
    {
        match v {
            0 => Some(DamageFlags::DoesNotHurtOwner),
            1 => Some(DamageFlags::CanCauseHeadshots),
            2 => Some(DamageFlags::PingsResistantUnits),
            3 => Some(DamageFlags::DoesNotHurtFriends),
            4 => Some(DamageFlags::DoesNotPingUnits),
            5 => Some(DamageFlags::DetonatesExplosives),
            6 => Some(DamageFlags::OnlyHurtsShields),
            7 => Some(DamageFlags::CausesFlamingDeath),
            8 => Some(DamageFlags::DamageIndicatorsAlwaysPointDown),
            9 => Some(DamageFlags::SkipsShields),
            10 => Some(DamageFlags::OnlyHurtsOneInfectionForm),
            11 => Some(DamageFlags::TransferDmgAlwaysUsesMin),
            12 => Some(DamageFlags::InfectionFormPop),
            13 => Some(DamageFlags::IgnoreSeatScaleForDirDmg),
            14 => Some(DamageFlags::ForcesHardPingIfBodyDmg),
            15 => Some(DamageFlags::DoesNotHurtPlayers),
            16 => Some(DamageFlags::DoesNotOvercombine),
            17 => Some(DamageFlags::EnablesSpecialDeath),
            18 => Some(DamageFlags::CannotCauseBetrayals),
            19 => Some(DamageFlags::UsesOldEmpBehavior),
            20 => Some(DamageFlags::IgnoresDamageResistance),
            21 => Some(DamageFlags::ForceSKillOnDeath),
            22 => Some(DamageFlags::CauseMagicDeceleration),
            _ => None,
        }
    }

    /// The option name of this variant.
    pub fn name(self) -> (r: &'static str)
        ensures
            r@ == self.spec_name(),
            Self::spec_from_name(r@) == Some(self),
    {
        proof {
            Self::lemma_name_roundtrip(self);
        }
        match self {
            DamageFlags::DoesNotHurtOwner => "does not hurt owner",
            DamageFlags::CanCauseHeadshots => "can cause headshots",
            DamageFlags::PingsResistantUnits => "pings resistant units",
            DamageFlags::DoesNotHurtFriends => "does not hurt friends",
            DamageFlags::DoesNotPingUnits => "does not ping units",
            DamageFlags::DetonatesExplosives => "detonates explosives",
            DamageFlags::OnlyHurtsShields => "only hurts shields",
            DamageFlags::CausesFlamingDeath => "causes flaming death",
            DamageFlags::DamageIndicatorsAlwaysPointDown => "damage indicators always point down",
            DamageFlags::SkipsShields => "skips shields",
            DamageFlags::OnlyHurtsOneInfectionForm => "only hurts one infection form",
            DamageFlags::TransferDmgAlwaysUsesMin => "transfer dmg always uses min",
            DamageFlags::InfectionFormPop => "infection form pop",
            DamageFlags::IgnoreSeatScaleForDirDmg => "ignore seat scale for dir. dmg",
            DamageFlags::ForcesHardPingIfBodyDmg => "forces hard ping if body dmg",
            DamageFlags::DoesNotHurtPlayers => "does not hurt players",
            DamageFlags::DoesNotOvercombine => "does not overcombine",
            DamageFlags::EnablesSpecialDeath => "enables special death",
            DamageFlags::CannotCauseBetrayals => "cannot cause betrayals",
            DamageFlags::UsesOldEmpBehavior => "uses old EMP behavior",
            DamageFlags::IgnoresDamageResistance => "ignores damage resistance",
            DamageFlags::ForceSKillOnDeath => "force s_kill on death",
            DamageFlags::CauseMagicDeceleration => "cause magic deceleration",
        }
    }

    /// The variant named `s`, compared up to ASCII case; `None` when no
    /// option has that name.
    pub fn from_name(s: &str) -> (r: Option<Self>)
        ensures
            r == Self::spec_from_name(s@),
    {
        if eq_ignore_ascii_case(s, "does not hurt owner") {
            return Some(DamageFlags::DoesNotHurtOwner);
        }
        if eq_ignore_ascii_case(s, "can cause headshots") {
            return Some(DamageFlags::CanCauseHeadshots);
        }
        if eq_ignore_ascii_case(s, "pings resistant units") {
            return Some(DamageFlags::PingsResistantUnits);
        }
        if eq_ignore_ascii_case(s, "does not hurt friends") {
            return Some(DamageFlags::DoesNotHurtFriends);
        }
        if eq_ignore_ascii_case(s, "does not ping units") {
            return Some(DamageFlags::DoesNotPingUnits);
        }
        if eq_ignore_ascii_case(s, "detonates explosives") {
            return Some(DamageFlags::DetonatesExplosives);
        }
        if eq_ignore_ascii_case(s, "only hurts shields") {
            return Some(DamageFlags::OnlyHurtsShields);
        }
        if eq_ignore_ascii_case(s, "causes flaming death") {
            return Some(DamageFlags::CausesFlamingDeath);
        }
        if eq_ignore_ascii_case(s, "damage indicators always point down") {
            return Some(DamageFlags::DamageIndicatorsAlwaysPointDown);
        }
        if eq_ignore_ascii_case(s, "skips shields") {
            return Some(DamageFlags::SkipsShields);
        }
        if eq_ignore_ascii_case(s, "only hurts one infection form") {
            return Some(DamageFlags::OnlyHurtsOneInfectionForm);
        }
        if eq_ignore_ascii_case(s, "transfer dmg always uses min") {
            return Some(DamageFlags::TransferDmgAlwaysUsesMin);
        }
        if eq_ignore_ascii_case(s, "infection form pop") {
            return Some(DamageFlags::InfectionFormPop);
        }
        if eq_ignore_ascii_case(s, "ignore seat scale for dir. dmg") {
            return Some(DamageFlags::IgnoreSeatScaleForDirDmg);
        }
        if eq_ignore_ascii_case(s, "forces hard ping if body dmg") {
            return Some(DamageFlags::ForcesHardPingIfBodyDmg);
        }
        if eq_ignore_ascii_case(s, "does not hurt players") {
            return Some(DamageFlags::DoesNotHurtPlayers);
        }
        if eq_ignore_ascii_case(s, "does not overcombine") {
            return Some(DamageFlags::DoesNotOvercombine);
        }
        if eq_ignore_ascii_case(s, "enables special death") {
            return Some(DamageFlags::EnablesSpecialDeath);
        }
        if eq_ignore_ascii_case(s, "cannot cause betrayals") {
            return Some(DamageFlags::CannotCauseBetrayals);
        }
        if eq_ignore_ascii_case(s, "uses old EMP behavior") {
            return Some(DamageFlags::UsesOldEmpBehavior);
        }
        if eq_ignore_ascii_case(s, "ignores damage resistance") {
            return Some(DamageFlags::IgnoresDamageResistance);
        }
        if eq_ignore_ascii_case(s, "force s_kill on death") {
            return Some(DamageFlags::ForceSKillOnDeath);
        }
        if eq_ignore_ascii_case(s, "cause magic deceleration") {
            return Some(DamageFlags::CauseMagicDeceleration);
        }
        None
    }

    /// Every variant, in order of its stored value.
    pub fn variants() -> (r: Vec<Self>)
        ensures
            r@ == Self::spec_variants(),
            forall|k: int| 0 <= k < r@.len() ==> (#[trigger] r@[k]).spec_value() == k,
    {
        vec![DamageFlags::DoesNotHurtOwner, DamageFlags::CanCauseHeadshots, DamageFlags::PingsResistantUnits, DamageFlags::DoesNotHurtFriends, DamageFlags::DoesNotPingUnits, DamageFlags::DetonatesExplosives, DamageFlags::OnlyHurtsShields, DamageFlags::CausesFlamingDeath, DamageFlags::DamageIndicatorsAlwaysPointDown, DamageFlags::SkipsShields, DamageFlags::OnlyHurtsOneInfectionForm, DamageFlags::TransferDmgAlwaysUsesMin, DamageFlags::InfectionFormPop, DamageFlags::IgnoreSeatScaleForDirDmg, DamageFlags::ForcesHardPingIfBodyDmg, DamageFlags::DoesNotHurtPlayers, DamageFlags::DoesNotOvercombine, DamageFlags::EnablesSpecialDeath, DamageFlags::CannotCauseBetrayals, DamageFlags::UsesOldEmpBehavior, DamageFlags::IgnoresDamageResistance, DamageFlags::ForceSKillOnDeath, DamageFlags::CauseMagicDeceleration]
    }
}

/// `global_reverse_transition_functions_enum` (short_enum). Owned here;
/// imported by `lens_flare`.
#[derive(Clone, Copy, PartialEq, Eq, Debug, Structural)]
pub enum GlobalReverseTransitionFunction {
    Linear,
    Late,
    VeryLate,
    Early,
    VeryEarly,
    Cosine,
    Zero,
    One,
}

impl Default for GlobalReverseTransitionFunction {
    fn default() -> (r: Self)
        ensures
            r == GlobalReverseTransitionFunction::Linear,
    {
        GlobalReverseTransitionFunction::Linear
    }
}

impl GlobalReverseTransitionFunction {
    /// Every variant, in order of its stored value.
    pub open spec fn spec_variants() -> Seq<Self> {
        seq![GlobalReverseTransitionFunction::Linear, GlobalReverseTransitionFunction::Late, GlobalReverseTransitionFunction::VeryLate, GlobalReverseTransitionFunction::Early, GlobalReverseTransitionFunction::VeryEarly, GlobalReverseTransitionFunction::Cosine, GlobalReverseTransitionFunction::Zero, GlobalReverseTransitionFunction::One]
    }

    /// The value the tag stores for this variant.
    pub open spec fn spec_value(self) -> int {
        match self {
            GlobalReverseTransitionFunction::Linear => 0,
            GlobalReverseTransitionFunction::Late => 1,
            GlobalReverseTransitionFunction::VeryLate => 2,
            GlobalReverseTransitionFunction::Early => 3,
            GlobalReverseTransitionFunction::VeryEarly => 4,
            GlobalReverseTransitionFunction::Cosine => 5,
            GlobalReverseTransitionFunction::Zero => 6,
            GlobalReverseTransitionFunction::One => 7,
        }
    }

    /// The variant stored as `v`.
    pub open spec fn spec_from_value(v: int) -> Option<Self> {
        if 0 <= v < 8 {
            Some(Self::spec_variants()[v])
        } else {
            None
        }
    }

    /// The option name of this variant.
    pub open spec fn spec_name(self) -> Seq<char> {
        match self {
            GlobalReverseTransitionFunction::Linear => "linear"@,
            GlobalReverseTransitionFunction::Late => "late"@,
            GlobalReverseTransitionFunction::VeryLate => "very late"@,
            GlobalReverseTransitionFunction::Early => "early"@,
            GlobalReverseTransitionFunction::VeryEarly => "very early"@,
            GlobalReverseTransitionFunction::Cosine => "cosine"@,
            GlobalReverseTransitionFunction::Zero => "zero"@,
            GlobalReverseTransitionFunction::One => "one"@,
        }
    }

    /// The first variant whose name equals `s` up to ASCII case.
    pub open spec fn spec_from_name(s: Seq<char>) -> Option<Self> {
        if eq_ignore_case(s, "linear"@) {
            Some(GlobalReverseTransitionFunction::Linear)
        } else if eq_ignore_case(s, "late"@) {
            Some(GlobalReverseTransitionFunction::Late)
        } else if eq_ignore_case(s, "very late"@) {
            Some(GlobalReverseTransitionFunction::VeryLate)
        } else if eq_ignore_case(s, "early"@) {
            Some(GlobalReverseTransitionFunction::Early)
        } else if eq_ignore_case(s, "very early"@) {
            Some(GlobalReverseTransitionFunction::VeryEarly)
        } else if eq_ignore_case(s, "cosine"@) {
            Some(GlobalReverseTransitionFunction::Cosine)
        } else if eq_ignore_case(s, "zero"@) {
            Some(GlobalReverseTransitionFunction::Zero)
        } else if eq_ignore_case(s, "one"@) {
            Some(GlobalReverseTransitionFunction::One)
        } else {
            None
        }
    }

    /// No two option names are equal up to ASCII case, so each name
    /// parses back to its own variant.
    pub proof fn lemma_name_roundtrip(e: Self)
        ensures
            Self::spec_from_name(e.spec_name()) == Some(e),
    {
        reveal_strlit("linear");
        reveal_strlit("late");
        reveal_strlit("very late");
        reveal_strlit("early");
        reveal_strlit("very early");
        reveal_strlit("cosine");
        reveal_strlit("zero");
        reveal_strlit("one");
        match e {
            GlobalReverseTransitionFunction::Linear => {
                assert(eq_ignore_case("linear"@, "linear"@));
            },
            GlobalReverseTransitionFunction::Late => {
                assert(!eq_ignore_case("late"@, "linear"@));
                assert(eq_ignore_case("late"@, "late"@));
            },
            GlobalReverseTransitionFunction::VeryLate => {
                assert(!eq_ignore_case("very late"@, "linear"@));
                assert(!eq_ignore_case("very late"@, "late"@));
                assert(eq_ignore_case("very late"@, "very late"@));
            },
            GlobalReverseTransitionFunction::Early => {
                assert(!eq_ignore_case("early"@, "linear"@));
                assert(!eq_ignore_case("early"@, "late"@));
                assert(!eq_ignore_case("early"@, "very late"@));
                assert(eq_ignore_case("early"@, "early"@));
            },
            GlobalReverseTransitionFunction::VeryEarly => {
                assert(!eq_ignore_case("very early"@, "linear"@));
                assert(!eq_ignore_case("very early"@, "late"@));
                assert(!eq_ignore_case("very early"@, "very late"@));
                assert(!eq_ignore_case("very early"@, "early"@));
                assert(eq_ignore_case("very early"@, "very early"@));
            },
            GlobalReverseTransitionFunction::Cosine => {
                assert(ascii_lower("cosine"@[0]) != ascii_lower("linear"@[0]));
                assert(!eq_ignore_case("cosine"@, "late"@));
                assert(!eq_ignore_case("cosine"@, "very late"@));
                assert(!eq_ignore_case("cosine"@, "early"@));
                assert(!eq_ignore_case("cosine"@, "very early"@));
                assert(eq_ignore_case("cosine"@, "cosine"@));
            },
            GlobalReverseTransitionFunction::Zero => {
                assert(!eq_ignore_case("zero"@, "linear"@));
                assert(ascii_lower("zero"@[0]) != ascii_lower("late"@[0]));
                assert(!eq_ignore_case("zero"@, "very late"@));
                assert(!eq_ignore_case("zero"@, "early"@));
                assert(!eq_ignore_case("zero"@, "very early"@));
                assert(!eq_ignore_case("zero"@, "cosine"@));
                assert(eq_ignore_case("zero"@, "zero"@));
            },
            GlobalReverseTransitionFunction::One => {
                assert(!eq_ignore_case("one"@, "linear"@));
                assert(!eq_ignore_case("one"@, "late"@));
                assert(!eq_ignore_case("one"@, "very late"@));
                assert(!eq_ignore_case("one"@, "early"@));
                assert(!eq_ignore_case("one"@, "very early"@));
                assert(!eq_ignore_case("one"@, "cosine"@));
                assert(!eq_ignore_case("one"@, "zero"@));
                assert(eq_ignore_case("one"@, "one"@));
            },
        }
    }

    /// The value the tag stores for this variant.
    pub fn value(self) -> (r: i16)
        ensures
            r == self.spec_value(),
            Self::spec_from_value(r as int) == Some(self),
    {
        match self {
            GlobalReverseTransitionFunction::Linear => 0,
            GlobalReverseTransitionFunction::Late => 1,
            GlobalReverseTransitionFunction::VeryLate => 2,
            GlobalReverseTransitionFunction::Early => 3,
            GlobalReverseTransitionFunction::VeryEarly => 4,
            GlobalReverseTransitionFunction::Cosine => 5,
            GlobalReverseTransitionFunction::Zero => 6,
            GlobalReverseTransitionFunction::One => 7,
        }
    }

    /// The variant stored as `v`; `None` for a value no variant has.
    pub fn from_i64(v: i64) -> (r: Option<Self>)
        ensures
            r == Self::spec_from_value(v as int),
            r matches Some(e) ==> e.spec_value() == v,
    {
        match v {
            0 => Some(GlobalReverseTransitionFunction::Linear),
            1 => Some(GlobalReverseTransitionFunction::Late),
            2 => Some(GlobalReverseTransitionFunction::VeryLate),
            3 => Some(GlobalReverseTransitionFunction::Early),
            4 => Some(GlobalReverseTransitionFunction::VeryEarly),
            5 => Some(GlobalReverseTransitionFunction::Cosine),
            6 => Some(GlobalReverseTransitionFunction::Zero),
            7 => Some(GlobalReverseTransitionFunction::One),
            _ => None,
        }
    }

    /// The option name of this variant.
    pub fn name(self) -> (r: &'static str)
        ensures
            r@ == self.spec_name(),
            Self::spec_from_name(r@) == Some(self),
    {
        proof {
            Self::lemma_name_roundtrip(self);
        }
        match self {
            GlobalReverseTransitionFunction::Linear => "linear",
            GlobalReverseTransitionFunction::Late => "late",
            GlobalReverseTransitionFunction::VeryLate => "very late",
            GlobalReverseTransitionFunction::Early => "early",
            GlobalReverseTransitionFunction::VeryEarly => "very early",
            GlobalReverseTransitionFunction::Cosine => "cosine",
            GlobalReverseTransitionFunction::Zero => "zero",
            GlobalReverseTransitionFunction::One => "one",
        }
    }

    /// The variant named `s`, compared up to ASCII case; `None` when no
    /// option has that name.
    pub fn from_name(s: &str) -> (r: Option<Self>)
        ensures
            r == Self::spec_from_name(s@),
    {
        if eq_ignore_ascii_case(s, "linear") {
            return Some(GlobalReverseTransitionFunction::Linear);
        }
        if eq_ignore_ascii_case(s, "late") {
            return Some(GlobalReverseTransitionFunction::Late);
        }
        if eq_ignore_ascii_case(s, "very late") {
            return Some(GlobalReverseTransitionFunction::VeryLate);
        }
        if eq_ignore_ascii_case(s, "early") {
            return Some(GlobalReverseTransitionFunction::Early);
        }
        if eq_ignore_ascii_case(s, "very early") {
            return Some(GlobalReverseTransitionFunction::VeryEarly);
        }
        if eq_ignore_ascii_case(s, "cosine") {
            return Some(GlobalReverseTransitionFunction::Cosine);
        }
        if eq_ignore_ascii_case(s, "zero") {
            return Some(GlobalReverseTransitionFunction::Zero);
        }
        if eq_ignore_ascii_case(s, "one") {
            return Some(GlobalReverseTransitionFunction::One);
        }
        None
    }

    /// Every variant, in order of its stored value.
    pub fn variants() -> (r: Vec<Self>)
        ensures
            r@ == Self::spec_variants(),
            forall|k: int| 0 <= k < r@.len() ==> (#[trigger] r@[k]).spec_value() == k,
    {
        vec![GlobalReverseTransitionFunction::Linear, GlobalReverseTransitionFunction::Late, GlobalReverseTransitionFunction::VeryLate, GlobalReverseTransitionFunction::Early, GlobalReverseTransitionFunction::VeryEarly, GlobalReverseTransitionFunction::Cosine, GlobalReverseTransitionFunction::Zero, GlobalReverseTransitionFunction::One]
    }
}

/// `global_periodic_functions_enum` (short_enum).
#[derive(Clone, Copy, PartialEq, Eq, Debug, Structural)]
pub enum GlobalPeriodicFunction {
    One,
    Zero,
    Cosine,
    CosineVariablePeriod,
    DiagonalWave,
    DiagonalWaveVariablePeriod,
    Slide,
    SlideVariablePeriod,
    Noise,
    Jitter,
    Wander,
    Spark,
}

impl Default for GlobalPeriodicFunction {
    fn default() -> (r: Self)
        ensures
            r == GlobalPeriodicFunction::One,
    {
        GlobalPeriodicFunction::One
    }
}

impl GlobalPeriodicFunction {
    /// Every variant, in order of its stored value.
    pub open spec fn spec_variants() -> Seq<Self> {
        seq![GlobalPeriodicFunction::One, GlobalPeriodicFunction::Zero, GlobalPeriodicFunction::Cosine, GlobalPeriodicFunction::CosineVariablePeriod, GlobalPeriodicFunction::DiagonalWave, GlobalPeriodicFunction::DiagonalWaveVariablePeriod, GlobalPeriodicFunction::Slide, GlobalPeriodicFunction::SlideVariablePeriod, GlobalPeriodicFunction::Noise, GlobalPeriodicFunction::Jitter, GlobalPeriodicFunction::Wander, GlobalPeriodicFunction::Spark]
    }

    /// The value the tag stores for this variant.
    pub open spec fn spec_value(self) -> int {
        match self {
            GlobalPeriodicFunction::One => 0,
            GlobalPeriodicFunction::Zero => 1,
            GlobalPeriodicFunction::Cosine => 2,
            GlobalPeriodicFunction::CosineVariablePeriod => 3,
            GlobalPeriodicFunction::DiagonalWave => 4,
            GlobalPeriodicFunction::DiagonalWaveVariablePeriod => 5,
            GlobalPeriodicFunction::Slide => 6,
            GlobalPeriodicFunction::SlideVariablePeriod => 7,
            GlobalPeriodicFunction::Noise => 8,
            GlobalPeriodicFunction::Jitter => 9,
            GlobalPeriodicFunction::Wander => 10,
            GlobalPeriodicFunction::Spark => 11,
        }
    }

    /// The variant stored as `v`.
    pub open spec fn spec_from_value(v: int) -> Option<Self> {
        if 0 <= v < 12 {
            Some(Self::spec_variants()[v])
        } else {
            None
        }
    }

    /// The option name of this variant.
    pub open spec fn spec_name(self) -> Seq<char> {
        match self {
            GlobalPeriodicFunction::One => "one"@,
            GlobalPeriodicFunction::Zero => "zero"@,
            GlobalPeriodicFunction::Cosine => "cosine"@,
            GlobalPeriodicFunction::CosineVariablePeriod => "cosine (variable period)"@,
            GlobalPeriodicFunction::DiagonalWave => "diagonal wave"@,
            GlobalPeriodicFunction::DiagonalWaveVariablePeriod => "diagonal wave (variable period)"@,
            GlobalPeriodicFunction::Slide => "slide"@,
            GlobalPeriodicFunction::SlideVariablePeriod => "slide (variable period)"@,
            GlobalPeriodicFunction::Noise => "noise"@,
            GlobalPeriodicFunction::Jitter => "jitter"@,
            GlobalPeriodicFunction::Wander => "wander"@,
            GlobalPeriodicFunction::Spark => "spark"@,
        }
    }

    /// The first variant whose name equals `s` up to ASCII case.
    pub open spec fn spec_from_name(s: Seq<char>) -> Option<Self> {
        if eq_ignore_case(s, "one"@) {
            Some(GlobalPeriodicFunction::One)
        } else if eq_ignore_case(s, "zero"@) {
            Some(GlobalPeriodicFunction::Zero)
        } else if eq_ignore_case(s, "cosine"@) {
            Some(GlobalPeriodicFunction::Cosine)
        } else if eq_ignore_case(s, "cosine (variable period)"@) {
            Some(GlobalPeriodicFunction::CosineVariablePeriod)
        } else if eq_ignore_case(s, "diagonal wave"@) {
            Some(GlobalPeriodicFunction::DiagonalWave)
        } else if eq_ignore_case(s, "diagonal wave (variable period)"@) {
            Some(GlobalPeriodicFunction::DiagonalWaveVariablePeriod)
        } else if eq_ignore_case(s, "slide"@) {
            Some(GlobalPeriodicFunction::Slide)
        } else if eq_ignore_case(s, "slide (variable period)"@) {
            Some(GlobalPeriodicFunction::SlideVariablePeriod)
        } else if eq_ignore_case(s, "noise"@) {
            Some(GlobalPeriodicFunction::Noise)
        } else if eq_ignore_case(s, "jitter"@) {
            Some(GlobalPeriodicFunction::Jitter)
        } else if eq_ignore_case(s, "wander"@) {
            Some(GlobalPeriodicFunction::Wander)
        } else if eq_ignore_case(s, "spark"@) {
            Some(GlobalPeriodicFunction::Spark)
        } else {
            None
        }
    }

    /// No two option names are equal up to ASCII case, so each name
    /// parses back to its own variant.
    pub proof fn lemma_name_roundtrip(e: Self)
        ensures
            Self::spec_from_name(e.spec_name()) == Some(e),
    {
        reveal_strlit("one");
        reveal_strlit("zero");
        reveal_strlit("cosine");
        reveal_strlit("cosine (variable period)");
        reveal_strlit("diagonal wave");
        reveal_strlit("diagonal wave (variable period)");
        reveal_strlit("slide");
        reveal_strlit("slide (variable period)");
        reveal_strlit("noise");
        reveal_strlit("jitter");
        reveal_strlit("wander");
        reveal_strlit("spark");
        match e {
            GlobalPeriodicFunction::One => {
                assert(eq_ignore_case("one"@, "one"@));
            },
            GlobalPeriodicFunction::Zero => {
                assert(!eq_ignore_case("zero"@, "one"@));
                assert(eq_ignore_case("zero"@, "zero"@));
            },
            GlobalPeriodicFunction::Cosine => {
                assert(!eq_ignore_case("cosine"@, "one"@));
                assert(!eq_ignore_case("cosine"@, "zero"@));
                assert(eq_ignore_case("cosine"@, "cosine"@));
            },
            GlobalPeriodicFunction::CosineVariablePeriod => {
                assert(!eq_ignore_case("cosine (variable period)"@, "one"@));
                assert(!eq_ignore_case("cosine (variable period)"@, "zero"@));
                assert(!eq_ignore_case("cosine (variable period)"@, "cosine"@));
                assert(eq_ignore_case("cosine (variable period)"@, "cosine (variable period)"@));
            },
            GlobalPeriodicFunction::DiagonalWave => {
                assert(!eq_ignore_case("diagonal wave"@, "one"@));
                assert(!eq_ignore_case("diagonal wave"@, "zero"@));
                assert(!eq_ignore_case("diagonal wave"@, "cosine"@));
                assert(!eq_ignore_case("diagonal wave"@, "cosine (variable period)"@));
                assert(eq_ignore_case("diagonal wave"@, "diagonal wave"@));
            },
            GlobalPeriodicFunction::DiagonalWaveVariablePeriod => {
                assert(!eq_ignore_case("diagonal wave (variable period)"@, "one"@));
                assert(!eq_ignore_case("diagonal wave (variable period)"@, "zero"@));
                assert(!eq_ignore_case("diagonal wave (variable period)"@, "cosine"@));
                assert(!eq_ignore_case("diagonal wave (variable period)"@, "cosine (variable period)"@));
                assert(!eq_ignore_case("diagonal wave (variable period)"@, "diagonal wave"@));
                assert(eq_ignore_case("diagonal wave (variable period)"@, "diagonal wave (variable period)"@));
            },
            GlobalPeriodicFunction::Slide => {
                assert(!eq_ignore_case("slide"@, "one"@));
                assert(!eq_ignore_case("slide"@, "zero"@));
                assert(!eq_ignore_case("slide"@, "cosine"@));
                assert(!eq_ignore_case("slide"@, "cosine (variable period)"@));
                assert(!eq_ignore_case("slide"@, "diagonal wave"@));
                assert(!eq_ignore_case("slide"@, "diagonal wave (variable period)"@));
                assert(eq_ignore_case("slide"@, "slide"@));
            },
            GlobalPeriodicFunction::SlideVariablePeriod => {
                assert(!eq_ignore_case("slide (variable period)"@, "one"@));
                assert(!eq_ignore_case("slide (variable period)"@, "zero"@));
                assert(!eq_ignore_case("slide (variable period)"@, "cosine"@));
                assert(!eq_ignore_case("slide (variable period)"@, "cosine (variable period)"@));
                assert(!eq_ignore_case("slide (variable period)"@, "diagonal wave"@));
                assert(!eq_ignore_case("slide (variable period)"@, "diagonal wave (variable period)"@));
                assert(!eq_ignore_case("slide (variable period)"@, "slide"@));
                assert(eq_ignore_case("slide (variable period)"@, "slide (variable period)"@));
            },
            GlobalPeriodicFunction::Noise => {
                assert(!eq_ignore_case("noise"@, "one"@));
                assert(!eq_ignore_case("noise"@, "zero"@));
                assert(!eq_ignore_case("noise"@, "cosine"@));
                assert(!eq_ignore_case("noise"@, "cosine (variable period)"@));
                assert(!eq_ignore_case("noise"@, "diagonal wave"@));
                assert(!eq_ignore_case("noise"@, "diagonal wave (variable period)"@));
                assert(ascii_lower("noise"@[0]) != ascii_lower("slide"@[0]));
                assert(!eq_ignore_case("noise"@, "slide (variable period)"@));
                assert(eq_ignore_case("noise"@, "noise"@));
            },
            GlobalPeriodicFunction::Jitter => {
                assert(!eq_ignore_case("jitter"@, "one"@));
                assert(!eq_ignore_case("jitter"@, "zero"@));
                assert(ascii_lower("jitter"@[0]) != ascii_lower("cosine"@[0]));
                assert(!eq_ignore_case("jitter"@, "cosine (variable period)"@));
                assert(!eq_ignore_case("jitter"@, "diagonal wave"@));
                assert(!eq_ignore_case("jitter"@, "diagonal wave (variable period)"@));
                assert(!eq_ignore_case("jitter"@, "slide"@));
                assert(!eq_ignore_case("jitter"@, "slide (variable period)"@));
                assert(!eq_ignore_case("jitter"@, "noise"@));
                assert(eq_ignore_case("jitter"@, "jitter"@));
            },
            GlobalPeriodicFunction::Wander => {
                assert(!eq_ignore_case("wander"@, "one"@));
                assert(!eq_ignore_case("wander"@, "zero"@));
                assert(ascii_lower("wander"@[0]) != ascii_lower("cosine"@[0]));
                assert(!eq_ignore_case("wander"@, "cosine (variable period)"@));
                assert(!eq_ignore_case("wander"@, "diagonal wave"@));
                assert(!eq_ignore_case("wander"@, "diagonal wave (variable period)"@));
                assert(!eq_ignore_case("wander"@, "slide"@));
                assert(!eq_ignore_case("wander"@, "slide (variable period)"@));
                assert(!eq_ignore_case("wander"@, "noise"@));
                assert(ascii_lower("wander"@[0]) != ascii_lower("jitter"@[0]));
                assert(eq_ignore_case("wander"@, "wander"@));
            },
            GlobalPeriodicFunction::Spark => {
                assert(!eq_ignore_case("spark"@, "one"@));
                assert(!eq_ignore_case("spark"@, "zero"@));
                assert(!eq_ignore_case("spark"@, "cosine"@));
                assert(!eq_ignore_case("spark"@, "cosine (variable period)"@));
                assert(!eq_ignore_case("spark"@, "diagonal wave"@));
                assert(!eq_ignore_case("spark"@, "diagonal wave (variable period)"@));
                assert(ascii_lower("spark"@[1]) != ascii_lower("slide"@[1]));
                assert(!eq_ignore_case("spark"@, "slide (variable period)"@));
                assert(ascii_lower("spark"@[0]) != ascii_lower("noise"@[0]));
                assert(!eq_ignore_case("spark"@, "jitter"@));
                assert(!eq_ignore_case("spark"@, "wander"@));
                assert(eq_ignore_case("spark"@, "spark"@));
            },
        }
    }

    /// The value the tag stores for this variant.
    pub fn value(self) -> (r: i16)
        ensures
            r == self.spec_value(),
            Self::spec_from_value(r as int) == Some(self),
    {
        match self {
            GlobalPeriodicFunction::One => 0,
            GlobalPeriodicFunction::Zero => 1,
            GlobalPeriodicFunction::Cosine => 2,
            GlobalPeriodicFunction::CosineVariablePeriod => 3,
            GlobalPeriodicFunction::DiagonalWave => 4,
            GlobalPeriodicFunction::DiagonalWaveVariablePeriod => 5,
            GlobalPeriodicFunction::Slide => 6,
            GlobalPeriodicFunction::SlideVariablePeriod => 7,
            GlobalPeriodicFunction::Noise => 8,
            GlobalPeriodicFunction::Jitter => 9,
            GlobalPeriodicFunction::Wander => 10,
            GlobalPeriodicFunction::Spark => 11,
        }
    }

    /// The variant stored as `v`; `None` for a value no variant has.
    pub fn from_i64(v: i64) -> (r: Option<Self>)
        ensures
            r == Self::spec_from_value(v as int),
            r matches Some(e) ==> e.spec_value() == v,
    {
        match v {
            0 => Some(GlobalPeriodicFunction::One),
            1 => Some(GlobalPeriodicFunction::Zero),
            2 => Some(GlobalPeriodicFunction::Cosine),
            3 => Some(GlobalPeriodicFunction::CosineVariablePeriod),
            4 => Some(GlobalPeriodicFunction::DiagonalWave),
            5 => Some(GlobalPeriodicFunction::DiagonalWaveVariablePeriod),
            6 => Some(GlobalPeriodicFunction::Slide),
            7 => Some(GlobalPeriodicFunction::SlideVariablePeriod),
            8 => Some(GlobalPeriodicFunction::Noise),
            9 => Some(GlobalPeriodicFunction::Jitter),
            10 => Some(GlobalPeriodicFunction::Wander),
            11 => Some(GlobalPeriodicFunction::Spark),
            _ => None,
        }
    }

    /// The option name of this variant.
    pub fn name(self) -> (r: &'static str)
        ensures
            r@ == self.spec_name(),
            Self::spec_from_name(r@) == Some(self),
    {
        proof {
            Self::lemma_name_roundtrip(self);
        }
        match self {
            GlobalPeriodicFunction::One => "one",
            GlobalPeriodicFunction::Zero => "zero",
            GlobalPeriodicFunction::Cosine => "cosine",
            GlobalPeriodicFunction::CosineVariablePeriod => "cosine (variable period)",
            GlobalPeriodicFunction::DiagonalWave => "diagonal wave",
            GlobalPeriodicFunction::DiagonalWaveVariablePeriod => "diagonal wave (variable period)",
            GlobalPeriodicFunction::Slide => "slide",
            GlobalPeriodicFunction::SlideVariablePeriod => "slide (variable period)",
            GlobalPeriodicFunction::Noise => "noise",
            GlobalPeriodicFunction::Jitter => "jitter",
            GlobalPeriodicFunction::Wander => "wander",
            GlobalPeriodicFunction::Spark => "spark",
        }
    }

    /// The variant named `s`, compared up to ASCII case; `None` when no
    /// option has that name.
    pub fn from_name(s: &str) -> (r: Option<Self>)
        ensures
            r == Self::spec_from_name(s@),
    {
        if eq_ignore_ascii_case(s, "one") {
            return Some(GlobalPeriodicFunction::One);
        }
        if eq_ignore_ascii_case(s, "zero") {
            return Some(GlobalPeriodicFunction::Zero);
        }
        if eq_ignore_ascii_case(s, "cosine") {
            return Some(GlobalPeriodicFunction::Cosine);
        }
        if eq_ignore_ascii_case(s, "cosine (variable period)") {
            return Some(GlobalPeriodicFunction::CosineVariablePeriod);
        }
        if eq_ignore_ascii_case(s, "diagonal wave") {
            return Some(GlobalPeriodicFunction::DiagonalWave);
        }
        if eq_ignore_ascii_case(s, "diagonal wave (variable period)") {
            return Some(GlobalPeriodicFunction::DiagonalWaveVariablePeriod);
        }
        if eq_ignore_ascii_case(s, "slide") {
            return Some(GlobalPeriodicFunction::Slide);
        }
        if eq_ignore_ascii_case(s, "slide (variable period)") {
            return Some(GlobalPeriodicFunction::SlideVariablePeriod);
        }
        if eq_ignore_ascii_case(s, "noise") {
            return Some(GlobalPeriodicFunction::Noise);
        }
        if eq_ignore_ascii_case(s, "jitter") {
            return Some(GlobalPeriodicFunction::Jitter);
        }
        if eq_ignore_ascii_case(s, "wander") {
            return Some(GlobalPeriodicFunction::Wander);
        }
        if eq_ignore_ascii_case(s, "spark") {
            return Some(GlobalPeriodicFunction::Spark);
        }
        None
    }

    /// Every variant, in order of its stored value.
    pub fn variants() -> (r: Vec<Self>)
        ensures
            r@ == Self::spec_variants(),
            forall|k: int| 0 <= k < r@.len() ==> (#[trigger] r@[k]).spec_value() == k,
    {
        vec![GlobalPeriodicFunction::One, GlobalPeriodicFunction::Zero, GlobalPeriodicFunction::Cosine, GlobalPeriodicFunction::CosineVariablePeriod, GlobalPeriodicFunction::DiagonalWave, GlobalPeriodicFunction::DiagonalWaveVariablePeriod, GlobalPeriodicFunction::Slide, GlobalPeriodicFunction::SlideVariablePeriod, GlobalPeriodicFunction::Noise, GlobalPeriodicFunction::Jitter, GlobalPeriodicFunction::Wander, GlobalPeriodicFunction::Spark]
    }
}

/// `damage_effect_player_response_types` (short_enum).
#[derive(Clone, Copy, PartialEq, Eq, Debug, Structural)]
pub enum DamageEffectPlayerResponseType {
    Shielded,
    Unshielded,
    All,
}

impl Default for DamageEffectPlayerResponseType {
    fn default() -> (r: Self)
        ensures
            r == DamageEffectPlayerResponseType::Shielded,
    {
        DamageEffectPlayerResponseType::Shielded
    }
}

impl DamageEffectPlayerResponseType {
    /// Every variant, in order of its stored value.
    pub open spec fn spec_variants() -> Seq<Self> {
        seq![DamageEffectPlayerResponseType::Shielded, DamageEffectPlayerResponseType::Unshielded, DamageEffectPlayerResponseType::All]
    }

    /// The value the tag stores for this variant.
    pub open spec fn spec_value(self) -> int {
        match self {
            DamageEffectPlayerResponseType::Shielded => 0,
            DamageEffectPlayerResponseType::Unshielded => 1,
            DamageEffectPlayerResponseType::All => 2,
        }
    }

    /// The variant stored as `v`.
    pub open spec fn spec_from_value(v: int) -> Option<Self> {
        if 0 <= v < 3 {
            Some(Self::spec_variants()[v])
        } else {
            None
        }
    }

    /// The option name of this variant.
    pub open spec fn spec_name(self) -> Seq<char> {
        match self {
            DamageEffectPlayerResponseType::Shielded => "shielded"@,
            DamageEffectPlayerResponseType::Unshielded => "unshielded"@,
            DamageEffectPlayerResponseType::All => "all"@,
        }
    }

    /// The first variant whose name equals `s` up to ASCII case.
    pub open spec fn spec_from_name(s: Seq<char>) -> Option<Self> {
        if eq_ignore_case(s, "shielded"@) {
            Some(DamageEffectPlayerResponseType::Shielded)
        } else if eq_ignore_case(s, "unshielded"@) {
            Some(DamageEffectPlayerResponseType::Unshielded)
        } else if eq_ignore_case(s, "all"@) {
            Some(DamageEffectPlayerResponseType::All)
        } else {
            None
        }
    }

    /// No two option names are equal up to ASCII case, so each name
    /// parses back to its own variant.
    pub proof fn lemma_name_roundtrip(e: Self)
        ensures
            Self::spec_from_name(e.spec_name()) == Some(e),
    {
        reveal_strlit("shielded");
        reveal_strlit("unshielded");
        reveal_strlit("all");
        match e {
            DamageEffectPlayerResponseType::Shielded => {
                assert(eq_ignore_case("shielded"@, "shielded"@));
            },
            DamageEffectPlayerResponseType::Unshielded => {
                assert(!eq_ignore_case("unshielded"@, "shielded"@));
                assert(eq_ignore_case("unshielded"@, "unshielded"@));
            },
            DamageEffectPlayerResponseType::All => {
                assert(!eq_ignore_case("all"@, "shielded"@));
                assert(!eq_ignore_case("all"@, "unshielded"@));
                assert(eq_ignore_case("all"@, "all"@));
            },
        }
    }

    /// The value the tag stores for this variant.
    pub fn value(self) -> (r: i16)
        ensures
            r == self.spec_value(),
            Self::spec_from_value(r as int) == Some(self),
    {
        match self {
            DamageEffectPlayerResponseType::Shielded => 0,
            DamageEffectPlayerResponseType::Unshielded => 1,
            DamageEffectPlayerResponseType::All => 2,
        }
    }

    /// The variant stored as `v`; `None` for a value no variant has.
    pub fn from_i64(v: i64) -> (r: Option<Self>)
        ensures
            r == Self::spec_from_value(v as int),
            r matches Some(e) ==> e.spec_value() == v,
    {
        match v {
            0 => Some(DamageEffectPlayerResponseType::Shielded),
            1 => Some(DamageEffectPlayerResponseType::Unshielded),
            2 => Some(DamageEffectPlayerResponseType::All),
            _ => None,
        }
    }

    /// The option name of this variant.
    pub fn name(self) -> (r: &'static str)
        ensures
            r@ == self.spec_name(),
            Self::spec_from_name(r@) == Some(self),
    {
        proof {
            Self::lemma_name_roundtrip(self);
        }
        match self {
            DamageEffectPlayerResponseType::Shielded => "shielded",
            DamageEffectPlayerResponseType::Unshielded => "unshielded",
            DamageEffectPlayerResponseType::All => "all",
        }
    }

    /// The variant named `s`, compared up to ASCII case; `None` when no
    /// option has that name.
    pub fn from_name(s: &str) -> (r: Option<Self>)
        ensures
            r == Self::spec_from_name(s@),
    {
        if eq_ignore_ascii_case(s, "shielded") {
            return Some(DamageEffectPlayerResponseType::Shielded);
        }
        if eq_ignore_ascii_case(s, "unshielded") {
            return Some(DamageEffectPlayerResponseType::Unshielded);
        }
        if eq_ignore_ascii_case(s, "all") {
            return Some(DamageEffectPlayerResponseType::All);
        }
        None
    }

    /// Every variant, in order of its stored value.
    pub fn variants() -> (r: Vec<Self>)
        ensures
            r@ == Self::spec_variants(),
            forall|k: int| 0 <= k < r@.len() ==> (#[trigger] r@[k]).spec_value() == k,
    {
        vec![DamageEffectPlayerResponseType::Shielded, DamageEffectPlayerResponseType::Unshielded, DamageEffectPlayerResponseType::All]
    }
}

/// `screen_flash_types` (short_enum).
#[derive(Clone, Copy, PartialEq, Eq, Debug, Structural)]
pub enum ScreenFlashType {
    NoFlash,
    Lighten,
    Darken,
    Max,
    Min,
    Invert,
    Tint,
}

impl Default for ScreenFlashType {
    fn default() -> (r: Self)
        ensures
            r == ScreenFlashType::NoFlash,
    {
        ScreenFlashType::NoFlash
    }
}

impl ScreenFlashType {
    /// Every variant, in order of its stored value.
    pub open spec fn spec_variants() -> Seq<Self> {
        seq![ScreenFlashType::NoFlash, ScreenFlashType::Lighten, ScreenFlashType::Darken, ScreenFlashType::Max, ScreenFlashType::Min, ScreenFlashType::Invert, ScreenFlashType::Tint]
    }

    /// The value the tag stores for this variant.
    pub open spec fn spec_value(self) -> int {
        match self {
            ScreenFlashType::NoFlash => 0,
            ScreenFlashType::Lighten => 1,
            ScreenFlashType::Darken => 2,
            ScreenFlashType::Max => 3,
            ScreenFlashType::Min => 4,
            ScreenFlashType::Invert => 5,
            ScreenFlashType::Tint => 6,
        }
    }

    /// The variant stored as `v`.
    pub open spec fn spec_from_value(v: int) -> Option<Self> {
        if 0 <= v < 7 {
            Some(Self::spec_variants()[v])
        } else {
            None
        }
    }

    /// The option name of this variant.
    pub open spec fn spec_name(self) -> Seq<char> {
        match self {
            ScreenFlashType::NoFlash => "none"@,
            ScreenFlashType::Lighten => "lighten"@,
            ScreenFlashType::Darken => "darken"@,
            ScreenFlashType::Max => "max"@,
            ScreenFlashType::Min => "min"@,
            ScreenFlashType::Invert => "invert"@,
            ScreenFlashType::Tint => "tint"@,
        }
    }

    /// The first variant whose name equals `s` up to ASCII case.
    pub open spec fn spec_from_name(s: Seq<char>) -> Option<Self> {
        if eq_ignore_case(s, "none"@) {
            Some(ScreenFlashType::NoFlash)
        } else if eq_ignore_case(s, "lighten"@) {
            Some(ScreenFlashType::Lighten)
        } else if eq_ignore_case(s, "darken"@) {
            Some(ScreenFlashType::Darken)
        } else if eq_ignore_case(s, "max"@) {
            Some(ScreenFlashType::Max)
        } else if eq_ignore_case(s, "min"@) {
            Some(ScreenFlashType::Min)
        } else if eq_ignore_case(s, "invert"@) {
            Some(ScreenFlashType::Invert)
        } else if eq_ignore_case(s, "tint"@) {
            Some(ScreenFlashType::Tint)
        } else {
            None
        }
    }

    /// No two option names are equal up to ASCII case, so each name
    /// parses back to its own variant.
    pub proof fn lemma_name_roundtrip(e: Self)
        ensures
            Self::spec_from_name(e.spec_name()) == Some(e),
    {
        reveal_strlit("none");
        reveal_strlit("lighten");
        reveal_strlit("darken");
        reveal_strlit("max");
        reveal_strlit("min");
        reveal_strlit("invert");
        reveal_strlit("tint");
        match e {
            ScreenFlashType::NoFlash => {
                assert(eq_ignore_case("none"@, "none"@));
            },
            ScreenFlashType::Lighten => {
                assert(!eq_ignore_case("lighten"@, "none"@));
                assert(eq_ignore_case("lighten"@, "lighten"@));
            },
            ScreenFlashType::Darken => {
                assert(!eq_ignore_case("darken"@, "none"@));
                assert(!eq_ignore_case("darken"@, "lighten"@));
                assert(eq_ignore_case("darken"@, "darken"@));
            },
            ScreenFlashType::Max => {
                assert(!eq_ignore_case("max"@, "none"@));
                assert(!eq_ignore_case("max"@, "lighten"@));
                assert(!eq_ignore_case("max"@, "darken"@));
                assert(eq_ignore_case("max"@, "max"@));
            },
            ScreenFlashType::Min => {
                assert(!eq_ignore_case("min"@, "none"@));
                assert(!eq_ignore_case("min"@, "lighten"@));
                assert(!eq_ignore_case("min"@, "darken"@));
                assert(ascii_lower("min"@[1]) != ascii_lower("max"@[1]));
                assert(eq_ignore_case("min"@, "min"@));
            },
            ScreenFlashType::Invert => {
                assert(!eq_ignore_case("invert"@, "none"@));
                assert(!eq_ignore_case("invert"@, "lighten"@));
                assert(ascii_lower("invert"@[0]) != ascii_lower("darken"@[0]));
                assert(!eq_ignore_case("invert"@, "max"@));
                assert(!eq_ignore_case("invert"@, "min"@));
                assert(eq_ignore_case("invert"@, "invert"@));
            },
            ScreenFlashType::Tint => {
                assert(ascii_lower("tint"@[0]) != ascii_lower("none"@[0]));
                assert(!eq_ignore_case("tint"@, "lighten"@));
                assert(!eq_ignore_case("tint"@, "darken"@));
                assert(!eq_ignore_case("tint"@, "max"@));
                assert(!eq_ignore_case("tint"@, "min"@));
                assert(!eq_ignore_case("tint"@, "invert"@));
                assert(eq_ignore_case("tint"@, "tint"@));
            },
        }
    }

    /// The value the tag stores for this variant.
    pub fn value(self) -> (r: i16)
        ensures
            r == self.spec_value(),
            Self::spec_from_value(r as int) == Some(self),
    {
        match self {
            ScreenFlashType::NoFlash => 0,
            ScreenFlashType::Lighten => 1,
            ScreenFlashType::Darken => 2,
            ScreenFlashType::Max => 3,
            ScreenFlashType::Min => 4,
            ScreenFlashType::Invert => 5,
            ScreenFlashType::Tint => 6,
        }
    }

    /// The variant stored as `v`; `None` for a value no variant has.
    pub fn from_i64(v: i64) -> (r: Option<Self>)
        ensures
            r == Self::spec_from_value(v as int),
            r matches Some(e) ==> e.spec_value() == v,
    {
        match v {
            0 => Some(ScreenFlashType::NoFlash),
            1 => Some(ScreenFlashType::Lighten),
            2 => Some(ScreenFlashType::Darken),
            3 => Some(ScreenFlashType::Max),
            4 => Some(ScreenFlashType::Min),
            5 => Some(ScreenFlashType::Invert),
            6 => Some(ScreenFlashType::Tint),
            _ => None,
        }
    }

    /// The option name of this variant.
    pub fn name(self) -> (r: &'static str)
        ensures
            r@ == self.spec_name(),
            Self::spec_from_name(r@) == Some(self),
    {
        proof {
            Self::lemma_name_roundtrip(self);
        }
        match self {
            ScreenFlashType::NoFlash => "none",
            ScreenFlashType::Lighten => "lighten",
            ScreenFlashType::Darken => "darken",
            ScreenFlashType::Max => "max",
            ScreenFlashType::Min => "min",
            ScreenFlashType::Invert => "invert",
            ScreenFlashType::Tint => "tint",
        }
    }

    /// The variant named `s`, compared up to ASCII case; `None` when no
    /// option has that name.
    pub fn from_name(s: &str) -> (r: Option<Self>)
        ensures
            r == Self::spec_from_name(s@),
    {
        if eq_ignore_ascii_case(s, "none") {
            return Some(ScreenFlashType::NoFlash);
        }
        if eq_ignore_ascii_case(s, "lighten") {
            return Some(ScreenFlashType::Lighten);
        }
        if eq_ignore_ascii_case(s, "darken") {
            return Some(ScreenFlashType::Darken);
        }
        if eq_ignore_ascii_case(s, "max") {
            return Some(ScreenFlashType::Max);
        }
        if eq_ignore_ascii_case(s, "min") {
            return Some(ScreenFlashType::Min);
        }
        if eq_ignore_ascii_case(s, "invert") {
            return Some(ScreenFlashType::Invert);
        }
        if eq_ignore_ascii_case(s, "tint") {
            return Some(ScreenFlashType::Tint);
        }
        None
    }

    /// Every variant, in order of its stored value.
    pub fn variants() -> (r: Vec<Self>)
        ensures
            r@ == Self::spec_variants(),
            forall|k: int| 0 <= k < r@.len() ==> (#[trigger] r@[k]).spec_value() == k,
    {
        vec![ScreenFlashType::NoFlash, ScreenFlashType::Lighten, ScreenFlashType::Darken, ScreenFlashType::Max, ScreenFlashType::Min, ScreenFlashType::Invert, ScreenFlashType::Tint]
    }
}

/// `screen_flash_priorities` (short_enum).
#[derive(Clone, Copy, PartialEq, Eq, Debug, Structural)]
pub enum ScreenFlashPriority {
    Low,
    Medium,
    High,
}

impl Default for ScreenFlashPriority {
    fn default() -> (r: Self)
        ensures
            r == ScreenFlashPriority::Low,
    {
        ScreenFlashPriority::Low
    }
}

impl ScreenFlashPriority {
    /// Every variant, in order of its stored value.
    pub open spec fn spec_variants() -> Seq<Self> {
        seq![ScreenFlashPriority::Low, ScreenFlashPriority::Medium, ScreenFlashPriority::High]
    }

    /// The value the tag stores for this variant.
    pub open spec fn spec_value(self) -> int {
        match self {
            ScreenFlashPriority::Low => 0,
            ScreenFlashPriority::Medium => 1,
            ScreenFlashPriority::High => 2,
        }
    }

    /// The variant stored as `v`.
    pub open spec fn spec_from_value(v: int) -> Option<Self> {
        if 0 <= v < 3 {
            Some(Self::spec_variants()[v])
        } else {
            None
        }
    }

    /// The option name of this variant.
    pub open spec fn spec_name(self) -> Seq<char> {
        match self {
            ScreenFlashPriority::Low => "low"@,
            ScreenFlashPriority::Medium => "medium"@,
            ScreenFlashPriority::High => "high"@,
        }
    }

    /// The first variant whose name equals `s` up to ASCII case.
    pub open spec fn spec_from_name(s: Seq<char>) -> Option<Self> {
        if eq_ignore_case(s, "low"@) {
            Some(ScreenFlashPriority::Low)
        } else if eq_ignore_case(s, "medium"@) {
            Some(ScreenFlashPriority::Medium)
        } else if eq_ignore_case(s, "high"@) {
            Some(ScreenFlashPriority::High)
        } else {
            None
        }
    }

    /// No two option names are equal up to ASCII case, so each name
    /// parses back to its own variant.
    pub proof fn lemma_name_roundtrip(e: Self)
        ensures
            Self::spec_from_name(e.spec_name()) == Some(e),
    {
        reveal_strlit("low");
        reveal_strlit("medium");
        reveal_strlit("high");
        match e {
            ScreenFlashPriority::Low => {
                assert(eq_ignore_case("low"@, "low"@));
            },
            ScreenFlashPriority::Medium => {
                assert(!eq_ignore_case("medium"@, "low"@));
                assert(eq_ignore_case("medium"@, "medium"@));
            },
            ScreenFlashPriority::High => {
                assert(!eq_ignore_case("high"@, "low"@));
                assert(!eq_ignore_case("high"@, "medium"@));
                assert(eq_ignore_case("high"@, "high"@));
            },
        }
    }

    /// The value the tag stores for this variant.
    pub fn value(self) -> (r: i16)
        ensures
            r == self.spec_value(),
            Self::spec_from_value(r as int) == Some(self),
    {
        match self {
            ScreenFlashPriority::Low => 0,
            ScreenFlashPriority::Medium => 1,
            ScreenFlashPriority::High => 2,
        }
    }

    /// The variant stored as `v`; `None` for a value no variant has.
    pub fn from_i64(v: i64) -> (r: Option<Self>)
        ensures
            r == Self::spec_from_value(v as int),
            r matches Some(e) ==> e.spec_value() == v,
    {
        match v {
            0 => Some(ScreenFlashPriority::Low),
            1 => Some(ScreenFlashPriority::Medium),
            2 => Some(ScreenFlashPriority::High),
            _ => None,
        }
    }

    /// The option name of this variant.
    pub fn name(self) -> (r: &'static str)
        ensures
            r@ == self.spec_name(),
            Self::spec_from_name(r@) == Some(self),
    {
        proof {
            Self::lemma_name_roundtrip(self);
        }
        match self {
            ScreenFlashPriority::Low => "low",
            ScreenFlashPriority::Medium => "medium",
            ScreenFlashPriority::High => "high",
        }
    }

    /// The variant named `s`, compared up to ASCII case; `None` when no
    /// option has that name.
    pub fn from_name(s: &str) -> (r: Option<Self>)
        ensures
            r == Self::spec_from_name(s@),
    {
        if eq_ignore_ascii_case(s, "low") {
            return Some(ScreenFlashPriority::Low);
        }
        if eq_ignore_ascii_case(s, "medium") {
            return Some(ScreenFlashPriority::Medium);
        }
        if eq_ignore_ascii_case(s, "high") {
            return Some(ScreenFlashPriority::High);
        }
        None
    }

    /// Every variant, in order of its stored value.
    pub fn variants() -> (r: Vec<Self>)
        ensures
            r@ == Self::spec_variants(),
            forall|k: int| 0 <= k < r@.len() ==> (#[trigger] r@[k]).spec_value() == k,
    {
        vec![ScreenFlashPriority::Low, ScreenFlashPriority::Medium, ScreenFlashPriority::High]
    }
}

} // verus!
