//! Options of the `sefc` (area screen effect) tag.
use vstd::prelude::*;

use crate::numtext::{ascii_lower, eq_ignore_ascii_case, eq_ignore_case};

verus! {

/// `area_screen_effect_flags_definition` — 4 bits authored on each
/// `single_screen_effect`.
#[derive(Clone, Copy, PartialEq, Eq, Debug, Structural)]
pub enum AreaScreenEffectFlags {
    DebugDisable,
    AllowEffectOutsideRadius,
    FirstPersonOnly,
    ThirdPersonOnly,
}

impl AreaScreenEffectFlags {
    /// Every variant, in order of its stored value.
    pub open spec fn spec_variants() -> Seq<Self> {
        seq![AreaScreenEffectFlags::DebugDisable, AreaScreenEffectFlags::AllowEffectOutsideRadius, AreaScreenEffectFlags::FirstPersonOnly, AreaScreenEffectFlags::ThirdPersonOnly]
    }

    /// The value the tag stores for this variant.
    pub open spec fn spec_value(self) -> int {
        match self {
            AreaScreenEffectFlags::DebugDisable => 0,
            AreaScreenEffectFlags::AllowEffectOutsideRadius => 1,
            AreaScreenEffectFlags::FirstPersonOnly => 2,
            AreaScreenEffectFlags::ThirdPersonOnly => 3,
        }
    }

    /// The variant stored as `v`.
    pub open spec fn spec_from_value(v: int) -> Option<Self> {
        if 0 <= v < 4 {
            Some(Self::spec_variants()[v])
        } else {
            None
        }
    }

    /// The option name of this variant.
    pub open spec fn spec_name(self) -> Seq<char> {
        match self {
            AreaScreenEffectFlags::DebugDisable => "debug disable"@,
            AreaScreenEffectFlags::AllowEffectOutsideRadius => "allow effect outside radius"@,
            AreaScreenEffectFlags::FirstPersonOnly => "first person only"@,
            AreaScreenEffectFlags::ThirdPersonOnly => "third person only"@,
        }
    }

    /// The first variant whose name equals `s` up to ASCII case.
    pub open spec fn spec_from_name(s: Seq<char>) -> Option<Self> {
        if eq_ignore_case(s, "debug disable"@) {
            Some(AreaScreenEffectFlags::DebugDisable)
        } else if eq_ignore_case(s, "allow effect outside radius"@) {
            Some(AreaScreenEffectFlags::AllowEffectOutsideRadius)
        } else if eq_ignore_case(s, "first person only"@) {
            Some(AreaScreenEffectFlags::FirstPersonOnly)
        } else if eq_ignore_case(s, "third person only"@) {
            Some(AreaScreenEffectFlags::ThirdPersonOnly)
        } else {
            None
        }
    }

    /// No two option names are equal up to ASCII case, so each name
    /// parses back to its own variant.
    pub proof fn lemma_name_roundtrip(e: Self)
        ensures
            Self::spec_from_name(e.spec_name()) == Some(e),
    {
        reveal_strlit("debug disable");
        reveal_strlit("allow effect outside radius");
        reveal_strlit("first person only");
        reveal_strlit("third person only");
        match e {
            AreaScreenEffectFlags::DebugDisable => {
                assert(eq_ignore_case("debug disable"@, "debug disable"@));
            },
            AreaScreenEffectFlags::AllowEffectOutsideRadius => {
                assert(!eq_ignore_case("allow effect outside radius"@, "debug disable"@));
                assert(eq_ignore_case("allow effect outside radius"@, "allow effect outside radius"@));
            },
            AreaScreenEffectFlags::FirstPersonOnly => {
                assert(!eq_ignore_case("first person only"@, "debug disable"@));
                assert(!eq_ignore_case("first person only"@, "allow effect outside radius"@));
                assert(eq_ignore_case("first person only"@, "first person only"@));
            },
            AreaScreenEffectFlags::ThirdPersonOnly => {
                assert(!eq_ignore_case("third person only"@, "debug disable"@));
                assert(!eq_ignore_case("third person only"@, "allow effect outside radius"@));
                assert(ascii_lower("third person only"@[0]) != ascii_lower("first person only"@[0]));
                assert(eq_ignore_case("third person only"@, "third person only"@));
            },
        }
    }

    /// The value the tag stores for this variant.
    pub fn value(self) -> (r: u32)
        ensures
            r == self.spec_value(),
            Self::spec_from_value(r as int) == Some(self),
    {
        match self {
            AreaScreenEffectFlags::DebugDisable => 0,
            AreaScreenEffectFlags::AllowEffectOutsideRadius => 1,
            AreaScreenEffectFlags::FirstPersonOnly => 2,
            AreaScreenEffectFlags::ThirdPersonOnly => 3,
        }
    }

    /// The variant stored as `v`; `None` for a value no variant has.
    pub fn from_i64(v: i64) -> (r: Option<Self>)
        ensures
            r == Self::spec_from_value(v as int),
            r matches Some(e) ==> e.spec_value() == v,
    {
        match v {
            0 => Some(AreaScreenEffectFlags::DebugDisable),
            1 => Some(AreaScreenEffectFlags::AllowEffectOutsideRadius),
            2 => Some(AreaScreenEffectFlags::FirstPersonOnly),
            3 => Some(AreaScreenEffectFlags::ThirdPersonOnly),
            _ => None,
        }
    }

    /// The option name of this variant.
    pub fn name(self) -> (r: &'static str)
        ensures
            r@ == self.spec_name(),
            Self::spec_from_name(r@) == Some(self),
    {
        proof {
            Self::lemma_name_roundtrip(self);
        }
        match self {
            AreaScreenEffectFlags::DebugDisable => "debug disable",
            AreaScreenEffectFlags::AllowEffectOutsideRadius => "allow effect outside radius",
            AreaScreenEffectFlags::FirstPersonOnly => "first person only",
            AreaScreenEffectFlags::ThirdPersonOnly => "third person only",
        }
    }

    /// The variant named `s`, compared up to ASCII case; `None` when no
    /// option has that name.
    pub fn from_name(s: &str) -> (r: Option<Self>)
        ensures
            r == Self::spec_from_name(s@),
    {
        if eq_ignore_ascii_case(s, "debug disable") {
            return Some(AreaScreenEffectFlags::DebugDisable);
        }
        if eq_ignore_ascii_case(s, "allow effect outside radius") {
            return Some(AreaScreenEffectFlags::AllowEffectOutsideRadius);
        }
        if eq_ignore_ascii_case(s, "first person only") {
            return Some(AreaScreenEffectFlags::FirstPersonOnly);
        }
        if eq_ignore_ascii_case(s, "third person only") {
            return Some(AreaScreenEffectFlags::ThirdPersonOnly);
        }
        None
    }

    /// Every variant, in order of its stored value.
    pub fn variants() -> (r: Vec<Self>)
        ensures
            r@ == Self::spec_variants(),
            forall|k: int| 0 <= k < r@.len() ==> (#[trigger] r@[k]).spec_value() == k,
    {
        vec![AreaScreenEffectFlags::DebugDisable, AreaScreenEffectFlags::AllowEffectOutsideRadius, AreaScreenEffectFlags::FirstPersonOnly, AreaScreenEffectFlags::ThirdPersonOnly]
    }
}

} // verus!
