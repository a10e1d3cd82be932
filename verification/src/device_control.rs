//! Option sets of the `ctrl` (device control) tag.
use vstd::prelude::*;

use crate::numtext::{ascii_lower, eq_ignore_ascii_case, eq_ignore_case};

verus! {

/// `control_types`.
#[derive(Clone, Copy, PartialEq, Eq, Debug, Structural)]
pub enum ControlType {
    ToggleSwitch,
    OnButton,
    OffButton,
    CallButton,
}

impl Default for ControlType {
    fn default() -> (r: Self)
        ensures
            r == ControlType::ToggleSwitch,
    {
        ControlType::ToggleSwitch
    }
}

impl ControlType {
    /// Every variant, in order of its stored value.
    pub open spec fn spec_variants() -> Seq<Self> {
        seq![ControlType::ToggleSwitch, ControlType::OnButton, ControlType::OffButton, ControlType::CallButton]
    }

    /// The value the tag stores for this variant.
    pub open spec fn spec_value(self) -> int {
        match self {
            ControlType::ToggleSwitch => 0,
            ControlType::OnButton => 1,
            ControlType::OffButton => 2,
            ControlType::CallButton => 3,
        }
    }

    /// The variant stored as `v`.
    pub open spec fn spec_from_value(v: int) -> Option<Self> {
        if 0 <= v < 4 {
            Some(Self::spec_variants()[v])
        } else {
            None
        }
    }

    /// The option name of this variant.
    pub open spec fn spec_name(self) -> Seq<char> {
        match self {
            ControlType::ToggleSwitch => "toggle switch"@,
            ControlType::OnButton => "on button"@,
            ControlType::OffButton => "off button"@,
            ControlType::CallButton => "call button"@,
        }
    }

    /// The first variant whose name equals `s` up to ASCII case.
    pub open spec fn spec_from_name(s: Seq<char>) -> Option<Self> {
        if eq_ignore_case(s, "toggle switch"@) {
            Some(ControlType::ToggleSwitch)
        } else if eq_ignore_case(s, "on button"@) {
            Some(ControlType::OnButton)
        } else if eq_ignore_case(s, "off button"@) {
            Some(ControlType::OffButton)
        } else if eq_ignore_case(s, "call button"@) {
            Some(ControlType::CallButton)
        } else {
            None
        }
    }

    /// No two option names are equal up to ASCII case, so each name
    /// parses back to its own variant.
    pub proof fn lemma_name_roundtrip(e: Self)
        ensures
            Self::spec_from_name(e.spec_name()) == Some(e),
    {
        reveal_strlit("toggle switch");
        reveal_strlit("on button");
        reveal_strlit("off button");
        reveal_strlit("call button");
        match e {
            ControlType::ToggleSwitch => {
                assert(eq_ignore_case("toggle switch"@, "toggle switch"@));
            },
            ControlType::OnButton => {
                assert(!eq_ignore_case("on button"@, "toggle switch"@));
                assert(eq_ignore_case("on button"@, "on button"@));
            },
            ControlType::OffButton => {
                assert(!eq_ignore_case("off button"@, "toggle switch"@));
                assert(!eq_ignore_case("off button"@, "on button"@));
                assert(eq_ignore_case("off button"@, "off button"@));
            },
            ControlType::CallButton => {
                assert(!eq_ignore_case("call button"@, "toggle switch"@));
                assert(!eq_ignore_case("call button"@, "on button"@));
                assert(!eq_ignore_case("call button"@, "off button"@));
                assert(eq_ignore_case("call button"@, "call button"@));
            },
        }
    }

    /// The value the tag stores for this variant.
    pub fn value(self) -> (r: i16)
        ensures
            r == self.spec_value(),
            Self::spec_from_value(r as int) == Some(self),
    {
        match self {
            ControlType::ToggleSwitch => 0,
            ControlType::OnButton => 1,
            ControlType::OffButton => 2,
            ControlType::CallButton => 3,
        }
    }

    /// The variant stored as `v`; `None` for a value no variant has.
    pub fn from_i64(v: i64) -> (r: Option<Self>)
        ensures
            r == Self::spec_from_value(v as int),
            r matches Some(e) ==> e.spec_value() == v,
    {
        match v {
            0 => Some(ControlType::ToggleSwitch),
            1 => Some(ControlType::OnButton),
            2 => Some(ControlType::OffButton),
            3 => Some(ControlType::CallButton),
            _ => None,
        }
    }

    /// The option name of this variant.
    pub fn name(self) -> (r: &'static str)
        ensures
            r@ == self.spec_name(),
            Self::spec_from_name(r@) == Some(self),
    {
        proof {
            Self::lemma_name_roundtrip(self);
        }
        match self {
            ControlType::ToggleSwitch => "toggle switch",
            ControlType::OnButton => "on button",
            ControlType::OffButton => "off button",
            ControlType::CallButton => "call button",
        }
    }

    /// The variant named `s`, compared up to ASCII case; `None` when no
    /// option has that name.
    pub fn from_name(s: &str) -> (r: Option<Self>)
        ensures
            r == Self::spec_from_name(s@),
    {
        if eq_ignore_ascii_case(s, "toggle switch") {
            return Some(ControlType::ToggleSwitch);
        }
        if eq_ignore_ascii_case(s, "on button") {
            return Some(ControlType::OnButton);
        }
        if eq_ignore_ascii_case(s, "off button") {
            return Some(ControlType::OffButton);
        }
        if eq_ignore_ascii_case(s, "call button") {
            return Some(ControlType::CallButton);
        }
        None
    }

    /// Every variant, in order of its stored value.
    pub fn variants() -> (r: Vec<Self>)
        ensures
            r@ == Self::spec_variants(),
            forall|k: int| 0 <= k < r@.len() ==> (#[trigger] r@[k]).spec_value() == k,
    {
        vec![ControlType::ToggleSwitch, ControlType::OnButton, ControlType::OffButton, ControlType::CallButton]
    }
}

/// `control_triggers`.
#[derive(Clone, Copy, PartialEq, Eq, Debug, Structural)]
pub enum ControlTriggers {
    TouchedByPlayer,
    Destroyed,
}

impl Default for ControlTriggers {
    fn default() -> (r: Self)
        ensures
            r == ControlTriggers::TouchedByPlayer,
    {
        ControlTriggers::TouchedByPlayer
    }
}

impl ControlTriggers {
    /// Every variant, in order of its stored value.
    pub open spec fn spec_variants() -> Seq<Self> {
        seq![ControlTriggers::TouchedByPlayer, ControlTriggers::Destroyed]
    }

    /// The value the tag stores for this variant.
    pub open spec fn spec_value(self) -> int {
        match self {
            ControlTriggers::TouchedByPlayer => 0,
            ControlTriggers::Destroyed => 1,
        }
    }

    /// The variant stored as `v`.
    pub open spec fn spec_from_value(v: int) -> Option<Self> {
        if 0 <= v < 2 {
            Some(Self::spec_variants()[v])
        } else {
            None
        }
    }

    /// The option name of this variant.
    pub open spec fn spec_name(self) -> Seq<char> {
        match self {
            ControlTriggers::TouchedByPlayer => "touched by player"@,
            ControlTriggers::Destroyed => "destroyed"@,
        }
    }

    /// The first variant whose name equals `s` up to ASCII case.
    pub open spec fn spec_from_name(s: Seq<char>) -> Option<Self> {
        if eq_ignore_case(s, "touched by player"@) {
            Some(ControlTriggers::TouchedByPlayer)
        } else if eq_ignore_case(s, "destroyed"@) {
            Some(ControlTriggers::Destroyed)
        } else {
            None
        }
    }

    /// No two option names are equal up to ASCII case, so each name
    /// parses back to its own variant.
    pub proof fn lemma_name_roundtrip(e: Self)
        ensures
            Self::spec_from_name(e.spec_name()) == Some(e),
    {
        reveal_strlit("touched by player");
        reveal_strlit("destroyed");
        match e {
            ControlTriggers::TouchedByPlayer => {
                assert(eq_ignore_case("touched by player"@, "touched by player"@));
            },
            ControlTriggers::Destroyed => {
                assert(!eq_ignore_case("destroyed"@, "touched by player"@));
                assert(eq_ignore_case("destroyed"@, "destroyed"@));
            },
        }
    }

    /// The value the tag stores for this variant.
    pub fn value(self) -> (r: i16)
        ensures
            r == self.spec_value(),
            Self::spec_from_value(r as int) == Some(self),
    {
        match self {
            ControlTriggers::TouchedByPlayer => 0,
            ControlTriggers::Destroyed => 1,
        }
    }

    /// The variant stored as `v`; `None` for a value no variant has.
    pub fn from_i64(v: i64) -> (r: Option<Self>)
        ensures
            r == Self::spec_from_value(v as int),
            r matches Some(e) ==> e.spec_value() == v,
    {
        match v {
            0 => Some(ControlTriggers::TouchedByPlayer),
            1 => Some(ControlTriggers::Destroyed),
            _ => None,
        }
    }

    /// The option name of this variant.
    pub fn name(self) -> (r: &'static str)
        ensures
            r@ == self.spec_name(),
            Self::spec_from_name(r@) == Some(self),
    {
        proof {
            Self::lemma_name_roundtrip(self);
        }
        match self {
            ControlTriggers::TouchedByPlayer => "touched by player",
            ControlTriggers::Destroyed => "destroyed",
        }
    }

    /// The variant named `s`, compared up to ASCII case; `None` when no
    /// option has that name.
    pub fn from_name(s: &str) -> (r: Option<Self>)
        ensures
            r == Self::spec_from_name(s@),
    {
        if eq_ignore_ascii_case(s, "touched by player") {
            return Some(ControlTriggers::TouchedByPlayer);
        }
        if eq_ignore_ascii_case(s, "destroyed") {
            return Some(ControlTriggers::Destroyed);
        }
        None
    }

    /// Every variant, in order of its stored value.
    pub fn variants() -> (r: Vec<Self>)
        ensures
            r@ == Self::spec_variants(),
            forall|k: int| 0 <= k < r@.len() ==> (#[trigger] r@[k]).spec_value() == k,
    {
        vec![ControlTriggers::TouchedByPlayer, ControlTriggers::Destroyed]
    }
}

} // verus!
