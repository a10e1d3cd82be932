//! Flag words shared by every device tag.
use vstd::prelude::*;

use crate::numtext::{ascii_lower, eq_ignore_ascii_case, eq_ignore_case};

verus! {

/// `device_definition_flags` (long_flags).
#[derive(Clone, Copy, PartialEq, Eq, Debug, Structural)]
pub enum DeviceDefinitionFlags {
    PositionLoops,
    Unused,
    AllowInterpolation,
}

impl DeviceDefinitionFlags {
    /// Every variant, in order of its stored value.
    pub open spec fn spec_variants() -> Seq<Self> {
        seq![DeviceDefinitionFlags::PositionLoops, DeviceDefinitionFlags::Unused, DeviceDefinitionFlags::AllowInterpolation]
    }

    /// The value the tag stores for this variant.
    pub open spec fn spec_value(self) -> int {
        match self {
            DeviceDefinitionFlags::PositionLoops => 0,
            DeviceDefinitionFlags::Unused => 1,
            DeviceDefinitionFlags::AllowInterpolation => 2,
        }
    }

    /// The variant stored as `v`.
    pub open spec fn spec_from_value(v: int) -> Option<Self> {
        if 0 <= v < 3 {
            Some(Self::spec_variants()[v])
        } else {
            None
        }
    }

    /// The option name of this variant.
    pub open spec fn spec_name(self) -> Seq<char> {
        match self {
            DeviceDefinitionFlags::PositionLoops => "position loops"@,
            DeviceDefinitionFlags::Unused => "(unused)"@,
            DeviceDefinitionFlags::AllowInterpolation => "allow interpolation"@,
        }
    }

    /// The first variant whose name equals `s` up to ASCII case.
    pub open spec fn spec_from_name(s: Seq<char>) -> Option<Self> {
        if eq_ignore_case(s, "position loops"@) {
            Some(DeviceDefinitionFlags::PositionLoops)
        } else if eq_ignore_case(s, "(unused)"@) {
            Some(DeviceDefinitionFlags::Unused)
        } else if eq_ignore_case(s, "allow interpolation"@) {
            Some(DeviceDefinitionFlags::AllowInterpolation)
        } else {
            None
        }
    }

    /// No two option names are equal up to ASCII case, so each name
    /// parses back to its own variant.
    pub proof fn lemma_name_roundtrip(e: Self)
        ensures
            Self::spec_from_name(e.spec_name()) == Some(e),
    {
        reveal_strlit("position loops");
        reveal_strlit("(unused)");
        reveal_strlit("allow interpolation");
        match e {
            DeviceDefinitionFlags::PositionLoops => {
                assert(eq_ignore_case("position loops"@, "position loops"@));
            },
            DeviceDefinitionFlags::Unused => {
                assert(!eq_ignore_case("(unused)"@, "position loops"@));
                assert(eq_ignore_case("(unused)"@, "(unused)"@));
            },
            DeviceDefinitionFlags::AllowInterpolation => {
                assert(!eq_ignore_case("allow interpolation"@, "position loops"@));
                assert(!eq_ignore_case("allow interpolation"@, "(unused)"@));
                assert(eq_ignore_case("allow interpolation"@, "allow interpolation"@));
            },
        }
    }

    /// The value the tag stores for this variant.
    pub fn value(self) -> (r: u32)
        ensures
            r == self.spec_value(),
            Self::spec_from_value(r as int) == Some(self),
    {
        match self {
            DeviceDefinitionFlags::PositionLoops => 0,
            DeviceDefinitionFlags::Unused => 1,
            DeviceDefinitionFlags::AllowInterpolation => 2,
        }
    }

    /// The variant stored as `v`; `None` for a value no variant has.
    pub fn from_i64(v: i64) -> (r: Option<Self>)
        ensures
            r == Self::spec_from_value(v as int),
            r matches Some(e) ==> e.spec_value() == v,
    {
        match v {
            0 => Some(DeviceDefinitionFlags::PositionLoops),
            1 => Some(DeviceDefinitionFlags::Unused),
            2 => Some(DeviceDefinitionFlags::AllowInterpolation),
            _ => None,
        }
    }

    /// The option name of this variant.
    pub fn name(self) -> (r: &'static str)
        ensures
            r@ == self.spec_name(),
            Self::spec_from_name(r@) == Some(self),
    {
        proof {
            Self::lemma_name_roundtrip(self);
        }
        match self {
            DeviceDefinitionFlags::PositionLoops => "position loops",
            DeviceDefinitionFlags::Unused => "(unused)",
            DeviceDefinitionFlags::AllowInterpolation => "allow interpolation",
        }
    }

    /// The variant named `s`, compared up to ASCII case; `None` when no
    /// option has that name.
    pub fn from_name(s: &str) -> (r: Option<Self>)
        ensures
            r == Self::spec_from_name(s@),
    {
        if eq_ignore_ascii_case(s, "position loops") {
            return Some(DeviceDefinitionFlags::PositionLoops);
        }
        if eq_ignore_ascii_case(s, "(unused)") {
            return Some(DeviceDefinitionFlags::Unused);
        }
        if eq_ignore_ascii_case(s, "allow interpolation") {
            return Some(DeviceDefinitionFlags::AllowInterpolation);
        }
        None
    }

    /// Every variant, in order of its stored value.
    pub fn variants() -> (r: Vec<Self>)
        ensures
            r@ == Self::spec_variants(),
            forall|k: int| 0 <= k < r@.len() ==> (#[trigger] r@[k]).spec_value() == k,
    {
        vec![DeviceDefinitionFlags::PositionLoops, DeviceDefinitionFlags::Unused, DeviceDefinitionFlags::AllowInterpolation]
    }
}

/// `device_lightmap_flags` (word_flags).
#[derive(Clone, Copy, PartialEq, Eq, Debug, Structural)]
pub enum DeviceLightmapFlags {
    DontUseInLightmap,
    DontUseInLightprobe,
}

impl DeviceLightmapFlags {
    /// Every variant, in order of its stored value.
    pub open spec fn spec_variants() -> Seq<Self> {
        seq![DeviceLightmapFlags::DontUseInLightmap, DeviceLightmapFlags::DontUseInLightprobe]
    }

    /// The value the tag stores for this variant.
    pub open spec fn spec_value(self) -> int {
        match self {
            DeviceLightmapFlags::DontUseInLightmap => 0,
            DeviceLightmapFlags::DontUseInLightprobe => 1,
        }
    }

    /// The variant stored as `v`.
    pub open spec fn spec_from_value(v: int) -> Option<Self> {
        if 0 <= v < 2 {
            Some(Self::spec_variants()[v])
        } else {
            None
        }
    }

    /// The option name of this variant.
    pub open spec fn spec_name(self) -> Seq<char> {
        match self {
            DeviceLightmapFlags::DontUseInLightmap => "don't use in lightmap"@,
            DeviceLightmapFlags::DontUseInLightprobe => "don't use in lightprobe"@,
        }
    }

    /// The first variant whose name equals `s` up to ASCII case.
    pub open spec fn spec_from_name(s: Seq<char>) -> Option<Self> {
        if eq_ignore_case(s, "don't use in lightmap"@) {
            Some(DeviceLightmapFlags::DontUseInLightmap)
        } else if eq_ignore_case(s, "don't use in lightprobe"@) {
            Some(DeviceLightmapFlags::DontUseInLightprobe)
        } else {
            None
        }
    }

    /// No two option names are equal up to ASCII case, so each name
    /// parses back to its own variant.
    pub proof fn lemma_name_roundtrip(e: Self)
        ensures
            Self::spec_from_name(e.spec_name()) == Some(e),
    {
        reveal_strlit("don't use in lightmap");
        reveal_strlit("don't use in lightprobe");
        match e {
            DeviceLightmapFlags::DontUseInLightmap => {
                assert(eq_ignore_case("don't use in lightmap"@, "don't use in lightmap"@));
            },
            DeviceLightmapFlags::DontUseInLightprobe => {
                assert(!eq_ignore_case("don't use in lightprobe"@, "don't use in lightmap"@));
                assert(eq_ignore_case("don't use in lightprobe"@, "don't use in lightprobe"@));
            },
        }
    }

    /// The value the tag stores for this variant.
    pub fn value(self) -> (r: u16)
        ensures
            r == self.spec_value(),
            Self::spec_from_value(r as int) == Some(self),
    {
        match self {
            DeviceLightmapFlags::DontUseInLightmap => 0,
            DeviceLightmapFlags::DontUseInLightprobe => 1,
        }
    }

    /// The variant stored as `v`; `None` for a value no variant has.
    pub fn from_i64(v: i64) -> (r: Option<Self>)
        ensures
            r == Self::spec_from_value(v as int),
            r matches Some(e) ==> e.spec_value() == v,
    {
        match v {
            0 => Some(DeviceLightmapFlags::DontUseInLightmap),
            1 => Some(DeviceLightmapFlags::DontUseInLightprobe),
            _ => None,
        }
    }

    /// The option name of this variant.
    pub fn name(self) -> (r: &'static str)
        ensures
            r@ == self.spec_name(),
            Self::spec_from_name(r@) == Some(self),
    {
        proof {
            Self::lemma_name_roundtrip(self);
        }
        match self {
            DeviceLightmapFlags::DontUseInLightmap => "don't use in lightmap",
            DeviceLightmapFlags::DontUseInLightprobe => "don't use in lightprobe",
        }
    }

    /// The variant named `s`, compared up to ASCII case; `None` when no
    /// option has that name.
    pub fn from_name(s: &str) -> (r: Option<Self>)
        ensures
            r == Self::spec_from_name(s@),
    {
        if eq_ignore_ascii_case(s, "don't use in lightmap") {
            return Some(DeviceLightmapFlags::DontUseInLightmap);
        }
        if eq_ignore_ascii_case(s, "don't use in lightprobe") {
            return Some(DeviceLightmapFlags::DontUseInLightprobe);
        }
        None
    }

    /// Every variant, in order of its stored value.
    pub fn variants() -> (r: Vec<Self>)
        ensures
            r@ == Self::spec_variants(),
            forall|k: int| 0 <= k < r@.len() ==> (#[trigger] r@[k]).spec_value() == k,
    {
        vec![DeviceLightmapFlags::DontUseInLightmap, DeviceLightmapFlags::DontUseInLightprobe]
    }
}

} // verus!
