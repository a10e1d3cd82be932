//! Flag word of the `bloc` (crate) tag.
use vstd::prelude::*;

use crate::numtext::{ascii_lower, eq_ignore_ascii_case, eq_ignore_case};

verus! {

/// `crate_flags` (word_flags).
#[derive(Clone, Copy, PartialEq, Eq, Debug, Structural)]
pub enum CrateFlags {
    DoesNotBlockAoe,
    AttachTextureCameraHack,
}

impl CrateFlags {
    /// Every variant, in order of its stored value.
    pub open spec fn spec_variants() -> Seq<Self> {
        seq![CrateFlags::DoesNotBlockAoe, CrateFlags::AttachTextureCameraHack]
    }

    /// The value the tag stores for this variant.
    pub open spec fn spec_value(self) -> int {
        match self {
            CrateFlags::DoesNotBlockAoe => 0,
            CrateFlags::AttachTextureCameraHack => 1,
        }
    }

    /// The variant stored as `v`.
    pub open spec fn spec_from_value(v: int) -> Option<Self> {
        if 0 <= v < 2 {
            Some(Self::spec_variants()[v])
        } else {
            None
        }
    }

    /// The option name of this variant.
    pub open spec fn spec_name(self) -> Seq<char> {
        match self {
            CrateFlags::DoesNotBlockAoe => "does not block AOE"@,
            CrateFlags::AttachTextureCameraHack => "attach texture camera hack"@,
        }
    }

    /// The first variant whose name equals `s` up to ASCII case.
    pub open spec fn spec_from_name(s: Seq<char>) -> Option<Self> {
        if eq_ignore_case(s, "does not block AOE"@) {
            Some(CrateFlags::DoesNotBlockAoe)
        } else if eq_ignore_case(s, "attach texture camera hack"@) {
            Some(CrateFlags::AttachTextureCameraHack)
        } else {
            None
        }
    }

    /// No two option names are equal up to ASCII case, so each name
    /// parses back to its own variant.
    pub proof fn lemma_name_roundtrip(e: Self)
        ensures
            Self::spec_from_name(e.spec_name()) == Some(e),
    {
        reveal_strlit("does not block AOE");
        reveal_strlit("attach texture camera hack");
        match e {
            CrateFlags::DoesNotBlockAoe => {
                assert(eq_ignore_case("does not block AOE"@, "does not block AOE"@));
            },
            CrateFlags::AttachTextureCameraHack => {
                assert(!eq_ignore_case("attach texture camera hack"@, "does not block AOE"@));
                assert(eq_ignore_case("attach texture camera hack"@, "attach texture camera hack"@));
            },
        }
    }

    /// The value the tag stores for this variant.
    pub fn value(self) -> (r: u16)
        ensures
            r == self.spec_value(),
            Self::spec_from_value(r as int) == Some(self),
    {
        match self {
            CrateFlags::DoesNotBlockAoe => 0,
            CrateFlags::AttachTextureCameraHack => 1,
        }
    }

    /// The variant stored as `v`; `None` for a value no variant has.
    pub fn from_i64(v: i64) -> (r: Option<Self>)
        ensures
            r == Self::spec_from_value(v as int),
            r matches Some(e) ==> e.spec_value() == v,
    {
        match v {
            0 => Some(CrateFlags::DoesNotBlockAoe),
            1 => Some(CrateFlags::AttachTextureCameraHack),
            _ => None,
        }
    }

    /// The option name of this variant.
    pub fn name(self) -> (r: &'static str)
        ensures
            r@ == self.spec_name(),
            Self::spec_from_name(r@) == Some(self),
    {
        proof {
            Self::lemma_name_roundtrip(self);
        }
        match self {
            CrateFlags::DoesNotBlockAoe => "does not block AOE",
            CrateFlags::AttachTextureCameraHack => "attach texture camera hack",
        }
    }

    /// The variant named `s`, compared up to ASCII case; `None` when no
    /// option has that name.
    pub fn from_name(s: &str) -> (r: Option<Self>)
        ensures
            r == Self::spec_from_name(s@),
    {
        if eq_ignore_ascii_case(s, "does not block AOE") {
            return Some(CrateFlags::DoesNotBlockAoe);
        }
        if eq_ignore_ascii_case(s, "attach texture camera hack") {
            return Some(CrateFlags::AttachTextureCameraHack);
        }
        None
    }

    /// Every variant, in order of its stored value.
    pub fn variants() -> (r: Vec<Self>)
        ensures
            r@ == Self::spec_variants(),
            forall|k: int| 0 <= k < r@.len() ==> (#[trigger] r@[k]).spec_value() == k,
    {
        vec![CrateFlags::DoesNotBlockAoe, CrateFlags::AttachTextureCameraHack]
    }
}

} // verus!
