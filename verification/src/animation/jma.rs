//! JMA-family export kinds.
use vstd::prelude::*;

use crate::text::str_eq;

verus! {

/// JMA-family file kind, picked from the animation's type, frame-info
/// type and world-relative flag.
#[derive(Debug, Clone, Copy, PartialEq, Eq, Structural)]
pub enum JmaKind {
    /// Base animation, no movement data.
    Jmm,
    /// Base + dx/dy.
    Jma,
    /// Base + dx/dy/dyaw.
    Jmt,
    /// Base + dx/dy/dz/dyaw.
    Jmz,
    /// Overlay animation.
    Jmo,
    /// Replacement animation.
    Jmr,
    /// World-relative base animation.
    Jmw,
}

/// The kind for the given metadata (absent names read as `"base"` and
/// `"none"`).
pub open spec fn jma_kind_of(animation_type: Seq<char>, frame_info_type: Seq<char>, world_relative: bool) -> JmaKind {
    if animation_type == "overlay"@ {
        JmaKind::Jmo
    } else if animation_type == "replacement"@ {
        JmaKind::Jmr
    } else if world_relative {
        JmaKind::Jmw
    } else if frame_info_type == "dx,dy"@ {
        JmaKind::Jma
    } else if frame_info_type == "dx,dy,dyaw"@ {
        JmaKind::Jmt
    } else if frame_info_type == "dx,dy,dz,dyaw"@ || frame_info_type == "dx,dy,dz,dangle_axis"@ {
        JmaKind::Jmz
    } else {
        JmaKind::Jmm
    }
}

impl JmaKind {
    /// Upper-case file extension, without the dot.
    pub fn extension(self) -> (r: &'static str)
        ensures
            r@ == match self {
                JmaKind::Jmm => "JMM"@,
                JmaKind::Jma => "JMA"@,
                JmaKind::Jmt => "JMT"@,
                JmaKind::Jmz => "JMZ"@,
                JmaKind::Jmo => "JMO"@,
                JmaKind::Jmr => "JMR"@,
                JmaKind::Jmw => "JMW"@,
            },
    {
        match self {
            Self::Jmm => "JMM",
            Self::Jma => "JMA",
            Self::Jmt => "JMT",
            Self::Jmz => "JMZ",
            Self::Jmo => "JMO",
            Self::Jmr => "JMR",
            Self::Jmw => "JMW",
        }
    }

    /// Pick the kind: overlay and replacement types first, then the
    /// world-relative flag, then the frame-info type; a missing animation
    /// type counts as `"base"` and a missing frame-info type as
    /// `"none"`.
    pub fn from_metadata(animation_type: Option<&str>, frame_info_type: Option<&str>, world_relative: bool) -> (r: Self)
        ensures
            r == jma_kind_of(
                match animation_type {
                    Some(s) => s@,
                    None => "base"@,
                },
                match frame_info_type {
                    Some(s) => s@,
                    None => "none"@,
                },
                world_relative,
            ),
    {
        let at = match animation_type {
            Some(s) => s,
            None => "base",
        };
        if str_eq(at, "overlay") {
            return Self::Jmo;
        }
        if str_eq(at, "replacement") {
            return Self::Jmr;
        }
        if world_relative {
            return Self::Jmw;
        }
        let ft = match frame_info_type {
            Some(s) => s,
            None => "none",
        };
        if str_eq(ft, "dx,dy") {
            Self::Jma
        } else if str_eq(ft, "dx,dy,dyaw") {
            Self::Jmt
        } else if str_eq(ft, "dx,dy,dz,dyaw") || str_eq(ft, "dx,dy,dz,dangle_axis") {
            Self::Jmz
        } else {
            Self::Jmm
        }
    }

    /// Whether per-frame movement deltas are folded into the root bone
    /// (`JMA`, `JMT`, `JMZ`).
    pub fn folds_movement(self) -> (r: bool)
        ensures
            r == (self == JmaKind::Jma || self == JmaKind::Jmt || self == JmaKind::Jmz),
    {
        match self {
            Self::Jma | Self::Jmt | Self::Jmz => true,
            _ => false,
        }
    }

    /// Whether a leading rest-pose frame is written (`JMO`, `JMR`).
    pub fn prepends_rest_pose(self) -> (r: bool)
        ensures
            r == (self == JmaKind::Jmo || self == JmaKind::Jmr),
    {
        match self {
            Self::Jmo | Self::Jmr => true,
            _ => false,
        }
    }

    /// Whether a duplicated trailing frame is written (base kinds and
    /// `JMW`).
    pub fn appends_held_frame(self) -> (r: bool)
        ensures
            r == (self == JmaKind::Jmm || self == JmaKind::Jma || self == JmaKind::Jmt || self == JmaKind::Jmz || self
                == JmaKind::Jmw),
    {
        match self {
            Self::Jmm | Self::Jma | Self::Jmt | Self::Jmz | Self::Jmw => true,
            _ => false,
        }
    }

    /// Whether codec values are composed onto the rest pose (`JMO`).
    pub fn composes_overlay(self) -> (r: bool)
        ensures
            r == (self == JmaKind::Jmo),
    {
        match self {
            Self::Jmo => true,
            _ => false,
        }
    }

    /// Whether movement-data lines follow the transforms (`JMA`, `JMT`,
    /// `JMZ`).
    pub fn has_movement_data(self) -> (r: bool)
        ensures
            r == (self == JmaKind::Jma || self == JmaKind::Jmt || self == JmaKind::Jmz),
    {
        match self {
            Self::Jma | Self::Jmt | Self::Jmz => true,
            _ => false,
        }
    }

    /// Float components per movement-data frame (0 without movement
    /// data).
    pub fn movement_components(self) -> (r: usize)
        ensures
            r == match self {
                JmaKind::Jma => 2usize,
                JmaKind::Jmt => 3,
                JmaKind::Jmz => 4,
                _ => 0,
            },
    {
        match self {
            Self::Jma => 2,
            Self::Jmt => 3,
            Self::Jmz => 4,
            _ => 0,
        }
    }
}

/// Kinds with movement data are exactly those that fold movement, and
/// they write two to four components per frame.
pub proof fn lemma_movement_kinds(k: JmaKind)
    ensures
        (k == JmaKind::Jma || k == JmaKind::Jmt || k == JmaKind::Jmz) <==> match k {
            JmaKind::Jma => 2usize,
            JmaKind::Jmt => 3,
            JmaKind::Jmz => 4,
            _ => 0,
        } > 0,
{
}

} // verus!
