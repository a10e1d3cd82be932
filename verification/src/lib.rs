//! Halo tag-file library: bitmap pixel formats and decoders, the tag
//! data model with its block editing operations and its chunked on-disk
//! form, the classic (CE / H2) loose-tag codec, animation metadata and
//! codec planning, mesh and collision geometry helpers, and the option
//! sets of the object definition tags.
use vstd::prelude::*;

pub mod animation;
pub mod api;
pub mod area_screen_effect;
pub mod assign;
pub mod biped;
pub mod bitmap;
pub mod bytes;
pub mod chunk;
pub mod classic;
pub mod crate_definition;
pub mod damage_effect;
pub mod data;
pub mod dependencies;
pub mod device;
pub mod device_control;
pub mod editing;
pub mod equipment;
pub mod fields;
pub mod file;
pub mod geometry;
pub mod layout;
pub mod numtext;
pub mod path;
pub mod text;

verus! {

} // verus!
