//! The rules of a single-player physics toy: a red ball on a felt table that is rolled, flung
//! and made to jump, more balls that are dropped by clicking, and sounds for whatever meets.
//!
//! The crate decides; a browser around it performs. The page, the renderer, the sound player
//! and the physics engine hand plain values in and carry out the plain values that come back.
//! Everything that is compared or computed is a whole number; [`units`] says of what.

#![allow(non_snake_case, non_camel_case_types, non_upper_case_globals)]

pub mod audio;
pub mod box3d;
pub mod camera;
pub mod keyboard;
pub mod noise;
pub mod pacing;
pub mod physics;
pub mod pointer;
pub mod protocol;
pub mod scene;
pub mod settings;
pub mod shell;
pub mod stats;
pub mod table;
pub mod text;
pub mod units;
pub mod wasm_shim;
pub mod worker;
