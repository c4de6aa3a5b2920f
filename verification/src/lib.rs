//! Verified decision logic of a floating Wayland window manager built on swc.

#![allow(non_camel_case_types)]
#![allow(non_upper_case_globals)]

pub mod swc;
pub mod geometry;
pub mod idlist;
pub mod model;
pub mod wm;
pub mod text;
pub mod input;
pub mod laws;
