//! A verified compiler-environment facade for an interactive typesetting
//! host: virtual file, package and font registries, the incremental
//! main-file protocol a compilation pass needs, and a selectable-text
//! overlay generator aligned to rendered glyph outlines.

pub mod convert;
pub mod escape;
pub mod theme;
pub mod package;
pub mod session;
pub mod world;
pub mod numfmt;
pub mod text;
pub mod overlay;
pub mod transform;

use vstd::prelude::*;

verus! {

} // verus!
