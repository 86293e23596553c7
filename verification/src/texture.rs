//! Textures: colors that may vary over surface coordinates and position.

use vstd::prelude::*;
use crate::vec3::{Vec3, Point3, Color, color_ok};

verus! {

/// The closed set of texture variants the tracer supports.
#[derive(Clone, Copy, PartialEq, Eq, Structural, Debug)]
pub enum Texture {
    /// The same color at every point.
    SolidColor { color: Color },
}

/// The color a texture yields at surface coordinates `(u, v)` and point `p`.
pub open spec fn texture_value(t: Texture, u: int, v: int, p: Vec3) -> Color {
    match t {
        Texture::SolidColor { color } => color,
    }
}

/// A well-formed texture yields well-formed colors.
pub open spec fn texture_wf(t: Texture) -> bool {
    match t {
        Texture::SolidColor { color } => color_ok(color),
    }
}

impl Texture {
    /// A texture of one color everywhere.
    pub fn new_solid(c: Color) -> (t: Texture)
        ensures
            t == (Texture::SolidColor { color: c }),
    {
        Texture::SolidColor { color: c }
    }

    /// Samples the texture.
    pub fn value(&self, u: i64, v: i64, p: &Point3) -> (r: Color)
        ensures
            r == texture_value(*self, u as int, v as int, *p),
    {
        match self {
            Texture::SolidColor { color } => *color,
        }
    }
}

} // verus!
