//! Coordinate types shared between geometries.
pub use self::coordinate2d::Coordinate2D;

pub mod coordinate2d;
