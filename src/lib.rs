//! Geometry of mosaic images: shapes, their key points and the subdivisions drawn from them.
//!
//! Coordinates are fixed-point integers: one pixel is `UNITS_PER_PIXEL` units, so that key
//! points are merged and compared exactly.
pub mod key_points;
pub mod mosaic_shape;
pub mod polygonal_mosaic;
pub mod segment;
pub mod starry_mosaic;
pub mod vector;

pub use self::segment::Segment;
pub use self::vector::Vector;
