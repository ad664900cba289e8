//! Anti-aliased coverage for stroked polylines on a tiled raster map: a
//! fixed-point opacity model for dashed, capped strokes, and the integer
//! tile-index arithmetic of the Web Mercator grid.

pub mod opacity_calculator;
pub mod tile;
