//! Index and shape logic of the PORA collision-risk hot loop.
//!
//! The risk metric itself is computed on `f64` grids; this crate holds the
//! integer part of that computation, each function with its contract: the
//! row-major layout of occupancy grids, which grid cells a bilinear sample
//! reads, and the dimensions of the AV-frame window, of the global grid and
//! of the horizon.
pub mod grid;
pub mod window;
