//! Verified core of a Gaussian-splat renderer: a streaming importer for
//! splat point clouds stored in the PLY interchange format, and the typed
//! dispatch layer that tiles and orders GPU compute-kernel submissions.

pub mod bits;
pub mod catalog;
pub mod floats;
pub mod header;
pub mod kernels;
pub mod import;
pub mod record;
pub mod splats;
pub mod text;
