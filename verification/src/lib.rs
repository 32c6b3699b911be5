//! Command encoding and worker planning for a pixel-flooding client.
//!
//! A raster image is cut into equally wide vertical columns, each column is
//! encoded once into a buffer of `PX <x> <y> <rrggbbaa>` lines, and every
//! buffer is handed to a worker that retransmits it without end.

pub mod column;
pub mod dispatch;
pub mod encode;
pub mod raster;
pub mod traversal;
pub mod worker;
