//! A sensor-fusion engine: it decodes point-cloud and image wire frames,
//! projects 3D points into camera images, associates projected points with
//! 2D detection boxes through a spatial index, and keeps the derived state
//! consistent under a stream of heterogeneous input messages.

pub mod codec;
pub mod detection;
pub mod fixed;
pub mod fuse;
pub mod index;
pub mod message;
pub mod pipeline;
pub mod project;
