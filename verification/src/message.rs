//! The input and output messages of the fusion engine.
//!
//! Inputs arrive from the transport layer as plain values; outputs carry
//! shared handles to the cache's current frames and associations, so that
//! arbitrarily many consumers read one allocation.

use vstd::prelude::*;
use std::sync::Arc;
use crate::codec::{CameraFrame, FieldDesc, ImageInput, PointCloudFrame};
use crate::detection::{Detection, DetectionInput};

verus! {

/// A point-cloud wire frame: the self-describing schema, the per-point
/// stride and the data bytes.
#[derive(Clone, Debug)]
pub struct PointCloudInput {
    pub fields: Vec<FieldDesc>,
    pub point_step: u32,
    pub data: Vec<u8>,
}

/// One input message: a point cloud for the scene, or an image or
/// detection set for one camera, named by its index.
#[derive(Debug)]
pub enum InputMessage {
    PointCloud(PointCloudInput),
    Image(usize, ImageInput),
    Detections(usize, Vec<DetectionInput>),
}

/// One association: a point of the current frame, by index, its pixel
/// position in one camera's image plane, and the detection whose rectangle
/// contains that position, by index, if any.
#[derive(Clone, Copy, Debug, PartialEq, Eq, Structural)]
pub struct Association {
    pub point_index: usize,
    pub px: i64,
    pub py: i64,
    pub detection: Option<usize>,
}

/// The message for scene consumers: the current point-cloud frame and, per
/// camera, the current associations.
#[derive(Clone, Debug)]
pub struct SceneMessage {
    pub points: Arc<PointCloudFrame>,
    pub assocs: Vec<Option<Arc<Vec<Association>>>>,
}

/// The message for one camera's view consumers: the camera's current
/// image, detection set and associations.
#[derive(Clone, Debug)]
pub struct CameraViewMessage {
    pub camera: usize,
    pub image: Option<Arc<CameraFrame>>,
    pub detections: Option<Arc<Vec<Detection>>>,
    pub assocs: Option<Arc<Vec<Association>>>,
}

/// One output message of the fusion engine.
#[derive(Clone, Debug)]
pub enum OutputMessage {
    Scene(SceneMessage),
    CameraView(CameraViewMessage),
}

} // verus!
