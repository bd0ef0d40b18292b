//! The fusion cache: the incremental-recompute state machine.
//!
//! The cache owns the latest decoded point cloud, one state per camera
//! (image, detection set with its spatial index, and point-detection
//! associations), and recomputes, on each input message, exactly the
//! derived state that depends on what the message replaced: a point cloud
//! recomputes every calibrated camera's associations, an image recomputes
//! nothing, and a detection set rebuilds one camera's index and
//! associations. Associations are never served stale: whenever they are
//! present they agree with the current point cloud and the camera's
//! current detection set.

use vstd::prelude::*;
use std::sync::Arc;
use crate::codec::{
    decode_image, decode_point_cloud, CameraFrame, DecodeError, ImageInput, Point, PointCloudFrame,
    spec_decode_points, spec_decoded_pixels, spec_image_error, spec_point_cloud_error,
    spec_rotate_180,
};
use crate::detection::{
    detections_from_inputs, Detection, DetectionInput, spec_detection_of, spec_rect_contains,
};
use crate::index::{spec_corner_contains, spec_corners_of, SpatialIndex};
use crate::message::{
    Association, CameraViewMessage, InputMessage, OutputMessage, PointCloudInput, SceneMessage,
};
use crate::project::{CameraModel, ConfigError, ProjectedPoint, spec_projected};

verus! {

/// The per-message errors of the fusion core. Each is recoverable: the
/// offending message is dropped and the cache keeps its last-known-good
/// state.
#[derive(Clone, Copy, Debug, PartialEq, Eq, Structural)]
pub enum FuseError {
    /// A frame failed to decode.
    Decode(DecodeError),
    /// An image's size does not match the camera's configured size.
    DimensionMismatch,
    /// A message names a camera index that the cache was not built with.
    UnknownCamera,
}

/// The static per-camera configuration the cache is built from.
#[derive(Clone, Copy, Debug)]
pub struct CameraSetup {
    /// The camera's model; a camera without one shows images but never
    /// gets associations.
    pub model: Option<CameraModel>,
    /// Whether incoming images of this camera are rotated by 180 degrees.
    pub rotate_180: bool,
}

/// The cached state of one camera.
pub struct CameraState {
    pub model: Option<CameraModel>,
    pub rotate_180: bool,
    pub image: Option<Arc<CameraFrame>>,
    pub detections: Option<Arc<Vec<Detection>>>,
    pub index: Option<SpatialIndex>,
    pub assocs: Option<Arc<Vec<Association>>>,
}

/// The fusion cache.
pub struct FusionCache {
    pub points: Option<Arc<PointCloudFrame>>,
    pub cameras: Vec<CameraState>,
}

/// Whether one association entry is right for one projected point: it
/// carries the point's index and pixel position, and names a detection
/// containing the position exactly when the detection set is known and
/// some detection contains it.
pub open spec fn spec_assoc_ok(
    e: ProjectedPoint,
    dets: Option<Seq<Detection>>,
    a: Association,
) -> bool {
    &&& a.point_index == e.index
    &&& a.px == e.px
    &&& a.py == e.py
    &&& match dets {
        None => a.detection is None,
        Some(ds) => match a.detection {
            Some(j) => j < ds.len() && spec_rect_contains(ds[j as int], e.px as int, e.py as int),
            None => forall|j: int|
                0 <= j < ds.len() ==> !spec_rect_contains(#[trigger] ds[j], e.px as int, e.py as int),
        },
    }
}

/// Whether an association list is consistent with a point cloud, a camera
/// model and an optional detection set: one entry per projected point, in
/// projection order.
pub open spec fn spec_assocs_ok(
    m: CameraModel,
    pts: Seq<Point>,
    dets: Option<Seq<Detection>>,
    assocs: Seq<Association>,
) -> bool {
    let proj = spec_projected(m, pts);
    &&& assocs.len() == proj.len()
    &&& forall|i: int| 0 <= i < proj.len() ==> spec_assoc_ok(proj[i], dets, #[trigger] assocs[i])
}

/// The detection sequence behind an optional shared detection set.
pub open spec fn spec_dets_view(d: Option<Arc<Vec<Detection>>>) -> Option<Seq<Detection>> {
    match d {
        Some(v) => Some(v@),
        None => None,
    }
}

impl CameraState {
    /// The camera's cached state is internally consistent, given the
    /// cache's current point cloud: the model is valid, the index belongs
    /// to the detection set, and associations exist exactly when both the
    /// point cloud and the model do — and then agree with them.
    pub open spec fn wf(self, points: Option<Seq<Point>>) -> bool {
        &&& match self.model {
            Some(m) => m.wf(),
            None => true,
        }
        &&& match self.image {
            Some(f) => f.wf(),
            None => true,
        }
        &&& (self.detections is Some <==> self.index is Some)
        &&& match (self.detections, self.index) {
            (Some(ds), Some(ix)) => {
                &&& ix.indexes(ds@)
                &&& forall|i: int| 0 <= i < ds@.len() ==> (#[trigger] ds@[i]).wf()
            },
            _ => true,
        }
        &&& (self.assocs is Some <==> (points is Some && self.model is Some))
        &&& match (self.assocs, points, self.model) {
            (Some(a), Some(pts), Some(m)) => spec_assocs_ok(
                m,
                pts,
                spec_dets_view(self.detections),
                a@,
            ),
            _ => true,
        }
    }
}

impl FusionCache {
    /// The current point sequence, if a frame is cached.
    pub open spec fn points_view(self) -> Option<Seq<Point>> {
        match self.points {
            Some(p) => Some(p.points@),
            None => None,
        }
    }

    /// Every camera's state is consistent with the current point cloud.
    pub open spec fn wf(self) -> bool {
        forall|c: int|
            0 <= c < self.cameras@.len() ==> (#[trigger] self.cameras@[c]).wf(self.points_view())
    }
}

/// Computes one camera's associations: one entry per projected point, its
/// containing detection looked up in the camera's spatial index when a
/// detection set is known.
fn compute_assocs(
    m: &CameraModel,
    pts: &Vec<Point>,
    dets: Option<&Vec<Detection>>,
    index: Option<&SpatialIndex>,
) -> (r: Vec<Association>)
    requires
        m.wf(),
        dets is Some <==> index is Some,
        match (dets, index) {
            (Some(ds), Some(ix)) => ix.indexes(ds@) && forall|i: int|
                0 <= i < ds@.len() ==> (#[trigger] ds@[i]).wf(),
            _ => true,
        },
    ensures
        spec_assocs_ok(
            *m,
            pts@,
            match dets {
                Some(ds) => Some(ds@),
                None => None,
            },
            r@,
        ),
{
    let ghost dview: Option<Seq<Detection>> = match dets {
        Some(ds) => Some(ds@),
        None => None,
    };
    let proj = m.project(pts);
    let n = proj.len();
    let mut out: Vec<Association> = Vec::new();
    let mut k: usize = 0;
    while k < n
        invariant
            m.wf(),
            proj@ == spec_projected(*m, pts@),
            n == proj@.len(),
            k <= n,
            out@.len() == k,
            dets is Some <==> index is Some,
            match (dets, index) {
                (Some(ds), Some(ix)) => ix.indexes(ds@) && forall|i: int|
                    0 <= i < ds@.len() ==> (#[trigger] ds@[i]).wf(),
                _ => true,
            },
            dview == match dets {
                Some(ds) => Some(ds@),
                None => None,
            },
            forall|i: int| 0 <= i < k ==> spec_assoc_ok(proj@[i], dview, #[trigger] out@[i]),
        decreases n - k,
    {
        let e = proj[k];
        let found: Option<usize> = match index {
            Some(ix) => ix.find(e.px, e.py),
            None => None,
        };
        proof {
            if let (Some(ds), Some(ix)) = (dets, index) {
                match found {
                    Some(j) => {
                        assert(ix@[j as int] == spec_corners_of(ds@[j as int]));
                        assert(ds@[j as int].wf());
                        assert(spec_rect_contains(ds@[j as int], e.px as int, e.py as int));
                    },
                    None => {
                        assert forall|j: int| 0 <= j < ds@.len() implies !spec_rect_contains(
                            #[trigger] ds@[j],
                            e.px as int,
                            e.py as int,
                        ) by {
                            assert(ix@[j] == spec_corners_of(ds@[j]));
                            assert(ds@[j].wf());
                            assert(!spec_corner_contains(ix@[j], e.px as int, e.py as int));
                        }
                    },
                }
            }
        }
        out.push(Association { point_index: e.index, px: e.px, py: e.py, detection: found });
        k = k + 1;
    }
    out
}

impl FusionCache {
    /// Builds an empty cache over the given cameras. Fails — before the
    /// pipeline starts — when any configured camera model is malformed.
    pub fn new(cameras: &Vec<CameraSetup>) -> (r: Result<FusionCache, ConfigError>)
        ensures
            match r {
                Ok(cache) => {
                    &&& cache.wf()
                    &&& cache.points is None
                    &&& cache.cameras@.len() == cameras@.len()
                    &&& forall|c: int|
                        0 <= c < cameras@.len() ==> {
                            let st = #[trigger] cache.cameras@[c];
                            &&& st.model == cameras@[c].model
                            &&& st.rotate_180 == cameras@[c].rotate_180
                            &&& st.image is None
                            &&& st.detections is None
                            &&& st.index is None
                            &&& st.assocs is None
                        }
                },
                Err(e) => {
                    &&& e == ConfigError::InvalidCameraParameter
                    &&& exists|c: int|
                        0 <= c < cameras@.len() && ((#[trigger] cameras@[c].model) matches Some(m)
                            && !m.wf())
                },
            },
    {
        let n = cameras.len();
        let mut states: Vec<CameraState> = Vec::new();
        let mut c: usize = 0;
        while c < n
            invariant
                n == cameras@.len(),
                c <= n,
                states@.len() == c,
                forall|i: int|
                    0 <= i < c ==> {
                        let st = #[trigger] states@[i];
                        &&& st.model == cameras@[i].model
                        &&& st.rotate_180 == cameras@[i].rotate_180
                        &&& st.image is None
                        &&& st.detections is None
                        &&& st.index is None
                        &&& st.assocs is None
                        &&& (st.model matches Some(m) ==> m.wf())
                    },
            decreases n - c,
        {
            let setup = &cameras[c];
            if let Some(m) = &setup.model {
                if let Err(e) = m.check() {
                    return Err(e);
                }
            }
            states.push(
                CameraState {
                    model: setup.model,
                    rotate_180: setup.rotate_180,
                    image: None,
                    detections: None,
                    index: None,
                    assocs: None,
                },
            );
            c = c + 1;
        }
        Ok(FusionCache { points: None, cameras: states })
    }
}

/// The error that an image update reports for one camera, if any: the
/// size check against the camera's configured model first, then the
/// decode.
pub open spec fn spec_image_update_error(c: CameraState, input: ImageInput) -> Option<FuseError> {
    let size_bad = match c.model {
        Some(m) => input.height != m.height || input.width != m.width,
        None => false,
    };
    if size_bad {
        Some(FuseError::DimensionMismatch)
    } else {
        match spec_image_error(input) {
            Some(e) => Some(FuseError::Decode(e)),
            None => None,
        }
    }
}

/// What a successful image update leaves behind: only the named camera's
/// image changes, to the decoded (and, if configured, rotated) frame; no
/// association list changes anywhere; and the one output message carries
/// the camera's current handles.
pub open spec fn spec_image_updated(
    prev: FusionCache,
    next: FusionCache,
    camera: int,
    input: ImageInput,
    msgs: Seq<OutputMessage>,
) -> bool {
    let c0 = prev.cameras@[camera];
    let c1 = next.cameras@[camera];
    &&& next.points == prev.points
    &&& next.cameras@.len() == prev.cameras@.len()
    &&& forall|i: int|
        0 <= i < prev.cameras@.len() && i != camera ==> next.cameras@[i] == #[trigger] prev.cameras@[i]
    &&& c1.model == c0.model
    &&& c1.rotate_180 == c0.rotate_180
    &&& c1.detections == c0.detections
    &&& c1.index == c0.index
    &&& c1.assocs == c0.assocs
    &&& (c1.image matches Some(f) && f.height == input.height && f.width == input.width && f.wf()
        && f.data@ == (if c0.rotate_180 {
        spec_rotate_180(spec_decoded_pixels(input))
    } else {
        spec_decoded_pixels(input)
    }))
    &&& msgs.len() == 1
    &&& (msgs[0] matches OutputMessage::CameraView(v) && v.camera == camera && v.image == c1.image
        && v.detections == c1.detections && v.assocs == c1.assocs)
}

impl FusionCache {
    /// Replaces one camera's image. Nothing else changes: pixels do not
    /// affect geometry, so no association is recomputed.
    pub fn update_image(&mut self, camera: usize, input: &ImageInput) -> (r: Result<
        Vec<OutputMessage>,
        FuseError,
    >)
        requires
            old(self).wf(),
        ensures
            final(self).wf(),
            camera >= old(self).cameras@.len() ==> r == Err::<Vec<OutputMessage>, FuseError>(
                FuseError::UnknownCamera,
            ) && *final(self) == *old(self),
            camera < old(self).cameras@.len() ==> match spec_image_update_error(
                old(self).cameras@[camera as int],
                *input,
            ) {
                Some(e) => r == Err::<Vec<OutputMessage>, FuseError>(e) && *final(self) == *old(
                    self,
                ),
                None => (r matches Ok(msgs) && spec_image_updated(
                    *old(self),
                    *final(self),
                    camera as int,
                    *input,
                    msgs@,
                )),
            },
    {
        if camera >= self.cameras.len() {
            return Err(FuseError::UnknownCamera);
        }
        match &self.cameras[camera].model {
            Some(m) => {
                if input.height != m.height || input.width != m.width {
                    return Err(FuseError::DimensionMismatch);
                }
            },
            None => {},
        }
        let frame = match decode_image(input) {
            Ok(f) => f,
            Err(e) => {
                return Err(FuseError::Decode(e));
            },
        };
        let frame = if self.cameras[camera].rotate_180 {
            frame.rotated_180()
        } else {
            frame
        };
        self.cameras[camera].image = Some(Arc::new(frame));
        let cam = &self.cameras[camera];
        let msg = OutputMessage::CameraView(
            CameraViewMessage {
                camera,
                image: clone_opt_arc(&cam.image),
                detections: clone_opt_arc(&cam.detections),
                assocs: clone_opt_arc(&cam.assocs),
            },
        );
        let mut msgs: Vec<OutputMessage> = Vec::new();
        msgs.push(msg);
        Ok(msgs)
    }
}

/// A fresh handle to the same optional shared value.
fn clone_opt_arc<T>(a: &Option<Arc<T>>) -> (r: Option<Arc<T>>)
    ensures
        r == *a,
{
    match a {
        Some(v) => Some(v.clone()),
        None => None,
    }
}

/// Whether a message is the scene message of the cache's current state:
/// the point-cloud handle and one association handle per camera.
pub open spec fn spec_scene_msg(cache: FusionCache, msg: OutputMessage) -> bool {
    match msg {
        OutputMessage::Scene(s) => {
            &&& (cache.points matches Some(p) && s.points == p)
            &&& s.assocs@.len() == cache.cameras@.len()
            &&& forall|c: int|
                0 <= c < cache.cameras@.len() ==> s.assocs@[c] == (
                #[trigger] cache.cameras@[c]).assocs
        },
        _ => false,
    }
}

/// Whether a message is the view message of one camera's current state.
pub open spec fn spec_view_msg(cache: FusionCache, camera: int, msg: OutputMessage) -> bool {
    match msg {
        OutputMessage::CameraView(v) => {
            &&& v.camera == camera
            &&& v.image == cache.cameras@[camera].image
            &&& v.detections == cache.cameras@[camera].detections
            &&& v.assocs == cache.cameras@[camera].assocs
        },
        _ => false,
    }
}

impl FusionCache {
    /// The view message of one camera's current state.
    fn make_view_msg(&self, camera: usize) -> (m: OutputMessage)
        requires
            camera < self.cameras@.len(),
        ensures
            spec_view_msg(*self, camera as int, m),
    {
        let cam = &self.cameras[camera];
        OutputMessage::CameraView(
            CameraViewMessage {
                camera,
                image: clone_opt_arc(&cam.image),
                detections: clone_opt_arc(&cam.detections),
                assocs: clone_opt_arc(&cam.assocs),
            },
        )
    }

    /// The scene message of the cache's current state.
    fn make_scene_msg(&self) -> (m: OutputMessage)
        requires
            self.points is Some,
        ensures
            spec_scene_msg(*self, m),
    {
        let points = match &self.points {
            Some(p) => p.clone(),
            None => {
                proof {
                    assert(false);
                }
                unreached()
            },
        };
        let n = self.cameras.len();
        let mut assocs: Vec<Option<Arc<Vec<Association>>>> = Vec::new();
        let mut c: usize = 0;
        while c < n
            invariant
                n == self.cameras@.len(),
                c <= n,
                assocs@.len() == c,
                forall|i: int| 0 <= i < c ==> assocs@[i] == (#[trigger] self.cameras@[i]).assocs,
            decreases n - c,
        {
            assocs.push(clone_opt_arc(&self.cameras[c].assocs));
            c = c + 1;
        }
        OutputMessage::Scene(SceneMessage { points, assocs })
    }
}

/// What a successful detection-set update leaves behind: the named
/// camera's detection set and index are rebuilt from the message, its
/// associations are recomputed against the current point cloud when one
/// is known, nothing else changes, and the outputs are the scene message
/// (when a point cloud is known) followed by the camera's view message.
pub open spec fn spec_detections_updated(
    prev: FusionCache,
    next: FusionCache,
    camera: int,
    inputs: Seq<DetectionInput>,
    msgs: Seq<OutputMessage>,
) -> bool {
    let c0 = prev.cameras@[camera];
    let c1 = next.cameras@[camera];
    &&& next.points == prev.points
    &&& next.cameras@.len() == prev.cameras@.len()
    &&& forall|i: int|
        0 <= i < prev.cameras@.len() && i != camera ==> next.cameras@[i] == #[trigger] prev.cameras@[i]
    &&& c1.model == c0.model
    &&& c1.rotate_180 == c0.rotate_180
    &&& c1.image == c0.image
    &&& (c1.detections matches Some(ds) && ds@.len() == inputs.len() && (forall|i: int|
        0 <= i < inputs.len() ==> spec_detection_of(inputs[i], #[trigger] ds@[i])))
    &&& if prev.points is Some && c0.model is Some {
        c1.assocs matches Some(a) && spec_assocs_ok(
            c0.model->Some_0,
            prev.points->Some_0.points@,
            spec_dets_view(c1.detections),
            a@,
        )
    } else {
        c1.assocs == c0.assocs
    }
    &&& if prev.points is Some {
        msgs.len() == 2 && spec_scene_msg(next, msgs[0]) && spec_view_msg(next, camera, msgs[1])
    } else {
        msgs.len() == 1 && spec_view_msg(next, camera, msgs[0])
    }
}

impl FusionCache {
    /// Replaces one camera's detection set: rebuilds that camera's spatial
    /// index, recomputes that camera's associations against the current
    /// point cloud if one is known, and touches nothing else.
    pub fn update_detections(&mut self, camera: usize, inputs: &Vec<DetectionInput>) -> (r: Result<
        Vec<OutputMessage>,
        FuseError,
    >)
        requires
            old(self).wf(),
        ensures
            final(self).wf(),
            camera >= old(self).cameras@.len() ==> r == Err::<Vec<OutputMessage>, FuseError>(
                FuseError::UnknownCamera,
            ) && *final(self) == *old(self),
            camera < old(self).cameras@.len() ==> (r matches Ok(msgs) && spec_detections_updated(
                *old(self),
                *final(self),
                camera as int,
                inputs@,
                msgs@,
            )),
    {
        if camera >= self.cameras.len() {
            return Err(FuseError::UnknownCamera);
        }
        let dets = detections_from_inputs(inputs);
        let ix = SpatialIndex::build(&dets);
        let model_opt = self.cameras[camera].model;
        let new_assocs: Option<Arc<Vec<Association>>> = match (&self.points, &model_opt) {
            (Some(p), Some(m)) => Some(
                Arc::new(compute_assocs(m, &p.points, Some(&dets), Some(&ix))),
            ),
            _ => clone_opt_arc(&self.cameras[camera].assocs),
        };
        self.cameras[camera].detections = Some(Arc::new(dets));
        self.cameras[camera].index = Some(ix);
        self.cameras[camera].assocs = new_assocs;
        let mut msgs: Vec<OutputMessage> = Vec::new();
        if self.points.is_some() {
            let scene = self.make_scene_msg();
            msgs.push(scene);
        }
        let view = self.make_view_msg(camera);
        msgs.push(view);
        Ok(msgs)
    }
}

/// What a successful point-cloud update leaves behind: the frame is
/// replaced by the decoded points; every camera with a model gets its
/// associations recomputed against the new frame and its current
/// detection set, cameras without a model are untouched; and the outputs
/// are the scene message followed by every camera's view message, in
/// camera order.
pub open spec fn spec_point_cloud_updated(
    prev: FusionCache,
    next: FusionCache,
    input: PointCloudInput,
    msgs: Seq<OutputMessage>,
) -> bool {
    &&& next.cameras@.len() == prev.cameras@.len()
    &&& (next.points matches Some(p) && p.points@ == spec_decode_points(
        input.data@,
        input.point_step as int,
    ))
    &&& forall|c: int|
        0 <= c < prev.cameras@.len() ==> {
            let c0 = #[trigger] prev.cameras@[c];
            let c1 = next.cameras@[c];
            &&& c1.model == c0.model
            &&& c1.rotate_180 == c0.rotate_180
            &&& c1.image == c0.image
            &&& c1.detections == c0.detections
            &&& c1.index == c0.index
            &&& if c0.model is Some {
                c1.assocs matches Some(a) && spec_assocs_ok(
                    c0.model->Some_0,
                    next.points->Some_0.points@,
                    spec_dets_view(c0.detections),
                    a@,
                )
            } else {
                c1.assocs == c0.assocs
            }
        }
    &&& msgs.len() == 1 + prev.cameras@.len()
    &&& spec_scene_msg(next, msgs[0])
    &&& forall|c: int| 0 <= c < prev.cameras@.len() ==> spec_view_msg(next, c, #[trigger] msgs[1 + c])
}

impl FusionCache {
    /// Replaces the point cloud: decodes the frame, then recomputes the
    /// associations of every camera that has a model, each against that
    /// camera's current detection set; cameras without a model keep
    /// theirs untouched.
    pub fn update_point_cloud(&mut self, input: &PointCloudInput) -> (r: Result<
        Vec<OutputMessage>,
        FuseError,
    >)
        requires
            old(self).wf(),
        ensures
            final(self).wf(),
            match spec_point_cloud_error(
                input.fields@,
                input.point_step as int,
                input.data@.len() as int,
            ) {
                Some(e) => r == Err::<Vec<OutputMessage>, FuseError>(FuseError::Decode(e))
                    && *final(self) == *old(self),
                None => (r matches Ok(msgs) && spec_point_cloud_updated(
                    *old(self),
                    *final(self),
                    *input,
                    msgs@,
                )),
            },
    {
        let frame = match decode_point_cloud(&input.fields, input.point_step, &input.data) {
            Ok(f) => f,
            Err(e) => {
                return Err(FuseError::Decode(e));
            },
        };
        let pts = Arc::new(frame);
        self.points = Some(pts.clone());
        let n = self.cameras.len();
        let mut c: usize = 0;
        while c < n
            invariant
                n == self.cameras@.len(),
                n == old(self).cameras@.len(),
                c <= n,
                self.points matches Some(p) && p == pts,
                forall|i: int|
                    c <= i < n ==> self.cameras@[i] == #[trigger] old(self).cameras@[i],
                forall|i: int|
                    0 <= i < n ==> (#[trigger] old(self).cameras@[i]).wf(
                        old(self).points_view(),
                    ),
                forall|i: int|
                    0 <= i < c ==> {
                        let c0 = #[trigger] old(self).cameras@[i];
                        let c1 = self.cameras@[i];
                        &&& c1.model == c0.model
                        &&& c1.rotate_180 == c0.rotate_180
                        &&& c1.image == c0.image
                        &&& c1.detections == c0.detections
                        &&& c1.index == c0.index
                        &&& if c0.model is Some {
                            c1.assocs matches Some(a) && spec_assocs_ok(
                                c0.model->Some_0,
                                pts.points@,
                                spec_dets_view(c0.detections),
                                a@,
                            )
                        } else {
                            c1.assocs == c0.assocs
                        }
                    },
            decreases n - c,
        {
            proof {
                assert(old(self).cameras@[c as int].wf(old(self).points_view()));
                assert(self.cameras@[c as int] == old(self).cameras@[c as int]);
            }
            let model_opt = self.cameras[c].model;
            match model_opt {
                Some(m) => {
                    let a = {
                        let cam = &self.cameras[c];
                        match (&cam.detections, &cam.index) {
                            (Some(ds), Some(ix)) => compute_assocs(&m, &pts.points, Some(ds), Some(ix)),
                            _ => compute_assocs(&m, &pts.points, None, None),
                        }
                    };
                    self.cameras[c].assocs = Some(Arc::new(a));
                },
                None => {},
            }
            c = c + 1;
        }
        proof {
            assert forall|i: int| 0 <= i < n implies (#[trigger] self.cameras@[i]).wf(
                self.points_view(),
            ) by {
                assert(old(self).cameras@[i].wf(old(self).points_view()));
            }
        }
        let mut msgs: Vec<OutputMessage> = Vec::new();
        let scene = self.make_scene_msg();
        msgs.push(scene);
        let mut v: usize = 0;
        while v < n
            invariant
                n == self.cameras@.len(),
                v <= n,
                msgs@.len() == 1 + v,
                spec_scene_msg(*self, msgs@[0]),
                forall|i: int| 0 <= i < v ==> spec_view_msg(*self, i, #[trigger] msgs@[1 + i]),
            decreases n - v,
        {
            let m = self.make_view_msg(v);
            msgs.push(m);
            v = v + 1;
        }
        Ok(msgs)
    }

    /// Processes one input message: decodes it, replaces the state it
    /// carries, recomputes exactly the derived state that depends on it,
    /// and returns the output messages for the consumers it affects. On
    /// an error the cache is unchanged.
    pub fn update(&mut self, msg: &InputMessage) -> (r: Result<Vec<OutputMessage>, FuseError>)
        requires
            old(self).wf(),
        ensures
            final(self).wf(),
            match msg {
                InputMessage::PointCloud(input) => match spec_point_cloud_error(
                    input.fields@,
                    input.point_step as int,
                    input.data@.len() as int,
                ) {
                    Some(e) => r == Err::<Vec<OutputMessage>, FuseError>(FuseError::Decode(e))
                        && *final(self) == *old(self),
                    None => (r matches Ok(msgs) && spec_point_cloud_updated(
                        *old(self),
                        *final(self),
                        *input,
                        msgs@,
                    )),
                },
                InputMessage::Image(camera, input) => {
                    if *camera >= old(self).cameras@.len() {
                        r == Err::<Vec<OutputMessage>, FuseError>(FuseError::UnknownCamera)
                            && *final(self) == *old(self)
                    } else {
                        match spec_image_update_error(old(self).cameras@[*camera as int], *input) {
                            Some(e) => r == Err::<Vec<OutputMessage>, FuseError>(e) && *final(self)
                                == *old(self),
                            None => (r matches Ok(msgs) && spec_image_updated(
                                *old(self),
                                *final(self),
                                *camera as int,
                                *input,
                                msgs@,
                            )),
                        }
                    }
                },
                InputMessage::Detections(camera, inputs) => {
                    if *camera >= old(self).cameras@.len() {
                        r == Err::<Vec<OutputMessage>, FuseError>(FuseError::UnknownCamera)
                            && *final(self) == *old(self)
                    } else {
                        r matches Ok(msgs) && spec_detections_updated(
                            *old(self),
                            *final(self),
                            *camera as int,
                            inputs@,
                            msgs@,
                        )
                    }
                },
            },
    {
        match msg {
            InputMessage::PointCloud(input) => self.update_point_cloud(input),
            InputMessage::Image(camera, input) => self.update_image(*camera, input),
            InputMessage::Detections(camera, inputs) => self.update_detections(*camera, inputs),
        }
    }
}

} // verus!
