use std::sync::Arc;

use camera_fuse::codec::{encode_point_cloud, standard_schema, DecodeError, ImageInput, Point};
use camera_fuse::detection::DetectionInput;
use camera_fuse::fixed::Q;
use camera_fuse::fuse::{CameraSetup, FuseError, FusionCache};
use camera_fuse::message::{InputMessage, OutputMessage, PointCloudInput};
use camera_fuse::project::CameraModel;

fn simple_model() -> CameraModel {
    CameraModel {
        width: 20,
        height: 20,
        r00: Q,
        r01: 0,
        r02: 0,
        r10: 0,
        r11: Q,
        r12: 0,
        r20: 0,
        r21: 0,
        r22: Q,
        t0: 0,
        t1: 0,
        t2: 0,
        fx: Q,
        fy: Q,
        cx: 10 * Q,
        cy: 10 * Q,
        k1: 0,
        k2: 0,
        k3: 0,
        p1: 0,
        p2: 0,
    }
}

fn point(x: f32, y: f32, z: f32) -> Point {
    Point {
        x_bits: x.to_bits(),
        y_bits: y.to_bits(),
        z_bits: z.to_bits(),
        intensity_bits: 1.0f32.to_bits(),
    }
}

fn cloud_input(points: &[Point]) -> PointCloudInput {
    PointCloudInput {
        fields: standard_schema(),
        point_step: 16,
        data: encode_point_cloud(&points.to_vec()),
    }
}

fn det(cx: i64, cy: i64, sx: i64, sy: i64) -> DetectionInput {
    DetectionInput {
        cx,
        cy,
        sx,
        sy,
        class_id: None,
    }
}

fn image_for_model() -> ImageInput {
    ImageInput {
        height: 20,
        width: 20,
        encoding: "BGR8".to_owned(),
        big_endian: false,
        step: 60,
        data: vec![7u8; 1200],
    }
}

fn one_camera_cache() -> FusionCache {
    FusionCache::new(&vec![CameraSetup {
        model: Some(simple_model()),
        rotate_180: false,
    }])
    .unwrap()
}

#[test]
fn invalid_camera_model_is_rejected_at_construction() {
    let mut bad = simple_model();
    bad.width = 0;
    let r = FusionCache::new(&vec![CameraSetup {
        model: Some(bad),
        rotate_180: false,
    }]);
    assert!(r.is_err());
}

#[test]
fn scenario_detections_attach_to_projected_points() {
    let mut cache = one_camera_cache();

    // A point cloud arrives first: associations appear, none with a
    // detection, since no detection set is known yet.
    let p1 = cloud_input(&[point(2.0, 1.0, 4.0)]);
    let msgs = cache.update_point_cloud(&p1).unwrap();
    assert_eq!(msgs.len(), 2); // scene + one camera view
    let assocs = cache.cameras[0].assocs.as_ref().unwrap();
    assert_eq!(assocs.len(), 1);
    assert_eq!(assocs[0].point_index, 0);
    assert_eq!(assocs[0].px, 10 * Q + Q / 2);
    assert_eq!(assocs[0].py, 10 * Q + Q / 4);
    assert_eq!(assocs[0].detection, None);

    // A detection set for the camera: associations recompute, and the
    // projected point now carries the box containing its pixel.
    let d1 = vec![
        det(5 * Q, 5 * Q, Q, Q),
        det(10 * Q + Q / 2, 10 * Q + Q / 4, Q, Q),
    ];
    let msgs = cache.update_detections(0, &d1).unwrap();
    assert_eq!(msgs.len(), 2); // scene + camera view
    let assocs = cache.cameras[0].assocs.as_ref().unwrap();
    assert_eq!(assocs.len(), 1);
    assert_eq!(assocs[0].detection, Some(1));
    let model = simple_model();
    assert!(assocs[0].px >= 0 && assocs[0].px <= i64::from(model.width) * Q);
    assert!(assocs[0].py >= 0 && assocs[0].py <= i64::from(model.height) * Q);

    // A second point cloud: associations recompute against the same
    // detection set.
    let p2 = cloud_input(&[point(2.0, 1.0, 4.0), point(0.0, 0.0, 10.0)]);
    cache.update_point_cloud(&p2).unwrap();
    let assocs = cache.cameras[0].assocs.as_ref().unwrap();
    assert_eq!(assocs.len(), 2);
    assert_eq!(assocs[0].detection, Some(1));
    assert_eq!(assocs[1].point_index, 1);
    assert_eq!(assocs[1].px, 10 * Q);
    // The center pixel sits on the second box's left edge: borders are
    // inclusive, so the association carries that box.
    assert_eq!(assocs[1].detection, Some(1));
}

#[test]
fn image_message_changes_no_association_list() {
    let mut cache = one_camera_cache();
    cache
        .update_point_cloud(&cloud_input(&[point(2.0, 1.0, 4.0)]))
        .unwrap();
    cache
        .update_detections(0, &vec![det(10 * Q, 10 * Q, 2 * Q, 2 * Q)])
        .unwrap();
    let points_before = Arc::clone(cache.points.as_ref().unwrap());
    let assocs_before = Arc::clone(cache.cameras[0].assocs.as_ref().unwrap());

    let msgs = cache.update_image(0, &image_for_model()).unwrap();
    assert_eq!(msgs.len(), 1);
    assert!(matches!(msgs[0], OutputMessage::CameraView(_)));

    assert!(Arc::ptr_eq(
        &points_before,
        cache.points.as_ref().unwrap()
    ));
    assert!(Arc::ptr_eq(
        &assocs_before,
        cache.cameras[0].assocs.as_ref().unwrap()
    ));
    let image = cache.cameras[0].image.as_ref().unwrap();
    assert_eq!(image.data, vec![7u8; 1200]);
}

#[test]
fn detection_message_changes_no_point_cloud() {
    let mut cache = one_camera_cache();
    cache
        .update_point_cloud(&cloud_input(&[point(2.0, 1.0, 4.0)]))
        .unwrap();
    let points_before = Arc::clone(cache.points.as_ref().unwrap());
    cache
        .update_detections(0, &vec![det(10 * Q, 10 * Q, 2 * Q, 2 * Q)])
        .unwrap();
    assert!(Arc::ptr_eq(
        &points_before,
        cache.points.as_ref().unwrap()
    ));
}

#[test]
fn point_cloud_recomputes_only_calibrated_cameras() {
    let mut cache = FusionCache::new(&vec![
        CameraSetup {
            model: Some(simple_model()),
            rotate_180: false,
        },
        CameraSetup {
            model: None,
            rotate_180: false,
        },
    ])
    .unwrap();
    let msgs = cache
        .update_point_cloud(&cloud_input(&[point(2.0, 1.0, 4.0)]))
        .unwrap();
    assert_eq!(msgs.len(), 3); // scene + two camera views
    assert!(cache.cameras[0].assocs.is_some());
    assert!(cache.cameras[1].assocs.is_none());
}

#[test]
fn rotated_camera_stores_the_rotated_image() {
    let mut cache = FusionCache::new(&vec![CameraSetup {
        model: None,
        rotate_180: true,
    }])
    .unwrap();
    let img = ImageInput {
        height: 1,
        width: 2,
        encoding: "BGR8".to_owned(),
        big_endian: false,
        step: 6,
        data: vec![1, 2, 3, 4, 5, 6],
    };
    cache.update_image(0, &img).unwrap();
    let stored = cache.cameras[0].image.as_ref().unwrap();
    assert_eq!(stored.data, vec![4, 5, 6, 1, 2, 3]);
}

#[test]
fn wrong_image_size_is_dimension_mismatch_and_keeps_state() {
    let mut cache = one_camera_cache();
    cache
        .update_point_cloud(&cloud_input(&[point(2.0, 1.0, 4.0)]))
        .unwrap();
    let assocs_before = Arc::clone(cache.cameras[0].assocs.as_ref().unwrap());
    let img = ImageInput {
        height: 5,
        width: 5,
        encoding: "BGR8".to_owned(),
        big_endian: false,
        step: 15,
        data: vec![0u8; 75],
    };
    let r = cache.update_image(0, &img);
    assert_eq!(r.unwrap_err(), FuseError::DimensionMismatch);
    assert!(cache.cameras[0].image.is_none());
    assert!(Arc::ptr_eq(
        &assocs_before,
        cache.cameras[0].assocs.as_ref().unwrap()
    ));
}

#[test]
fn bad_point_cloud_keeps_the_cache_unchanged() {
    let mut cache = one_camera_cache();
    cache
        .update_point_cloud(&cloud_input(&[point(2.0, 1.0, 4.0)]))
        .unwrap();
    let points_before = Arc::clone(cache.points.as_ref().unwrap());
    let assocs_before = Arc::clone(cache.cameras[0].assocs.as_ref().unwrap());

    let mut bad = cloud_input(&[point(1.0, 1.0, 1.0)]);
    bad.fields[0].name = "a".to_owned();
    let r = cache.update_point_cloud(&bad);
    assert_eq!(
        r.unwrap_err(),
        FuseError::Decode(DecodeError::SchemaMismatch)
    );
    assert!(Arc::ptr_eq(&points_before, cache.points.as_ref().unwrap()));
    assert!(Arc::ptr_eq(
        &assocs_before,
        cache.cameras[0].assocs.as_ref().unwrap()
    ));

    let mut bad_stride = cloud_input(&[point(1.0, 1.0, 1.0)]);
    bad_stride.point_step = 8;
    assert_eq!(
        cache.update_point_cloud(&bad_stride).unwrap_err(),
        FuseError::Decode(DecodeError::InvalidStride)
    );
    assert!(Arc::ptr_eq(&points_before, cache.points.as_ref().unwrap()));
}

#[test]
fn unknown_camera_is_rejected() {
    let mut cache = one_camera_cache();
    assert_eq!(
        cache.update_image(3, &image_for_model()).unwrap_err(),
        FuseError::UnknownCamera
    );
    assert_eq!(
        cache.update_detections(3, &vec![]).unwrap_err(),
        FuseError::UnknownCamera
    );
}

#[test]
fn update_dispatches_by_message_kind() {
    let mut cache = one_camera_cache();
    let msgs = cache
        .update(&InputMessage::PointCloud(cloud_input(&[point(
            2.0, 1.0, 4.0,
        )])))
        .unwrap();
    assert_eq!(msgs.len(), 2);
    match &msgs[0] {
        OutputMessage::Scene(s) => {
            assert_eq!(s.points.points.len(), 1);
            assert_eq!(s.assocs.len(), 1);
            assert!(s.assocs[0].is_some());
        }
        OutputMessage::CameraView(_) => panic!("scene message must come first"),
    }
    match &msgs[1] {
        OutputMessage::CameraView(v) => {
            assert_eq!(v.camera, 0);
            assert!(v.assocs.is_some());
            assert!(v.image.is_none());
        }
        OutputMessage::Scene(_) => panic!("camera view must follow the scene message"),
    }
    let msgs = cache
        .update(&InputMessage::Detections(0, vec![det(Q, Q, Q, Q)]))
        .unwrap();
    assert_eq!(msgs.len(), 2);
    let msgs = cache
        .update(&InputMessage::Image(0, image_for_model()))
        .unwrap();
    assert_eq!(msgs.len(), 1);
}
