use camera_fuse::codec::{encode_point_cloud, standard_schema, Point};
use camera_fuse::fixed::Q;
use camera_fuse::fuse::{CameraSetup, FusionCache};
use camera_fuse::message::{InputMessage, PointCloudInput};
use camera_fuse::pipeline::Worker;
use camera_fuse::project::CameraModel;

fn simple_model() -> CameraModel {
    CameraModel {
        width: 20,
        height: 20,
        r00: Q,
        r01: 0,
        r02: 0,
        r10: 0,
        r11: Q,
        r12: 0,
        r20: 0,
        r21: 0,
        r22: Q,
        t0: 0,
        t1: 0,
        t2: 0,
        fx: Q,
        fy: Q,
        cx: 10 * Q,
        cy: 10 * Q,
        k1: 0,
        k2: 0,
        k3: 0,
        p1: 0,
        p2: 0,
    }
}

fn point(x: f32, y: f32, z: f32) -> Point {
    Point {
        x_bits: x.to_bits(),
        y_bits: y.to_bits(),
        z_bits: z.to_bits(),
        intensity_bits: 1.0f32.to_bits(),
    }
}

fn cloud_of(n: usize) -> InputMessage {
    let points: Vec<Point> = (0..n).map(|_| point(0.0, 0.0, 10.0)).collect();
    InputMessage::PointCloud(PointCloudInput {
        fields: standard_schema(),
        point_step: 16,
        data: encode_point_cloud(&points),
    })
}

fn one_camera_cache() -> FusionCache {
    FusionCache::new(&vec![CameraSetup {
        model: Some(simple_model()),
        rotate_180: false,
    }])
    .unwrap()
}

#[test]
fn worker_delivers_outputs_in_original_order() {
    let (in_tx, in_rx) = flume::bounded(8);
    let (scene_tx, scene_rx) = flume::bounded(8);
    let (view_tx, view_rx) = flume::bounded(8);

    for n in 1..=4usize {
        in_tx.send(cloud_of(n)).unwrap();
    }
    drop(in_tx);

    let mut worker = Worker::new(one_camera_cache(), in_rx, scene_tx, vec![view_tx]);
    loop {
        if !worker.step() {
            break;
        }
    }
    drop(worker);

    for n in 1..=4usize {
        let scene = scene_rx.recv().unwrap();
        assert_eq!(scene.points.points.len(), n);
    }
    assert!(scene_rx.recv().is_err());

    for _ in 1..=4usize {
        let view = view_rx.recv().unwrap();
        assert_eq!(view.camera, 0);
    }
    assert!(view_rx.recv().is_err());
}

#[test]
fn outbound_queue_holds_exactly_its_capacity() {
    let (in_tx, in_rx) = flume::bounded(8);
    let (scene_tx, scene_rx) = flume::bounded(2);
    let (view_tx, view_rx) = flume::bounded(8);

    in_tx.send(cloud_of(1)).unwrap();
    in_tx.send(cloud_of(2)).unwrap();
    drop(in_tx);

    let mut worker = Worker::new(one_camera_cache(), in_rx, scene_tx, vec![view_tx]);
    assert!(worker.step());
    assert!(worker.step());
    // Two scene messages sit in the bounded queue, none dropped and none
    // reordered; a third update would stall until the consumer reads.
    assert_eq!(scene_rx.len(), 2);
    assert_eq!(scene_rx.recv().unwrap().points.points.len(), 1);
    assert_eq!(scene_rx.recv().unwrap().points.points.len(), 2);
    assert_eq!(view_rx.len(), 2);
}

#[test]
fn worker_stops_when_every_consumer_is_gone() {
    let (in_tx, in_rx) = flume::bounded(8);
    let (scene_tx, scene_rx) = flume::bounded(8);
    let (view_tx, view_rx) = flume::bounded(8);
    drop(scene_rx);
    drop(view_rx);

    in_tx.send(cloud_of(1)).unwrap();

    let mut worker = Worker::new(one_camera_cache(), in_rx, scene_tx, vec![view_tx]);
    assert!(!worker.step());
    drop(in_tx);
}

#[test]
fn worker_survives_bad_messages() {
    let (in_tx, in_rx) = flume::bounded(8);
    let (scene_tx, scene_rx) = flume::bounded(8);
    let (view_tx, view_rx) = flume::bounded(8);

    let mut bad = PointCloudInput {
        fields: standard_schema(),
        point_step: 8,
        data: vec![0u8; 16],
    };
    bad.fields[0].count = 3;
    in_tx.send(InputMessage::PointCloud(bad)).unwrap();
    in_tx.send(cloud_of(3)).unwrap();
    drop(in_tx);

    let mut worker = Worker::new(one_camera_cache(), in_rx, scene_tx, vec![view_tx]);
    loop {
        if !worker.step() {
            break;
        }
    }
    drop(worker);

    // The malformed message produced nothing; the next one flowed through.
    let scene = scene_rx.recv().unwrap();
    assert_eq!(scene.points.points.len(), 3);
    assert!(scene_rx.recv().is_err());
    assert_eq!(view_rx.len(), 1);
}
