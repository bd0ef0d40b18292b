use camera_fuse::detection::{detections_from_inputs, Detection, DetectionInput, DET_LIMIT};
use camera_fuse::fixed::Q;
use camera_fuse::index::SpatialIndex;

fn det(cx: i64, cy: i64, sx: i64, sy: i64) -> DetectionInput {
    DetectionInput {
        cx,
        cy,
        sx,
        sy,
        class_id: None,
    }
}

#[test]
fn input_boxes_become_top_left_rectangles() {
    let d = Detection::from_input(&det(10 * Q, 8 * Q, 4 * Q, 2 * Q));
    assert_eq!(d.x, 8 * Q);
    assert_eq!(d.y, 7 * Q);
    assert_eq!(d.w, 4 * Q);
    assert_eq!(d.h, 2 * Q);
}

#[test]
fn sizes_clamp_to_zero_and_centers_to_the_limit() {
    let d = Detection::from_input(&det(i64::MAX, i64::MIN, -5 * Q, 3 * Q));
    assert_eq!(d.w, 0);
    assert_eq!(d.x, DET_LIMIT);
    assert_eq!(d.y, -DET_LIMIT - 3 * Q / 2);
    assert_eq!(d.h, 3 * Q);
}

#[test]
fn class_labels_carry_over() {
    let mut input = det(Q, Q, Q, Q);
    input.class_id = Some("car".to_owned());
    let d = Detection::from_input(&input);
    assert_eq!(d.class_id.as_deref(), Some("car"));
}

fn three_boxes() -> Vec<Detection> {
    detections_from_inputs(&vec![
        det(10 * Q, 10 * Q, 4 * Q, 4 * Q),
        det(20 * Q, 10 * Q, 4 * Q, 4 * Q),
        det(10 * Q, 20 * Q, 4 * Q, 4 * Q),
    ])
}

#[test]
fn find_returns_the_unique_containing_box() {
    let dets = three_boxes();
    let index = SpatialIndex::build(&dets);
    assert_eq!(index.find(10 * Q, 10 * Q), Some(0));
    assert_eq!(index.find(20 * Q, 10 * Q), Some(1));
    assert_eq!(index.find(10 * Q, 20 * Q), Some(2));
}

#[test]
fn find_outside_every_box_returns_nothing() {
    let dets = three_boxes();
    let index = SpatialIndex::build(&dets);
    assert_eq!(index.find(30 * Q, 30 * Q), None);
    assert_eq!(index.find(-5 * Q, 10 * Q), None);
}

#[test]
fn find_on_overlap_returns_some_containing_box() {
    let dets = detections_from_inputs(&vec![
        det(10 * Q, 10 * Q, 6 * Q, 6 * Q),
        det(12 * Q, 10 * Q, 6 * Q, 6 * Q),
    ]);
    let index = SpatialIndex::build(&dets);
    let found = index.find(11 * Q, 10 * Q).unwrap();
    assert!(found == 0 || found == 1);
}

#[test]
fn borders_are_inclusive() {
    let dets = detections_from_inputs(&vec![det(10 * Q, 10 * Q, 4 * Q, 4 * Q)]);
    let index = SpatialIndex::build(&dets);
    assert_eq!(index.find(8 * Q, 8 * Q), Some(0));
    assert_eq!(index.find(12 * Q, 12 * Q), Some(0));
    assert_eq!(index.find(12 * Q + 1, 12 * Q), None);
}
