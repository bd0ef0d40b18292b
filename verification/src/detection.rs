//! Detection boxes.
//!
//! A detection message carries axis-aligned boxes as center and size pairs;
//! the library holds each as a top-left corner with nonnegative extents, in
//! the fixed-point scale, clamped to a range that every later computation
//! is defined on.

use vstd::prelude::*;
use crate::fixed::tdiv;

verus! {

/// Largest magnitude of a detection center coordinate or size; inputs
/// beyond it are clamped.
pub const DET_LIMIT: i64 = 0x100_0000_0000;

/// One detection box from the wire: center position, size, and an optional
/// class label, positions and sizes in fixed-point scale.
#[derive(Clone, Debug)]
pub struct DetectionInput {
    pub cx: i64,
    pub cy: i64,
    pub sx: i64,
    pub sy: i64,
    pub class_id: Option<String>,
}

/// A 2D axis-aligned rectangle with an optional class label: top-left
/// corner, width and height, in fixed-point scale.
#[derive(Clone, Debug)]
pub struct Detection {
    pub x: i64,
    pub y: i64,
    pub w: i64,
    pub h: i64,
    pub class_id: Option<String>,
}

impl Detection {
    /// The extents are nonnegative and every corner coordinate stays in a
    /// range safe for the spatial index.
    pub open spec fn wf(self) -> bool {
        &&& -2 * DET_LIMIT <= self.x <= 2 * DET_LIMIT
        &&& -2 * DET_LIMIT <= self.y <= 2 * DET_LIMIT
        &&& 0 <= self.w <= DET_LIMIT
        &&& 0 <= self.h <= DET_LIMIT
    }
}

/// A value clamped into an interval.
pub open spec fn spec_clamp(v: int, lo: int, hi: int) -> int
    recommends
        lo <= hi,
{
    if v < lo {
        lo
    } else if v > hi {
        hi
    } else {
        v
    }
}

/// The rectangle of one detection input: sizes clamped to `[0, DET_LIMIT]`,
/// centers clamped to `[-DET_LIMIT, DET_LIMIT]`, and the top-left corner a
/// half size left of and above the center.
pub open spec fn spec_rect_of(cx: int, cy: int, sx: int, sy: int) -> (int, int, int, int) {
    let w = spec_clamp(sx, 0, DET_LIMIT as int);
    let h = spec_clamp(sy, 0, DET_LIMIT as int);
    let x = spec_clamp(cx, -(DET_LIMIT as int), DET_LIMIT as int) - tdiv(w, 2);
    let y = spec_clamp(cy, -(DET_LIMIT as int), DET_LIMIT as int) - tdiv(h, 2);
    (x, y, w, h)
}

/// Whether a detection is the reading of one wire box.
pub open spec fn spec_detection_of(inp: DetectionInput, d: Detection) -> bool {
    &&& d.wf()
    &&& (d.x as int, d.y as int, d.w as int, d.h as int) == spec_rect_of(
        inp.cx as int,
        inp.cy as int,
        inp.sx as int,
        inp.sy as int,
    )
    &&& d.class_id == inp.class_id
}

/// Whether a pixel position lies in a detection's rectangle, borders
/// included.
pub open spec fn spec_rect_contains(d: Detection, px: int, py: int) -> bool {
    &&& d.x <= px <= d.x + d.w
    &&& d.y <= py <= d.y + d.h
}

/// A value clamped into an interval.
fn clamp(v: i64, lo: i64, hi: i64) -> (r: i64)
    requires
        lo <= hi,
    ensures
        r as int == spec_clamp(v as int, lo as int, hi as int),
{
    if v < lo {
        lo
    } else if v > hi {
        hi
    } else {
        v
    }
}

impl Detection {
    /// The detection of one wire box, as `spec_rect_of` lays out.
    pub fn from_input(input: &DetectionInput) -> (d: Detection)
        ensures
            spec_detection_of(*input, d),
    {
        let w = clamp(input.sx, 0, DET_LIMIT);
        let h = clamp(input.sy, 0, DET_LIMIT);
        let x = clamp(input.cx, -DET_LIMIT, DET_LIMIT) - w / 2;
        let y = clamp(input.cy, -DET_LIMIT, DET_LIMIT) - h / 2;
        let class_id = match &input.class_id {
            Some(c) => Some(c.clone()),
            None => None,
        };
        Detection { x, y, w, h, class_id }
    }
}

/// The detections of one wire message, in message order.
pub fn detections_from_inputs(inputs: &Vec<DetectionInput>) -> (dets: Vec<Detection>)
    ensures
        dets@.len() == inputs@.len(),
        forall|i: int| 0 <= i < inputs@.len() ==> spec_detection_of(inputs@[i], #[trigger] dets@[i]),
{
    let n = inputs.len();
    let mut dets: Vec<Detection> = Vec::new();
    let mut i: usize = 0;
    while i < n
        invariant
            n == inputs@.len(),
            i <= n,
            dets@.len() == i,
            forall|k: int|
                0 <= k < i ==> spec_detection_of(inputs@[k], #[trigger] dets@[k]),
        decreases n - i,
    {
        let d = Detection::from_input(&inputs[i]);
        dets.push(d);
        i = i + 1;
    }
    dets
}

} // verus!
