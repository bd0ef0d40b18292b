//! Camera models and 3D-to-2D projection.
//!
//! A camera model holds the intrinsic parameters (focal lengths, principal
//! point, distortion coefficients) and the extrinsic pose that maps the
//! point-cloud frame into the camera frame, all in the fixed-point scale
//! of the library. Projection transforms each point by
//! the pose, discards points at or behind the near plane, too close to the
//! sensor origin, or outside a fixed view cone, applies the radial and
//! tangential distortion with the pinhole parameters, and keeps the points
//! whose pixel position falls inside the image.

use vstd::prelude::*;
use vstd::arithmetic::div_mod::lemma_div_is_ordered;
use crate::codec::Point;
use crate::fixed::{Q, Q_RANGE, tdiv, sabs, spec_fixed_from_f32_bits, fixed_from_f32_bits};

verus! {

/// Largest magnitude of a normalized image-plane coordinate that is still
/// considered in view: sixteen units, a view cone of nearly ninety degrees
/// off the optical axis.
pub const VIEW_LIMIT: i64 = 16 * 65536;

/// Largest accepted focal length.
pub const FOCAL_LIMIT: i64 = 0x1_0000_0000;

/// Largest accepted magnitude of a principal-point coordinate.
pub const CENTER_LIMIT: i64 = 0x1_0000_0000_0000;

/// Largest accepted magnitude of a distortion coefficient.
pub const DIST_LIMIT: i64 = 0x100_0000;

/// The error of constructing a part of the pipeline from configuration.
/// Unlike the per-message decode errors this is a hard failure: a pipeline
/// cannot run with a malformed camera model.
#[derive(Clone, Copy, Debug, PartialEq, Eq, Structural)]
pub enum ConfigError {
    /// A camera parameter lies outside the accepted range.
    InvalidCameraParameter,
}

/// Per-camera intrinsic and extrinsic parameters, in fixed-point scale.
///
/// `r00` through `r22` are the rows of the rotation (or any linear map
/// with entries of at most one unit) that carries the point-cloud frame
/// into the camera frame, and `t0` through `t2` the offset added after it.
#[derive(Clone, Copy, Debug)]
pub struct CameraModel {
    pub width: u32,
    pub height: u32,
    pub r00: i64,
    pub r01: i64,
    pub r02: i64,
    pub r10: i64,
    pub r11: i64,
    pub r12: i64,
    pub r20: i64,
    pub r21: i64,
    pub r22: i64,
    pub t0: i64,
    pub t1: i64,
    pub t2: i64,
    pub fx: i64,
    pub fy: i64,
    pub cx: i64,
    pub cy: i64,
    pub k1: i64,
    pub k2: i64,
    pub k3: i64,
    pub p1: i64,
    pub p2: i64,
}

/// A projected point: the index of its source point in the frame it was
/// projected from, and its pixel position.
#[derive(Clone, Copy, Debug, PartialEq, Eq, Structural)]
pub struct ProjectedPoint {
    pub index: usize,
    pub px: i64,
    pub py: i64,
}

impl CameraModel {
    /// All parameters lie in the ranges that projection is defined for.
    pub open spec fn wf(self) -> bool {
        &&& self.width >= 1
        &&& self.height >= 1
        &&& sabs(self.r00 as int) <= Q
        &&& sabs(self.r01 as int) <= Q
        &&& sabs(self.r02 as int) <= Q
        &&& sabs(self.r10 as int) <= Q
        &&& sabs(self.r11 as int) <= Q
        &&& sabs(self.r12 as int) <= Q
        &&& sabs(self.r20 as int) <= Q
        &&& sabs(self.r21 as int) <= Q
        &&& sabs(self.r22 as int) <= Q
        &&& sabs(self.t0 as int) <= Q_RANGE
        &&& sabs(self.t1 as int) <= Q_RANGE
        &&& sabs(self.t2 as int) <= Q_RANGE
        &&& 0 < self.fx <= FOCAL_LIMIT
        &&& 0 < self.fy <= FOCAL_LIMIT
        &&& sabs(self.cx as int) <= CENTER_LIMIT
        &&& sabs(self.cy as int) <= CENTER_LIMIT
        &&& sabs(self.k1 as int) <= DIST_LIMIT
        &&& sabs(self.k2 as int) <= DIST_LIMIT
        &&& sabs(self.k3 as int) <= DIST_LIMIT
        &&& sabs(self.p1 as int) <= DIST_LIMIT
        &&& sabs(self.p2 as int) <= DIST_LIMIT
    }

    /// Validates the parameter ranges; a model that fails here cannot be
    /// handed to the cache.
    pub fn check(&self) -> (r: Result<(), ConfigError>)
        ensures
            r is Ok <==> self.wf(),
    {
        let bounds_ok = self.width >= 1 && self.height >= 1 && in_range(self.r00, Q) && in_range(
            self.r01,
            Q,
        ) && in_range(self.r02, Q) && in_range(self.r10, Q) && in_range(self.r11, Q) && in_range(
            self.r12,
            Q,
        ) && in_range(self.r20, Q) && in_range(self.r21, Q) && in_range(self.r22, Q) && in_range(
            self.t0,
            Q_RANGE,
        ) && in_range(self.t1, Q_RANGE) && in_range(self.t2, Q_RANGE) && 0 < self.fx && self.fx
            <= FOCAL_LIMIT && 0 < self.fy && self.fy <= FOCAL_LIMIT && in_range(self.cx, CENTER_LIMIT)
            && in_range(self.cy, CENTER_LIMIT) && in_range(self.k1, DIST_LIMIT) && in_range(
            self.k2,
            DIST_LIMIT,
        ) && in_range(self.k3, DIST_LIMIT) && in_range(self.p1, DIST_LIMIT) && in_range(
            self.p2,
            DIST_LIMIT,
        );
        if bounds_ok {
            Ok(())
        } else {
            Err(ConfigError::InvalidCameraParameter)
        }
    }
}

/// Whether a value's magnitude is at most the (nonnegative) bound.
fn in_range(v: i64, bound: i64) -> (r: bool)
    requires
        bound >= 0,
    ensures
        r == (sabs(v as int) <= bound),
{
    -bound <= v && v <= bound
}

/// The fixed-point world coordinates of a point, read from its coordinate
/// bit patterns; `None` if any coordinate is out of the readable range.
pub open spec fn spec_world(p: Point) -> Option<(int, int, int)> {
    if spec_fixed_from_f32_bits(p.x_bits) is Some && spec_fixed_from_f32_bits(p.y_bits) is Some
        && spec_fixed_from_f32_bits(p.z_bits) is Some {
        Some(
            (
                spec_fixed_from_f32_bits(p.x_bits)->Some_0 as int,
                spec_fixed_from_f32_bits(p.y_bits)->Some_0 as int,
                spec_fixed_from_f32_bits(p.z_bits)->Some_0 as int,
            ),
        )
    } else {
        None
    }
}

/// The camera-frame coordinates of a world point: the rotation rows applied
/// at fixed-point scale, then the pose offset.
pub open spec fn spec_cam_coords(m: CameraModel, x: int, y: int, z: int) -> (int, int, int) {
    (
        tdiv(m.r00 * x + m.r01 * y + m.r02 * z, Q as int) + m.t0,
        tdiv(m.r10 * x + m.r11 * y + m.r12 * z, Q as int) + m.t1,
        tdiv(m.r20 * x + m.r21 * y + m.r22 * z, Q as int) + m.t2,
    )
}

/// The pixel position of a normalized image-plane point, after radial and
/// tangential distortion and the pinhole parameters.
pub open spec fn spec_pixel(m: CameraModel, a: int, b: int) -> (int, int) {
    let a2 = tdiv(a * a, Q as int);
    let b2 = tdiv(b * b, Q as int);
    let r2 = a2 + b2;
    let r4 = tdiv(r2 * r2, Q as int);
    let r6 = tdiv(r4 * r2, Q as int);
    let radial = Q + tdiv(m.k1 * r2 + m.k2 * r4 + m.k3 * r6, Q as int);
    let ab = tdiv(a * b, Q as int);
    let xd = tdiv(a * radial, Q as int) + tdiv(2 * m.p1 * ab, Q as int) + tdiv(
        m.p2 * (r2 + 2 * a2),
        Q as int,
    );
    let yd = tdiv(b * radial, Q as int) + tdiv(m.p1 * (r2 + 2 * b2), Q as int) + tdiv(
        2 * m.p2 * ab,
        Q as int,
    );
    (tdiv(m.fx * xd, Q as int) + m.cx, tdiv(m.fy * yd, Q as int) + m.cy)
}

/// The camera-frame depth of a point, if its coordinates are readable.
pub open spec fn spec_camera_depth(m: CameraModel, p: Point) -> Option<int> {
    match spec_world(p) {
        None => None,
        Some((x, y, z)) => Some(spec_cam_coords(m, x, y, z).2),
    }
}

/// Where one point projects in a camera's image, if anywhere.
///
/// A point is discarded when a coordinate is unreadable, when it lies
/// within one unit of the sensor origin, when its camera-frame depth is at
/// most one unit, when it falls outside the view cone, or when its pixel
/// position falls outside `[0, width] x [0, height]`.
pub open spec fn spec_project_point(m: CameraModel, p: Point) -> Option<(i64, i64)> {
    match spec_world(p) {
        None => None,
        Some((x, y, z)) => {
            if x * x + y * y + z * z <= (Q as int) * (Q as int) {
                None
            } else {
                let (xc, yc, zc) = spec_cam_coords(m, x, y, z);
                if zc <= Q as int {
                    None
                } else {
                    let a = tdiv(xc * Q, zc);
                    let b = tdiv(yc * Q, zc);
                    if sabs(a) > VIEW_LIMIT as int || sabs(b) > VIEW_LIMIT as int {
                        None
                    } else {
                        let (u, v) = spec_pixel(m, a, b);
                        if 0 <= u && u <= (m.width as int) * (Q as int) && 0 <= v && v <= (
                        m.height as int) * (Q as int) {
                            Some((u as i64, v as i64))
                        } else {
                            None
                        }
                    }
                }
            }
        },
    }
}

/// The projected points of a frame suffix, from index `i` on, in index
/// order.
pub open spec fn spec_projected_from(m: CameraModel, pts: Seq<Point>, i: int) -> Seq<ProjectedPoint>
    decreases pts.len() - i
        when 0 <= i <= pts.len()
{
    if i >= pts.len() {
        Seq::empty()
    } else {
        let head = match spec_project_point(m, pts[i]) {
            Some((px, py)) => seq![ProjectedPoint { index: i as usize, px, py }],
            None => Seq::empty(),
        };
        head + spec_projected_from(m, pts, i + 1)
    }
}

/// The projected points of a frame, in index order.
pub open spec fn spec_projected(m: CameraModel, pts: Seq<Point>) -> Seq<ProjectedPoint> {
    spec_projected_from(m, pts, 0)
}

/// The exact product of two bounded values.
fn mul128(a: i128, b: i128) -> (r: i128)
    requires
        sabs(a as int) <= 0x4000_0000_0000_0000,
        sabs(b as int) <= 0x4000_0000_0000_0000,
    ensures
        r as int == a as int * b as int,
{
    proof {
        assert(-(0x4000_0000_0000_0000 * 0x4000_0000_0000_0000) <= a as int * b as int <= 0x4000_0000_0000_0000
            * 0x4000_0000_0000_0000) by (nonlinear_arith)
            requires
                sabs(a as int) <= 0x4000_0000_0000_0000,
                sabs(b as int) <= 0x4000_0000_0000_0000,
        ;
    }
    a * b
}

/// Truncating division by a positive divisor, with its exact magnitude.
fn div128(a: i128, d: i128) -> (r: i128)
    requires
        d > 0,
    ensures
        r as int == tdiv(a as int, d as int),
        sabs(r as int) == sabs(a as int) / (d as int),
{
    proof {
        if a < 0 {
            lemma_div_is_ordered(0, -(a as int), d as int);
        }
    }
    a / d
}

/// A magnitude bound carries through a product.
proof fn lemma_bound_mul(x: int, bx: int, y: int, by: int)
    requires
        sabs(x) <= bx,
        sabs(y) <= by,
    ensures
        sabs(x * y) <= bx * by,
{
    assert(sabs(x * y) <= bx * by) by (nonlinear_arith)
        requires
            sabs(x) <= bx,
            sabs(y) <= by,
    ;
}

/// A magnitude bound carries through a truncating division by a positive
/// divisor.
proof fn lemma_bound_div(x: int, bx: int, d: int)
    requires
        sabs(x) <= bx,
        d > 0,
    ensures
        sabs(tdiv(x, d)) <= bx / d,
        sabs(tdiv(x, d)) <= bx,
{
    if x >= 0 {
        lemma_div_is_ordered(x, bx, d);
        lemma_div_is_ordered(0, x, d);
    } else {
        lemma_div_is_ordered(-x, bx, d);
        lemma_div_is_ordered(0, -x, d);
    }
    vstd::arithmetic::div_mod::lemma_div_is_ordered_by_denominator(bx, 1, d);
    vstd::arithmetic::div_mod::lemma_div_basics(bx);
}

impl CameraModel {
    /// Projects one point, as `spec_project_point` lays out.
    pub fn project_point(&self, p: Point) -> (r: Option<(i64, i64)>)
        requires
            self.wf(),
        ensures
            r == spec_project_point(*self, p),
    {
        let ox = match fixed_from_f32_bits(p.x_bits) {
            Some(v) => v,
            None => {
                return None;
            },
        };
        let oy = match fixed_from_f32_bits(p.y_bits) {
            Some(v) => v,
            None => {
                return None;
            },
        };
        let oz = match fixed_from_f32_bits(p.z_bits) {
            Some(v) => v,
            None => {
                return None;
            },
        };
        let x = ox as i128;
        let y = oy as i128;
        let z = oz as i128;
        let sq_x = mul128(x, x);
        let sq_y = mul128(y, y);
        let sq_z = mul128(z, z);
        proof {
            lemma_bound_mul(x as int, Q_RANGE as int, x as int, Q_RANGE as int);
            lemma_bound_mul(y as int, Q_RANGE as int, y as int, Q_RANGE as int);
            lemma_bound_mul(z as int, Q_RANGE as int, z as int, Q_RANGE as int);
        }
        let range_sq = sq_x + sq_y + sq_z;
        proof {
            assert((Q as int) * (Q as int) == 0x1_0000_0000) by (nonlinear_arith)
                requires
                    Q == 65536,
            ;
        }
        if range_sq <= 0x1_0000_0000 {
            return None;
        }
        let xc = self.cam_component(self.r00, self.r01, self.r02, self.t0, x, y, z);
        let yc = self.cam_component(self.r10, self.r11, self.r12, self.t1, x, y, z);
        let zc = self.cam_component(self.r20, self.r21, self.r22, self.t2, x, y, z);
        if zc <= Q as i128 {
            return None;
        }
        let a = div128(mul128(xc, Q as i128), zc);
        let b = div128(mul128(yc, Q as i128), zc);
        if a > VIEW_LIMIT as i128 || a < -(VIEW_LIMIT as i128) || b > VIEW_LIMIT as i128 || b < -(
        VIEW_LIMIT as i128) {
            return None;
        }
        let (u, v) = self.pixel(a, b);
        if 0 <= u && u <= (self.width as i128) * (Q as i128) && 0 <= v && v <= (
        self.height as i128) * (Q as i128) {
            Some((u as i64, v as i64))
        } else {
            None
        }
    }

    /// One camera-frame coordinate: a rotation row applied to the world
    /// coordinates, then one component of the pose offset.
    fn cam_component(&self, r0: i64, r1: i64, r2: i64, t: i64, x: i128, y: i128, z: i128) -> (c:
        i128)
        requires
            sabs(r0 as int) <= Q,
            sabs(r1 as int) <= Q,
            sabs(r2 as int) <= Q,
            sabs(t as int) <= Q_RANGE,
            sabs(x as int) <= Q_RANGE,
            sabs(y as int) <= Q_RANGE,
            sabs(z as int) <= Q_RANGE,
        ensures
            c as int == tdiv(r0 * x + r1 * y + r2 * z, Q as int) + t,
            sabs(c as int) <= 0x4000_0000_0000,
    {
        let m0 = mul128(r0 as i128, x);
        let m1 = mul128(r1 as i128, y);
        let m2 = mul128(r2 as i128, z);
        proof {
            lemma_bound_mul(r0 as int, Q as int, x as int, Q_RANGE as int);
            lemma_bound_mul(r1 as int, Q as int, y as int, Q_RANGE as int);
            lemma_bound_mul(r2 as int, Q as int, z as int, Q_RANGE as int);
        }
        let s = m0 + m1 + m2;
        proof {
            lemma_bound_div(s as int, 3 * (Q as int) * (Q_RANGE as int), Q as int);
        }
        div128(s, Q as i128) + t as i128
    }

    /// The pixel position of a normalized in-view point, as `spec_pixel`
    /// lays it out.
    #[verifier::spinoff_prover]
    #[verifier::rlimit(100)]
    fn pixel(&self, a: i128, b: i128) -> (r: (i128, i128))
        requires
            self.wf(),
            sabs(a as int) <= VIEW_LIMIT as int,
            sabs(b as int) <= VIEW_LIMIT as int,
        ensures
            (r.0 as int, r.1 as int) == spec_pixel(*self, a as int, b as int),
    {
        let a2 = div128(mul128(a, a), Q as i128);
        let b2 = div128(mul128(b, b), Q as i128);
        proof {
            lemma_bound_mul(a as int, VIEW_LIMIT as int, a as int, VIEW_LIMIT as int);
            lemma_bound_mul(b as int, VIEW_LIMIT as int, b as int, VIEW_LIMIT as int);
            lemma_bound_div(a as int * a as int, 0x100_0000_0000, Q as int);
            lemma_bound_div(b as int * b as int, 0x100_0000_0000, Q as int);
        }
        let r2 = a2 + b2;
        let r4 = div128(mul128(r2, r2), Q as i128);
        proof {
            lemma_bound_mul(r2 as int, 0x200_0000, r2 as int, 0x200_0000);
            lemma_bound_div(r2 as int * r2 as int, 0x4_0000_0000_0000, Q as int);
        }
        let r6 = div128(mul128(r4, r2), Q as i128);
        proof {
            lemma_bound_mul(r4 as int, 0x4_0000_0000, r2 as int, 0x200_0000);
            lemma_bound_div(r4 as int * r2 as int, 0x800_0000_0000_0000, Q as int);
        }
        let rk1 = mul128(self.k1 as i128, r2);
        let rk2 = mul128(self.k2 as i128, r4);
        let rk3 = mul128(self.k3 as i128, r6);
        proof {
            lemma_bound_mul(self.k1 as int, DIST_LIMIT as int, r2 as int, 0x200_0000);
            lemma_bound_mul(self.k2 as int, DIST_LIMIT as int, r4 as int, 0x4_0000_0000);
            lemma_bound_mul(self.k3 as int, DIST_LIMIT as int, r6 as int, 0x800_0000_0000);
        }
        let rad_num = rk1 + rk2 + rk3;
        proof {
            lemma_bound_div(rad_num as int, 0x200_0000_0000_0000_0000, Q as int);
        }
        let radial = Q as i128 + div128(rad_num, Q as i128);
        let ab = div128(mul128(a, b), Q as i128);
        proof {
            lemma_bound_mul(a as int, VIEW_LIMIT as int, b as int, VIEW_LIMIT as int);
            lemma_bound_div(a as int * b as int, 0x100_0000_0000, Q as int);
        }
        let tp1 = 2 * (self.p1 as i128);
        let tp2 = 2 * (self.p2 as i128);
        let x_rad = mul128(a, radial);
        let x_tan1 = mul128(tp1, ab);
        let x_tan2 = mul128(self.p2 as i128, r2 + 2 * a2);
        proof {
            lemma_bound_mul(a as int, VIEW_LIMIT as int, radial as int, 0x40_0000_0000_0000);
            lemma_bound_div(x_rad as int, 0x4_0000_0000_0000_0000_0000, Q as int);
            lemma_bound_mul(tp1 as int, 0x200_0000, ab as int, 0x100_0000);
            lemma_bound_div(x_tan1 as int, 0x2_0000_0000_0000, Q as int);
            lemma_bound_mul(self.p2 as int, DIST_LIMIT as int, r2 as int + 2 * a2 as int,
                0x800_0000);
            lemma_bound_div(x_tan2 as int, 0x800_0000_0000_0000, Q as int);
        }
        let xd = div128(x_rad, Q as i128) + div128(x_tan1, Q as i128) + div128(x_tan2, Q as i128);
        let y_rad = mul128(b, radial);
        let y_tan1 = mul128(self.p1 as i128, r2 + 2 * b2);
        let y_tan2 = mul128(tp2, ab);
        proof {
            lemma_bound_mul(b as int, VIEW_LIMIT as int, radial as int, 0x40_0000_0000_0000);
            lemma_bound_div(y_rad as int, 0x4_0000_0000_0000_0000_0000, Q as int);
            lemma_bound_mul(self.p1 as int, DIST_LIMIT as int, r2 as int + 2 * b2 as int,
                0x800_0000);
            lemma_bound_div(y_tan1 as int, 0x800_0000_0000_0000, Q as int);
            lemma_bound_mul(tp2 as int, 0x200_0000, ab as int, 0x100_0000);
            lemma_bound_div(y_tan2 as int, 0x2_0000_0000_0000, Q as int);
        }
        let yd = div128(y_rad, Q as i128) + div128(y_tan1, Q as i128) + div128(y_tan2, Q as i128);
        let fx_xd = mul128(self.fx as i128, xd);
        let fy_yd = mul128(self.fy as i128, yd);
        proof {
            lemma_bound_mul(self.fx as int, FOCAL_LIMIT as int, xd as int, 0x800_0000_0000_0000);
            lemma_bound_mul(self.fy as int, FOCAL_LIMIT as int, yd as int, 0x800_0000_0000_0000);
            lemma_bound_div(fx_xd as int, 0x8_0000_0000_0000_0000_0000_0000, Q as int);
            lemma_bound_div(fy_yd as int, 0x8_0000_0000_0000_0000_0000_0000, Q as int);
        }
        let u = div128(fx_xd, Q as i128) + self.cx as i128;
        let v = div128(fy_yd, Q as i128) + self.cy as i128;
        (u, v)
    }

    /// Projects a frame of points: the in-view points in index order, each
    /// with a reference to its source point by index.
    pub fn project(&self, points: &Vec<Point>) -> (out: Vec<ProjectedPoint>)
        requires
            self.wf(),
        ensures
            out@ == spec_projected(*self, points@),
    {
        let n = points.len();
        let mut out: Vec<ProjectedPoint> = Vec::new();
        let mut i: usize = 0;
        while i < n
            invariant
                n == points@.len(),
                i <= n,
                self.wf(),
                spec_projected(*self, points@) == out@ + spec_projected_from(*self, points@, i as int),
            decreases n - i,
        {
            let ghost prev = out@;
            match self.project_point(points[i]) {
                Some((px, py)) => {
                    out.push(ProjectedPoint { index: i, px, py });
                },
                None => {},
            }
            proof {
                assert(out@ + spec_projected_from(*self, points@, i as int + 1) =~= prev
                    + spec_projected_from(*self, points@, i as int));
            }
            i = i + 1;
        }
        out
    }
}

/// Projection is a function of the model and the points alone: two
/// projections of the same point set through the same camera model are
/// identical.
pub proof fn lemma_projection_deterministic(
    m: CameraModel,
    pts: Seq<Point>,
    r1: Seq<ProjectedPoint>,
    r2: Seq<ProjectedPoint>,
)
    requires
        r1 == spec_projected(m, pts),
        r2 == spec_projected(m, pts),
    ensures
        r1 == r2,
{
}

/// Every projected point refers to a point of the frame, carries that
/// point's projection, and that point projects somewhere.
pub proof fn lemma_projected_entries(m: CameraModel, pts: Seq<Point>, j: int, e: int)
    requires
        pts.len() <= usize::MAX,
        0 <= j <= pts.len(),
        0 <= e < spec_projected_from(m, pts, j).len(),
    ensures
        ({
            let entry = spec_projected_from(m, pts, j)[e];
            &&& j <= entry.index < pts.len()
            &&& spec_project_point(m, pts[entry.index as int]) == Some((entry.px, entry.py))
        }),
    decreases pts.len() - j,
{
    if j < pts.len() {
        match spec_project_point(m, pts[j]) {
            Some((px, py)) => {
                if e > 0 {
                    lemma_projected_entries(m, pts, j + 1, e - 1);
                }
            },
            None => {
                lemma_projected_entries(m, pts, j + 1, e);
            },
        }
    }
}

/// No point with camera-frame depth at or below one unit — in particular,
/// none at or behind the camera — is ever present in the projected output.
pub proof fn lemma_projected_depth_positive(m: CameraModel, pts: Seq<Point>, e: int)
    requires
        pts.len() <= usize::MAX,
        0 <= e < spec_projected(m, pts).len(),
    ensures
        ({
            let entry = spec_projected(m, pts)[e];
            &&& 0 <= entry.index < pts.len()
            &&& spec_camera_depth(m, pts[entry.index as int]) matches Some(d) && d > Q
        }),
{
    lemma_projected_entries(m, pts, 0, e);
}

} // verus!
