//! Frame decoding: point-cloud buffers and image buffers from the wire.
//!
//! A point-cloud message carries a self-describing schema (field names,
//! datatype codes, per-point stride) and a byte buffer; `decode_point_cloud`
//! validates the schema and reads the buffer into a `PointCloudFrame`.
//! An image message carries its dimensions, an encoding name, a row stride
//! and a byte buffer; `decode_image` normalizes the three supported
//! encodings to one output layout of three bytes per pixel.

use vstd::prelude::*;
use vstd::arithmetic::div_mod::{
    lemma_fundamental_div_mod, lemma_fundamental_div_mod_converse, lemma_div_denominator,
    lemma_small_mod,
};
use vstd::arithmetic::mul::lemma_mul_inequality;
use yuv::color::{MatrixCoefficients, Range};
use yuv::convert::RGBConvert;
use yuv::YUV;

verus! {

/// Datatype code of a single-precision float field in a point-cloud schema.
pub const FIELD_FLOAT32: u8 = 7;

/// A 3D point with intensity as read from the wire: each component is the
/// bit pattern of an IEEE 754 single-precision value, so a decoded frame
/// reproduces the wire data exactly.
#[derive(Clone, Copy, Debug, PartialEq, Eq, Structural)]
pub struct Point {
    pub x_bits: u32,
    pub y_bits: u32,
    pub z_bits: u32,
    pub intensity_bits: u32,
}

/// One entry of a point-cloud schema: a field name, a datatype code and the
/// number of values in the field.
#[derive(Clone, Debug)]
pub struct FieldDesc {
    pub name: String,
    pub datatype: u8,
    pub count: u32,
}

/// The recoverable errors of frame decoding. The offending message is
/// dropped by the caller; none of these ends processing.
#[derive(Clone, Copy, Debug, PartialEq, Eq, Structural)]
pub enum DecodeError {
    /// The point-cloud schema does not declare `x`, `y`, `z`, `intensity`
    /// as its first four fields, each a single 32-bit float.
    SchemaMismatch,
    /// The per-point stride is under 16 bytes.
    InvalidStride,
    /// A buffer length does not match the declared layout.
    SizeMismatch,
    /// The image encoding is none of the supported ones.
    UnsupportedEncoding,
    /// The message declares big-endian data; only little-endian wire data
    /// is supported.
    UnsupportedByteOrder,
}

/// An ordered batch of points decoded from one point-cloud message.
#[derive(Clone, Debug)]
pub struct PointCloudFrame {
    pub points: Vec<Point>,
}

/// A decoded image: `height * width` pixels, three bytes per pixel in
/// blue, green, red order.
#[derive(Clone, Debug)]
pub struct CameraFrame {
    pub height: u32,
    pub width: u32,
    pub data: Vec<u8>,
}

impl CameraFrame {
    /// The pixel buffer holds exactly three bytes per pixel.
    pub open spec fn wf(self) -> bool {
        self.data@.len() == 3 * (self.height as int) * (self.width as int)
    }

    /// The same image rotated by 180 degrees: pixels in reverse order,
    /// channels kept.
    pub fn rotated_180(&self) -> (r: CameraFrame)
        requires
            self.wf(),
        ensures
            r.height == self.height,
            r.width == self.width,
            r.data@ == spec_rotate_180(self.data@),
            r.wf(),
    {
        let n_px = self.data.len() / 3;
        proof {
            let h = self.height as int;
            let w = self.width as int;
            assert(self.data@.len() == (h * w) * 3) by (nonlinear_arith)
                requires
                    self.data@.len() == 3 * h * w,
            ;
            vstd::arithmetic::div_mod::lemma_mod_multiples_basic(h * w, 3);
            lemma_fundamental_div_mod(self.data@.len() as int, 3);
        }
        let mut out: Vec<u8> = Vec::new();
        let mut p: usize = 0;
        while p < n_px
            invariant
                n_px == self.data@.len() as int / 3,
                self.data@.len() == 3 * n_px,
                self.data@.len() <= usize::MAX,
                out@.len() == 3 * p,
                p <= n_px,
                forall|k: int| 0 <= k < 3 * p ==> out@[k] == spec_rotate_180(self.data@)[k],
            decreases n_px - p,
        {
            let base = 3 * (n_px - 1 - p);
            out.push(self.data[base]);
            out.push(self.data[base + 1]);
            out.push(self.data[base + 2]);
            proof {
                lemma_fundamental_div_mod_converse(3 * p as int, 3, p as int, 0);
                lemma_fundamental_div_mod_converse(3 * p as int + 1, 3, p as int, 1);
                lemma_fundamental_div_mod_converse(3 * p as int + 2, 3, p as int, 2);
            }
            p = p + 1;
        }
        proof {
            assert(out@ =~= spec_rotate_180(self.data@));
        }
        CameraFrame { height: self.height, width: self.width, data: out }
    }
}

/// The buffer with its pixel order reversed: a 180-degree rotation of an
/// image held as three bytes per pixel.
pub open spec fn spec_rotate_180(data: Seq<u8>) -> Seq<u8>
    recommends
        data.len() % 3 == 0,
{
    Seq::new(data.len(), |k: int| data[3 * (data.len() as int / 3 - 1 - k / 3) + k % 3])
}

/// The little-endian 32-bit value of four bytes.
pub open spec fn spec_le_u32(b0: u8, b1: u8, b2: u8, b3: u8) -> u32 {
    (b0 + b1 * 0x100 + b2 * 0x1_0000 + b3 * 0x100_0000) as u32
}

/// Byte `j` (0 is least significant) of the little-endian encoding of `v`.
pub open spec fn spec_le_byte(v: u32, j: int) -> u8
    recommends
        0 <= j < 4,
{
    if j == 0 {
        (v % 0x100) as u8
    } else if j == 1 {
        ((v / 0x100) % 0x100) as u8
    } else if j == 2 {
        ((v / 0x1_0000) % 0x100) as u8
    } else {
        ((v / 0x100_0000) % 0x100) as u8
    }
}

/// Reassembling the four little-endian bytes of a value gives the value back.
pub proof fn lemma_le_u32_round_trip(v: u32)
    ensures
        spec_le_u32(spec_le_byte(v, 0), spec_le_byte(v, 1), spec_le_byte(v, 2), spec_le_byte(v, 3))
            == v,
{
    let x = v as int;
    lemma_fundamental_div_mod(x, 0x100);
    lemma_fundamental_div_mod(x / 0x100, 0x100);
    lemma_fundamental_div_mod(x / 0x1_0000, 0x100);
    lemma_div_denominator(x, 0x100, 0x100);
    lemma_div_denominator(x, 0x1_0000, 0x100);
    lemma_small_mod((x / 0x100_0000) as nat, 0x100);
}

/// The point whose 16 bytes start at `base` in `data`: four little-endian
/// 32-bit values for x, y, z and intensity, in that order.
pub open spec fn spec_point_at(data: Seq<u8>, base: int) -> Point
    recommends
        0 <= base,
        base + 16 <= data.len(),
{
    Point {
        x_bits: spec_le_u32(data[base], data[base + 1], data[base + 2], data[base + 3]),
        y_bits: spec_le_u32(data[base + 4], data[base + 5], data[base + 6], data[base + 7]),
        z_bits: spec_le_u32(data[base + 8], data[base + 9], data[base + 10], data[base + 11]),
        intensity_bits: spec_le_u32(
            data[base + 12],
            data[base + 13],
            data[base + 14],
            data[base + 15],
        ),
    }
}

/// The points of a buffer read at the given stride: one point from the
/// first 16 bytes of each stride-sized chunk. A trailing part shorter than
/// the stride yields no point.
pub open spec fn spec_decode_points(data: Seq<u8>, step: int) -> Seq<Point>
    recommends
        step >= 16,
    decreases data.len()
        when step >= 16
{
    if data.len() < step {
        Seq::empty()
    } else {
        seq![spec_point_at(data, 0)] + spec_decode_points(data.skip(step), step)
    }
}

/// Whether a schema declares `x`, `y`, `z`, `intensity` as its first four
/// fields, each a single-value 32-bit float field.
pub open spec fn spec_schema_ok(fields: Seq<FieldDesc>) -> bool {
    &&& fields.len() >= 4
    &&& fields[0].name@ == "x"@
    &&& fields[1].name@ == "y"@
    &&& fields[2].name@ == "z"@
    &&& fields[3].name@ == "intensity"@
    &&& spec_field_is_f32(fields[0])
    &&& spec_field_is_f32(fields[1])
    &&& spec_field_is_f32(fields[2])
    &&& spec_field_is_f32(fields[3])
}

/// Whether a schema field is a single-value 32-bit float field.
pub open spec fn spec_field_is_f32(f: FieldDesc) -> bool {
    f.datatype == FIELD_FLOAT32 && f.count == 1
}

/// The error that a point-cloud decode reports, if any: schema problems
/// first, then the stride, then the buffer length.
pub open spec fn spec_point_cloud_error(
    fields: Seq<FieldDesc>,
    step: int,
    len: int,
) -> Option<DecodeError> {
    if !spec_schema_ok(fields) {
        Some(DecodeError::SchemaMismatch)
    } else if step < 16 {
        Some(DecodeError::InvalidStride)
    } else if len % step != 0 {
        Some(DecodeError::SizeMismatch)
    } else {
        None
    }
}

/// Decodes a point-cloud wire frame.
///
/// The schema must declare at least the four fields `x`, `y`, `z`,
/// `intensity`, in that order, each a single 32-bit float; the stride must
/// be at least 16 bytes and the buffer a whole number of strides. Each
/// stride then yields one point from its first 16 bytes, four little-endian
/// 32-bit values.
pub fn decode_point_cloud(fields: &Vec<FieldDesc>, point_step: u32, data: &Vec<u8>) -> (r: Result<
    PointCloudFrame,
    DecodeError,
>)
    ensures
        match r {
            Ok(frame) => {
                &&& spec_point_cloud_error(fields@, point_step as int, data@.len() as int)
                    is None
                &&& frame.points@ == spec_decode_points(data@, point_step as int)
            },
            Err(e) => Some(e) == spec_point_cloud_error(
                fields@,
                point_step as int,
                data@.len() as int,
            ),
        },
{
    if fields.len() < 4 {
        return Err(DecodeError::SchemaMismatch);
    }
    let names_ok = {
        let x_ok = fields[0].name == "x".to_owned();
        let y_ok = fields[1].name == "y".to_owned();
        let z_ok = fields[2].name == "z".to_owned();
        let i_ok = fields[3].name == "intensity".to_owned();
        x_ok && y_ok && z_ok && i_ok
    };
    if !names_ok {
        return Err(DecodeError::SchemaMismatch);
    }
    let types_ok = field_is_f32(&fields[0]) && field_is_f32(&fields[1]) && field_is_f32(&fields[2])
        && field_is_f32(&fields[3]);
    if !types_ok {
        return Err(DecodeError::SchemaMismatch);
    }
    if point_step < 16 {
        return Err(DecodeError::InvalidStride);
    }
    let step = point_step as usize;
    if data.len() % step != 0 {
        return Err(DecodeError::SizeMismatch);
    }
    let n = data.len() / step;
    proof {
        lemma_fundamental_div_mod(data@.len() as int, step as int);
        assert(step as int * n as int == n as int * step as int) by (nonlinear_arith);
        assert(data@.len() == n * step);
        assert(data@.skip(0) =~= data@);
    }
    let mut points: Vec<Point> = Vec::new();
    let mut i: usize = 0;
    while i < n
        invariant
            16 <= step,
            n == data@.len() as int / step as int,
            data@.len() == n * step,
            data@.len() <= usize::MAX,
            i <= n,
            points@.len() == i,
            spec_decode_points(data@, step as int) == points@ + spec_decode_points(
                data@.skip(i as int * step as int),
                step as int,
            ),
        decreases n - i,
    {
        proof {
            lemma_mul_inequality(i as int, n as int, step as int);
            lemma_mul_inequality(i as int + 1, n as int, step as int);
            assert((i as int + 1) * step as int == i as int * step as int + step as int)
                by (nonlinear_arith);
        }
        let base = i * step;
        let ghost rest = data@.skip(i as int * step as int);
        proof {
            assert(rest.len() == data@.len() - i as int * step as int);
            assert(rest.len() >= step as int);
            assert(rest.skip(step as int) =~= data@.skip((i as int + 1) * step as int));
            assert(spec_decode_points(rest, step as int) == seq![spec_point_at(rest, 0)]
                + spec_decode_points(data@.skip((i as int + 1) * step as int), step as int));
            assert(spec_point_at(rest, 0) == spec_point_at(data@, base as int)) by {
                assert(forall|k: int|
                    0 <= k < 16 ==> rest[k] == data@[base as int + k]);
            }
        }
        let ghost prev = points@;
        let p = read_point_at(data, base);
        points.push(p);
        proof {
            assert(points@ + spec_decode_points(
                data@.skip((i as int + 1) * step as int),
                step as int,
            ) =~= prev + spec_decode_points(rest, step as int));
        }
        i = i + 1;
    }
    proof {
        assert(n as int * step as int == data@.len() as int);
        assert(data@.skip(n as int * step as int) =~= Seq::<u8>::empty());
        assert(spec_decode_points(Seq::<u8>::empty(), step as int) == Seq::<Point>::empty());
        assert(points@ == points@ + Seq::<Point>::empty());
    }
    Ok(PointCloudFrame { points })
}

/// Whether a schema field is a single-value 32-bit float field.
fn field_is_f32(f: &FieldDesc) -> (r: bool)
    ensures
        r == spec_field_is_f32(*f),
{
    f.datatype == FIELD_FLOAT32 && f.count == 1
}

/// Reads the point whose 16 bytes start at `base`.
fn read_point_at(data: &Vec<u8>, base: usize) -> (p: Point)
    requires
        base + 16 <= data.len(),
    ensures
        p == spec_point_at(data@, base as int),
{
    let x_bits = read_le_u32(data, base);
    let y_bits = read_le_u32(data, base + 4);
    let z_bits = read_le_u32(data, base + 8);
    let intensity_bits = read_le_u32(data, base + 12);
    Point { x_bits, y_bits, z_bits, intensity_bits }
}

/// The 16 little-endian bytes of one point: x, y, z, intensity.
pub open spec fn spec_encode_point(p: Point) -> Seq<u8> {
    seq![
        spec_le_byte(p.x_bits, 0),
        spec_le_byte(p.x_bits, 1),
        spec_le_byte(p.x_bits, 2),
        spec_le_byte(p.x_bits, 3),
        spec_le_byte(p.y_bits, 0),
        spec_le_byte(p.y_bits, 1),
        spec_le_byte(p.y_bits, 2),
        spec_le_byte(p.y_bits, 3),
        spec_le_byte(p.z_bits, 0),
        spec_le_byte(p.z_bits, 1),
        spec_le_byte(p.z_bits, 2),
        spec_le_byte(p.z_bits, 3),
        spec_le_byte(p.intensity_bits, 0),
        spec_le_byte(p.intensity_bits, 1),
        spec_le_byte(p.intensity_bits, 2),
        spec_le_byte(p.intensity_bits, 3),
    ]
}

/// The buffer that encodes a sequence of points at stride 16.
pub open spec fn spec_encode_points(pts: Seq<Point>) -> Seq<u8>
    decreases pts.len(),
{
    if pts.len() == 0 {
        Seq::empty()
    } else {
        spec_encode_point(pts[0]) + spec_encode_points(pts.drop_first())
    }
}

/// Round trip: decoding a buffer built from a sequence of points, at the
/// minimal stride, gives exactly that sequence back.
pub proof fn lemma_points_round_trip(pts: Seq<Point>)
    ensures
        spec_encode_points(pts).len() == 16 * pts.len(),
        spec_decode_points(spec_encode_points(pts), 16) == pts,
    decreases pts.len(),
{
    if pts.len() == 0 {
        assert(spec_decode_points(spec_encode_points(pts), 16) =~= pts);
    } else {
        let e = spec_encode_points(pts);
        let e0 = spec_encode_point(pts[0]);
        let rest = spec_encode_points(pts.drop_first());
        lemma_points_round_trip(pts.drop_first());
        assert(e.skip(16) =~= rest);
        lemma_le_u32_round_trip(pts[0].x_bits);
        lemma_le_u32_round_trip(pts[0].y_bits);
        lemma_le_u32_round_trip(pts[0].z_bits);
        lemma_le_u32_round_trip(pts[0].intensity_bits);
        assert(spec_point_at(e, 0) == pts[0]);
        assert(spec_decode_points(e, 16) == seq![pts[0]] + pts.drop_first());
        assert(seq![pts[0]] + pts.drop_first() =~= pts);
    }
}

/// Appends the four little-endian bytes of a value.
fn push_le_u32(out: &mut Vec<u8>, v: u32)
    ensures
        final(out)@ =~= old(out)@ + seq![
            spec_le_byte(v, 0),
            spec_le_byte(v, 1),
            spec_le_byte(v, 2),
            spec_le_byte(v, 3),
        ],
{
    out.push((v % 0x100) as u8);
    out.push(((v / 0x100) % 0x100) as u8);
    out.push(((v / 0x1_0000) % 0x100) as u8);
    out.push(((v / 0x100_0000) % 0x100) as u8);
}

/// Builds the point-cloud buffer that `decode_point_cloud` reads back at
/// stride 16: sixteen little-endian bytes per point.
#[verifier::rlimit(50)]
pub fn encode_point_cloud(points: &Vec<Point>) -> (out: Vec<u8>)
    ensures
        out@ == spec_encode_points(points@),
        out@.len() == 16 * points@.len(),
{
    let n = points.len();
    let mut out: Vec<u8> = Vec::new();
    let mut i: usize = 0;
    proof {
        assert(points@.skip(0) =~= points@);
    }
    while i < n
        invariant
            n == points@.len(),
            i <= n,
            out@.len() == 16 * i,
            spec_encode_points(points@) == out@ + spec_encode_points(points@.skip(i as int)),
        decreases n - i,
    {
        let ghost prev = out@;
        let ghost rest = points@.skip(i as int);
        proof {
            assert(rest[0] == points@[i as int]);
            assert(rest.drop_first() =~= points@.skip(i as int + 1));
        }
        let p = &points[i];
        push_le_u32(&mut out, p.x_bits);
        push_le_u32(&mut out, p.y_bits);
        push_le_u32(&mut out, p.z_bits);
        push_le_u32(&mut out, p.intensity_bits);
        proof {
            assert(out@ =~= prev + spec_encode_point(points@[i as int]));
            assert(out@ + spec_encode_points(points@.skip(i as int + 1)) =~= prev
                + spec_encode_points(rest));
        }
        i = i + 1;
    }
    proof {
        assert(points@.skip(n as int) =~= Seq::<Point>::empty());
        assert(out@ =~= out@ + spec_encode_points(Seq::<Point>::empty()));
        lemma_points_round_trip(points@);
    }
    out
}

/// The four schema fields that a well-formed point-cloud message declares.
pub fn standard_schema() -> (fields: Vec<FieldDesc>)
    ensures
        spec_schema_ok(fields@),
{
    let mut fields: Vec<FieldDesc> = Vec::new();
    fields.push(FieldDesc { name: "x".to_owned(), datatype: FIELD_FLOAT32, count: 1 });
    fields.push(FieldDesc { name: "y".to_owned(), datatype: FIELD_FLOAT32, count: 1 });
    fields.push(FieldDesc { name: "z".to_owned(), datatype: FIELD_FLOAT32, count: 1 });
    fields.push(FieldDesc { name: "intensity".to_owned(), datatype: FIELD_FLOAT32, count: 1 });
    fields
}

/// An image wire frame: dimensions, an encoding name, whether the data is
/// big-endian, a row stride and the pixel bytes.
#[derive(Clone, Debug)]
pub struct ImageInput {
    pub height: u32,
    pub width: u32,
    pub encoding: String,
    pub big_endian: bool,
    pub step: u32,
    pub data: Vec<u8>,
}

/// The red, green and blue bytes of a limited-range BT.709 YCbCr sample.
pub uninterp spec fn bt709_rgb(y: u8, cb: u8, cr: u8) -> (u8, u8, u8);

/// Relies on `yuv`'s `RGBConvert` with the BT.709 matrix and limited range:
/// the result is a function of the three input bytes alone, and
/// `RGBConvert::<u8>::new` always succeeds for this matrix and range.
#[verifier::external_body]
fn ycbcr_to_rgb(y: u8, cb: u8, cr: u8) -> (rgb: (u8, u8, u8))
    ensures
        rgb == bt709_rgb(y, cb, cr),
{
    let converter = RGBConvert::<u8>::new(Range::Limited, MatrixCoefficients::BT709).unwrap();
    let px = converter.to_rgb(YUV { y, u: cb, v: cr });
    (px.r, px.g, px.b)
}

/// Bytes per pixel of a supported image encoding; `None` for any other
/// encoding name.
pub open spec fn spec_encoding_bpp(enc: Seq<char>) -> Option<int> {
    if enc == "BGR8"@ {
        Some(3int)
    } else if enc == "RGB8"@ {
        Some(3int)
    } else if enc == "UYVY"@ {
        Some(2int)
    } else {
        None
    }
}

/// The error that an image decode reports, if any: the byte order first,
/// then the encoding name, then the row stride, then the buffer length.
pub open spec fn spec_image_error(img: ImageInput) -> Option<DecodeError> {
    if img.big_endian {
        Some(DecodeError::UnsupportedByteOrder)
    } else if spec_encoding_bpp(img.encoding@) is None {
        Some(DecodeError::UnsupportedEncoding)
    } else if img.step != img.width * spec_encoding_bpp(img.encoding@)->Some_0 {
        Some(DecodeError::SizeMismatch)
    } else if img.data@.len() != img.step * img.height {
        Some(DecodeError::SizeMismatch)
    } else {
        None
    }
}

/// A blue-green-red buffer reordered from red-green-blue bytes.
pub open spec fn spec_rgb_to_bgr(data: Seq<u8>) -> Seq<u8>
    recommends
        data.len() % 3 == 0,
{
    Seq::new(
        data.len(),
        |k: int|
            if k % 3 == 0 {
                data[k + 2]
            } else if k % 3 == 2 {
                data[k - 2]
            } else {
                data[k]
            },
    )
}

/// The blue-green-red bytes of a packed 4:2:2 chroma-subsampled buffer:
/// each four-byte group holds one chroma pair shared by two luma samples,
/// and each sample converts through the BT.709 limited-range matrix. A
/// trailing part shorter than one group yields no bytes.
pub open spec fn spec_uyvy_to_bgr(data: Seq<u8>) -> Seq<u8> {
    Seq::new(
        data.len() / 4 * 6,
        |k: int|
            {
                let p = k / 3;
                let c = k % 3;
                let g = p / 2;
                let y = if p % 2 == 0 {
                    data[4 * g + 1]
                } else {
                    data[4 * g + 3]
                };
                let rgb = bt709_rgb(y, data[4 * g], data[4 * g + 2]);
                if c == 0 {
                    rgb.2
                } else if c == 1 {
                    rgb.1
                } else {
                    rgb.0
                }
            },
    )
}

/// The pixel bytes that a well-formed image input decodes to, padded with
/// zero bytes up to three bytes per pixel (a trailing half-group of a
/// packed 4:2:2 buffer covers no pixel and leaves black pixels behind).
pub open spec fn spec_decoded_pixels(img: ImageInput) -> Seq<u8>
    recommends
        spec_image_error(img) is None,
{
    let full = 3 * (img.height as int) * (img.width as int);
    if img.encoding@ == "BGR8"@ {
        img.data@
    } else if img.encoding@ == "RGB8"@ {
        spec_rgb_to_bgr(img.data@)
    } else {
        let converted = spec_uyvy_to_bgr(img.data@);
        converted + Seq::new((full - converted.len()) as nat, |k: int| 0u8)
    }
}

/// Decodes an image wire frame, normalizing the supported encodings to
/// three bytes per pixel in blue, green, red order.
///
/// Big-endian data is rejected; the encoding must be one of `BGR8`, `RGB8`
/// and `UYVY`; the row stride must equal the width times the bytes per
/// pixel of the encoding, and the buffer must hold exactly one stride per
/// row.
#[verifier::rlimit(60)]
pub fn decode_image(img: &ImageInput) -> (r: Result<CameraFrame, DecodeError>)
    ensures
        match r {
            Ok(frame) => {
                &&& spec_image_error(*img) is None
                &&& frame.height == img.height
                &&& frame.width == img.width
                &&& frame.data@ == spec_decoded_pixels(*img)
                &&& frame.wf()
            },
            Err(e) => Some(e) == spec_image_error(*img),
        },
{
    if img.big_endian {
        return Err(DecodeError::UnsupportedByteOrder);
    }
    let is_bgr = img.encoding == "BGR8".to_owned();
    let is_rgb = img.encoding == "RGB8".to_owned();
    let is_uyvy = img.encoding == "UYVY".to_owned();
    if !(is_bgr || is_rgb || is_uyvy) {
        return Err(DecodeError::UnsupportedEncoding);
    }
    let bpp: u64 = if is_bgr || is_rgb {
        3
    } else {
        2
    };
    if img.step as u64 != img.width as u64 * bpp {
        return Err(DecodeError::SizeMismatch);
    }
    proof {
        assert((img.step as int) * (img.height as int) < 0x1_0000_0000_0000_0000)
            by (nonlinear_arith)
            requires
                img.step <= u32::MAX,
                img.height <= u32::MAX,
        ;
    }
    if img.data.len() as u64 != img.step as u64 * img.height as u64 {
        return Err(DecodeError::SizeMismatch);
    }
    let ghost h = img.height as int;
    let ghost w = img.width as int;
    let data = if is_bgr || is_rgb {
        proof {
            assert(img.data@.len() == 3 * h * w) by (nonlinear_arith)
                requires
                    img.data@.len() == (img.step as int) * h,
                    img.step as int == w * 3,
            ;
            assert(img.data@.len() == (h * w) * 3) by (nonlinear_arith)
                requires
                    img.data@.len() == 3 * h * w,
            ;
            vstd::arithmetic::div_mod::lemma_mod_multiples_basic(h * w, 3);
        }
        if is_bgr {
            copy_pixels(&img.data)
        } else {
            swap_pixels(&img.data)
        }
    } else {
        proof {
            let l = img.data@.len() as int;
            assert(l == 2 * (h * w)) by (nonlinear_arith)
                requires
                    l == (img.step as int) * h,
                    img.step as int == w * 2,
            ;
            vstd::arithmetic::div_mod::lemma_div_multiples_vanish(h * w, 2);
            assert(l / 2 * 3 == 3 * h * w) by (nonlinear_arith)
                requires
                    l / 2 == h * w,
            ;
            lemma_uyvy_padded_len(l);
        }
        let full: u128 = img.data.len() as u128 / 2 * 3;
        let mut out = convert_uyvy(&img.data);
        while (out.len() as u128) < full
            invariant
                full == img.data@.len() as int / 2 * 3,
                full == 3 * h * w,
                spec_uyvy_to_bgr(img.data@).len() <= out@.len(),
                out@.len() <= full,
                out@ == spec_uyvy_to_bgr(img.data@) + Seq::new(
                    (out@.len() - spec_uyvy_to_bgr(img.data@).len()) as nat,
                    |k: int| 0u8,
                ),
            decreases full - out@.len(),
        {
            out.push(0);
            proof {
                assert(out@ =~= spec_uyvy_to_bgr(img.data@) + Seq::new(
                    (out@.len() - spec_uyvy_to_bgr(img.data@).len()) as nat,
                    |k: int| 0u8,
                ));
            }
        }
        proof {
            assert(out@ =~= spec_decoded_pixels(*img));
        }
        out
    };
    Ok(CameraFrame { height: img.height, width: img.width, data })
}

/// The padded output of a packed 4:2:2 conversion never falls short of the
/// converted bytes, and rounds the pixel count up to the buffer's half.
proof fn lemma_uyvy_padded_len(len: int)
    requires
        len >= 0,
    ensures
        len / 4 * 6 <= len / 2 * 3,
        len % 2 == 0 ==> len / 2 * 3 - len / 4 * 6 <= 3,
{
    lemma_fundamental_div_mod(len, 4);
    lemma_fundamental_div_mod(len, 2);
    lemma_div_denominator(len, 2, 2);
    lemma_fundamental_div_mod(len / 2, 2);
}

/// Copies a blue-green-red buffer unchanged.
fn copy_pixels(data: &Vec<u8>) -> (out: Vec<u8>)
    ensures
        out@ == data@,
{
    let n = data.len();
    let mut out: Vec<u8> = Vec::new();
    let mut i: usize = 0;
    while i < n
        invariant
            n == data@.len(),
            i <= n,
            out@ =~= data@.take(i as int),
        decreases n - i,
    {
        out.push(data[i]);
        i = i + 1;
    }
    proof {
        assert(data@.take(n as int) =~= data@);
    }
    out
}

/// Reorders a red-green-blue buffer to blue, green, red bytes per pixel.
fn swap_pixels(data: &Vec<u8>) -> (out: Vec<u8>)
    requires
        data@.len() % 3 == 0,
    ensures
        out@ == spec_rgb_to_bgr(data@),
{
    let n_px = data.len() / 3;
    proof {
        lemma_fundamental_div_mod(data@.len() as int, 3);
    }
    let mut out: Vec<u8> = Vec::new();
    let mut p: usize = 0;
    while p < n_px
        invariant
            n_px == data@.len() as int / 3,
            data@.len() == 3 * n_px,
            data@.len() <= usize::MAX,
            out@.len() == 3 * p,
            p <= n_px,
            forall|k: int| 0 <= k < 3 * p ==> out@[k] == spec_rgb_to_bgr(data@)[k],
        decreases n_px - p,
    {
        let base = 3 * p;
        out.push(data[base + 2]);
        out.push(data[base + 1]);
        out.push(data[base]);
        proof {
            lemma_fundamental_div_mod_converse(base as int, 3, p as int, 0);
            lemma_fundamental_div_mod_converse(base as int + 1, 3, p as int, 1);
            lemma_fundamental_div_mod_converse(base as int + 2, 3, p as int, 2);
        }
        p = p + 1;
    }
    proof {
        assert(out@ =~= spec_rgb_to_bgr(data@));
    }
    out
}

/// Converts a packed 4:2:2 buffer: six blue-green-red bytes from each
/// four-byte group.
fn convert_uyvy(data: &Vec<u8>) -> (out: Vec<u8>)
    ensures
        out@ == spec_uyvy_to_bgr(data@),
{
    let n_g = data.len() / 4;
    proof {
        lemma_fundamental_div_mod(data@.len() as int, 4);
    }
    let mut out: Vec<u8> = Vec::new();
    let mut g: usize = 0;
    while g < n_g
        invariant
            n_g == data@.len() as int / 4,
            4 * n_g <= data@.len(),
            data@.len() <= usize::MAX,
            out@.len() == 6 * g,
            g <= n_g,
            forall|k: int| 0 <= k < 6 * g ==> out@[k] == spec_uyvy_to_bgr(data@)[k],
        decreases n_g - g,
    {
        let base = 4 * g;
        let cb = data[base];
        let y1 = data[base + 1];
        let cr = data[base + 2];
        let y2 = data[base + 3];
        let rgb1 = ycbcr_to_rgb(y1, cb, cr);
        let rgb2 = ycbcr_to_rgb(y2, cb, cr);
        out.push(rgb1.2);
        out.push(rgb1.1);
        out.push(rgb1.0);
        out.push(rgb2.2);
        out.push(rgb2.1);
        out.push(rgb2.0);
        proof {
            lemma_uyvy_group_indices(g as int);
            assert(forall|k: int|
                0 <= k < 6 * (g + 1) ==> out@[k] == spec_uyvy_to_bgr(data@)[k]);
        }
        g = g + 1;
    }
    proof {
        assert(out@ =~= spec_uyvy_to_bgr(data@));
    }
    out
}

/// The pixel, channel and group indices of the six output bytes of one
/// four-byte group.
proof fn lemma_uyvy_group_indices(g: int)
    requires
        g >= 0,
    ensures
        (6 * g) / 3 == 2 * g && (6 * g) % 3 == 0,
        (6 * g + 1) / 3 == 2 * g && (6 * g + 1) % 3 == 1,
        (6 * g + 2) / 3 == 2 * g && (6 * g + 2) % 3 == 2,
        (6 * g + 3) / 3 == 2 * g + 1 && (6 * g + 3) % 3 == 0,
        (6 * g + 4) / 3 == 2 * g + 1 && (6 * g + 4) % 3 == 1,
        (6 * g + 5) / 3 == 2 * g + 1 && (6 * g + 5) % 3 == 2,
        (2 * g) / 2 == g && (2 * g) % 2 == 0,
        (2 * g + 1) / 2 == g && (2 * g + 1) % 2 == 1,
{
    lemma_fundamental_div_mod_converse(6 * g, 3, 2 * g, 0);
    lemma_fundamental_div_mod_converse(6 * g + 1, 3, 2 * g, 1);
    lemma_fundamental_div_mod_converse(6 * g + 2, 3, 2 * g, 2);
    lemma_fundamental_div_mod_converse(6 * g + 3, 3, 2 * g + 1, 0);
    lemma_fundamental_div_mod_converse(6 * g + 4, 3, 2 * g + 1, 1);
    lemma_fundamental_div_mod_converse(6 * g + 5, 3, 2 * g + 1, 2);
    lemma_fundamental_div_mod_converse(2 * g, 2, g, 0);
    lemma_fundamental_div_mod_converse(2 * g + 1, 2, g, 1);
}

/// Reads a little-endian 32-bit value at `base`.
fn read_le_u32(data: &Vec<u8>, base: usize) -> (v: u32)
    requires
        base + 4 <= data.len(),
    ensures
        v == spec_le_u32(data@[base as int], data@[base as int + 1], data@[base as int + 2],
            data@[base as int + 3]),
{
    let b0 = data[base] as u32;
    let b1 = data[base + 1] as u32;
    let b2 = data[base + 2] as u32;
    let b3 = data[base + 3] as u32;
    b0 + b1 * 0x100 + b2 * 0x1_0000 + b3 * 0x100_0000
}

} // verus!
