use camera_fuse::codec::{
    decode_image, decode_point_cloud, encode_point_cloud, standard_schema, CameraFrame,
    DecodeError, FieldDesc, ImageInput, Point,
};

fn points_from_floats(vals: &[(f32, f32, f32, f32)]) -> Vec<Point> {
    vals.iter()
        .map(|&(x, y, z, i)| Point {
            x_bits: x.to_bits(),
            y_bits: y.to_bits(),
            z_bits: z.to_bits(),
            intensity_bits: i.to_bits(),
        })
        .collect()
}

#[test]
fn point_cloud_round_trip_is_bit_exact() {
    let floats = [
        (1.5f32, -2.25f32, 3.75f32, 0.5f32),
        (0.0, -0.0, 1.0e-40, 3.0e38),
        (123.456, -0.001, 65536.0, 1.0),
    ];
    let points = points_from_floats(&floats);
    let buf = encode_point_cloud(&points);
    assert_eq!(buf.len(), 16 * points.len());
    let fields = standard_schema();
    let frame = decode_point_cloud(&fields, 16, &buf).unwrap();
    assert_eq!(frame.points.len(), points.len());
    for (got, want) in frame.points.iter().zip(points.iter()) {
        assert_eq!(got.x_bits, want.x_bits);
        assert_eq!(got.y_bits, want.y_bits);
        assert_eq!(got.z_bits, want.z_bits);
        assert_eq!(got.intensity_bits, want.intensity_bits);
    }
    for (got, &(x, y, z, i)) in frame.points.iter().zip(floats.iter()) {
        assert_eq!(f32::from_bits(got.x_bits), x);
        assert_eq!(f32::from_bits(got.y_bits), y);
        assert_eq!(f32::from_bits(got.z_bits), z);
        assert_eq!(f32::from_bits(got.intensity_bits), i);
    }
}

#[test]
fn decode_reads_first_16_bytes_of_wider_strides() {
    let points = points_from_floats(&[(1.0, 2.0, 3.0, 4.0), (5.0, 6.0, 7.0, 8.0)]);
    let tight = encode_point_cloud(&points);
    let mut padded: Vec<u8> = Vec::new();
    for chunk in tight.chunks(16) {
        padded.extend_from_slice(chunk);
        padded.extend_from_slice(&[0xAA, 0xBB, 0xCC, 0xDD]);
    }
    let frame = decode_point_cloud(&standard_schema(), 20, &padded).unwrap();
    assert_eq!(frame.points, points);
}

fn field(name: &str, datatype: u8, count: u32) -> FieldDesc {
    FieldDesc {
        name: name.to_owned(),
        datatype,
        count,
    }
}

#[test]
fn wrong_field_name_is_schema_mismatch() {
    let fields = vec![
        field("x", 7, 1),
        field("y", 7, 1),
        field("depth", 7, 1),
        field("intensity", 7, 1),
    ];
    let data = vec![0u8; 32];
    assert_eq!(decode_point_cloud(&fields, 16, &data).unwrap_err(), DecodeError::SchemaMismatch);
}

#[test]
fn too_few_fields_is_schema_mismatch() {
    let fields = vec![field("x", 7, 1), field("y", 7, 1), field("z", 7, 1)];
    let data = vec![0u8; 16];
    assert_eq!(decode_point_cloud(&fields, 16, &data).unwrap_err(), DecodeError::SchemaMismatch);
}

#[test]
fn wrong_datatype_is_schema_mismatch() {
    let mut fields = standard_schema();
    fields[2].datatype = 8;
    let data = vec![0u8; 16];
    assert_eq!(decode_point_cloud(&fields, 16, &data).unwrap_err(), DecodeError::SchemaMismatch);
}

#[test]
fn wrong_count_is_schema_mismatch() {
    let mut fields = standard_schema();
    fields[3].count = 2;
    let data = vec![0u8; 16];
    assert_eq!(decode_point_cloud(&fields, 16, &data).unwrap_err(), DecodeError::SchemaMismatch);
}

#[test]
fn small_stride_is_invalid_stride() {
    let data = vec![0u8; 32];
    assert_eq!(decode_point_cloud(&standard_schema(), 8, &data).unwrap_err(), DecodeError::InvalidStride);
}

#[test]
fn ragged_buffer_is_size_mismatch() {
    let data = vec![0u8; 30];
    assert_eq!(decode_point_cloud(&standard_schema(), 16, &data).unwrap_err(), DecodeError::SizeMismatch);
}

fn image(encoding: &str, width: u32, height: u32, step: u32, data: Vec<u8>) -> ImageInput {
    ImageInput {
        height,
        width,
        encoding: encoding.to_owned(),
        big_endian: false,
        step,
        data,
    }
}

#[test]
fn bgr8_decodes_unchanged() {
    let img = image("BGR8", 2, 1, 6, vec![1, 2, 3, 4, 5, 6]);
    let frame = decode_image(&img).unwrap();
    assert_eq!(frame.width, 2);
    assert_eq!(frame.height, 1);
    assert_eq!(frame.data, vec![1, 2, 3, 4, 5, 6]);
}

#[test]
fn rgb8_swaps_to_bgr() {
    let img = image("RGB8", 2, 1, 6, vec![10, 20, 30, 40, 50, 60]);
    let frame = decode_image(&img).unwrap();
    assert_eq!(frame.data, vec![30, 20, 10, 60, 50, 40]);
}

fn bt709_limited_reference(y: u8, cb: u8, cr: u8) -> [i32; 3] {
    let y = f64::from(y) - 16.0;
    let cb = f64::from(cb) - 128.0;
    let cr = f64::from(cr) - 128.0;
    let r = 1.164_383 * y + 1.792_741 * cr;
    let g = 1.164_383 * y - 0.213_249 * cb - 0.532_909 * cr;
    let b = 1.164_383 * y + 2.112_402 * cb;
    let clamp = |v: f64| v.clamp(0.0, 255.0).round() as i32;
    [clamp(r), clamp(g), clamp(b)]
}

#[test]
fn uyvy_decodes_by_bt709_limited_matrix() {
    // One four-byte group: shared chroma pair, two luma samples.
    let (cb, y1, cr, y2) = (110u8, 81u8, 170u8, 100u8);
    let img = image("UYVY", 2, 1, 4, vec![cb, y1, cr, y2]);
    let frame = decode_image(&img).unwrap();
    assert_eq!(frame.data.len(), 6);
    let expected1 = bt709_limited_reference(y1, cb, cr);
    let expected2 = bt709_limited_reference(y2, cb, cr);
    // The frame stores blue, green, red.
    let got1 = [
        i32::from(frame.data[2]),
        i32::from(frame.data[1]),
        i32::from(frame.data[0]),
    ];
    let got2 = [
        i32::from(frame.data[5]),
        i32::from(frame.data[4]),
        i32::from(frame.data[3]),
    ];
    for c in 0..3 {
        assert!(
            (got1[c] - expected1[c]).abs() <= 1,
            "channel {c}: got {} want {}",
            got1[c],
            expected1[c]
        );
        assert!(
            (got2[c] - expected2[c]).abs() <= 1,
            "channel {c}: got {} want {}",
            got2[c],
            expected2[c]
        );
    }
}

#[test]
fn unknown_encoding_is_unsupported() {
    let img = image("YUYV", 2, 1, 4, vec![0; 4]);
    assert_eq!(decode_image(&img).unwrap_err(), DecodeError::UnsupportedEncoding);
}

#[test]
fn big_endian_is_unsupported_byte_order() {
    let mut img = image("BGR8", 2, 1, 6, vec![0; 6]);
    img.big_endian = true;
    assert_eq!(decode_image(&img).unwrap_err(), DecodeError::UnsupportedByteOrder);
}

#[test]
fn wrong_row_stride_is_size_mismatch() {
    let img = image("BGR8", 2, 1, 8, vec![0; 8]);
    assert_eq!(decode_image(&img).unwrap_err(), DecodeError::SizeMismatch);
}

#[test]
fn wrong_buffer_length_is_size_mismatch() {
    let img = image("BGR8", 2, 2, 6, vec![0; 6]);
    assert_eq!(decode_image(&img).unwrap_err(), DecodeError::SizeMismatch);
}

#[test]
fn rotation_reverses_pixel_order() {
    let frame = CameraFrame {
        height: 1,
        width: 2,
        data: vec![1, 2, 3, 4, 5, 6],
    };
    let rotated = frame.rotated_180();
    assert_eq!(rotated.data, vec![4, 5, 6, 1, 2, 3]);
    assert_eq!(rotated.width, 2);
    assert_eq!(rotated.height, 1);
}
