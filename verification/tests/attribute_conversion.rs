use gltf_loader::accessor::{AccessFailed, Accessor, BufferView, DataType, Dimensions};
use gltf_loader::attribute::{ElementFormat, VertexAttributeIter, VertexAttributeValues};
use gltf_loader::ONE_BITS;

fn packed(data_type: DataType, dimensions: Dimensions, count: usize, normalized: bool) -> Accessor {
    Accessor {
        view: Some(0),
        offset: 0,
        count,
        data_type,
        dimensions,
        normalized,
        sparse: false,
    }
}

fn one_view(length: usize) -> Vec<BufferView> {
    vec![BufferView { buffer: 0, offset: 0, length, stride: None }]
}

fn read<'a>(
    accessor: &'a Accessor,
    views: &'a Vec<BufferView>,
    buffers: &'a Vec<Vec<u8>>,
) -> VertexAttributeIter<'a> {
    VertexAttributeIter::from_accessor(accessor, views, buffers).unwrap()
}

fn as_floats<const N: usize>(rows: &Vec<[u32; N]>) -> Vec<[f32; N]> {
    rows.iter().map(|row| row.map(f32::from_bits)).collect()
}

fn close(a: f32, b: f32) -> bool {
    (a - b).abs() <= f32::EPSILON
}

#[test]
fn rgb_u8_color_becomes_float32x4_with_alpha_one() {
    let buffers = vec![vec![255, 128, 0, 1, 2, 3]];
    let views = one_view(6);
    let accessor = packed(DataType::U8, Dimensions::Vec3, 2, true);
    let values = read(&accessor, &views, &buffers).into_rgba_values().unwrap();
    let rows = match values {
        VertexAttributeValues::Float32x4(rows) => rows,
        other => panic!("unexpected values {:?}", other),
    };
    assert_eq!(rows.len(), 2);
    let components = [[255u8, 128, 0], [1, 2, 3]];
    for (row, source) in rows.iter().zip(components) {
        assert_eq!(row[3], ONE_BITS);
        assert_eq!(f32::from_bits(row[3]), 1.0);
        for k in 0..3 {
            assert!(close(f32::from_bits(row[k]), source[k] as f32 / 255.0));
        }
    }
    assert_eq!(rows[0][2], 0);
}

#[test]
fn rgb_u16_color_becomes_float32x4_with_alpha_one() {
    let buffers = vec![vec![0xff, 0xff, 0x00, 0x80, 0x00, 0x00]];
    let views = one_view(6);
    let accessor = packed(DataType::U16, Dimensions::Vec3, 1, true);
    let values = read(&accessor, &views, &buffers).into_rgba_values().unwrap();
    let rows = match values {
        VertexAttributeValues::Float32x4(rows) => as_floats(&rows),
        other => panic!("unexpected values {:?}", other),
    };
    assert_eq!(rows.len(), 1);
    assert!(close(rows[0][0], 1.0));
    assert!(close(rows[0][1], 32768.0 / 65535.0));
    assert_eq!(rows[0][2], 0.0);
    assert_eq!(rows[0][3], 1.0);
}

#[test]
fn rgba_u8_color_normalizes_its_alpha() {
    let buffers = vec![vec![0, 51, 102, 204]];
    let views = one_view(4);
    let accessor = packed(DataType::U8, Dimensions::Vec4, 1, true);
    let values = read(&accessor, &views, &buffers).into_rgba_values().unwrap();
    let rows = match values {
        VertexAttributeValues::Float32x4(rows) => as_floats(&rows),
        other => panic!("unexpected values {:?}", other),
    };
    assert_eq!(rows.len(), 1);
    assert_eq!(rows[0][0], 0.0);
    assert!(close(rows[0][1], 0.2));
    assert!(close(rows[0][2], 0.4));
    assert!(close(rows[0][3], 0.8));
}

#[test]
fn rgba_u16_color_normalizes_its_alpha() {
    let buffers = vec![vec![0xff, 0xff, 0x33, 0x33, 0x00, 0x00, 0xcc, 0xcc]];
    let views = one_view(8);
    let accessor = packed(DataType::U16, Dimensions::Vec4, 1, true);
    let values = read(&accessor, &views, &buffers).into_rgba_values().unwrap();
    let rows = match values {
        VertexAttributeValues::Float32x4(rows) => as_floats(&rows),
        other => panic!("unexpected values {:?}", other),
    };
    assert!(close(rows[0][0], 1.0));
    assert!(close(rows[0][1], 0.2));
    assert_eq!(rows[0][2], 0.0);
    assert!(close(rows[0][3], 0.8));
}

#[test]
fn rgb_float_color_gets_alpha_one_and_keeps_its_bits() {
    let channels = [0.25f32, 0.5, 0.75, 2.0, -1.0, f32::NAN];
    let bytes: Vec<u8> = channels.iter().flat_map(|c| c.to_le_bytes()).collect();
    let buffers = vec![bytes];
    let views = one_view(24);
    let accessor = packed(DataType::F32, Dimensions::Vec3, 2, false);
    let values = read(&accessor, &views, &buffers).into_rgba_values().unwrap();
    assert_eq!(
        values,
        VertexAttributeValues::Float32x4(vec![
            [channels[0].to_bits(), channels[1].to_bits(), channels[2].to_bits(), ONE_BITS],
            [channels[3].to_bits(), channels[4].to_bits(), channels[5].to_bits(), ONE_BITS],
        ])
    );
}

#[test]
fn colors_that_are_no_color_source_stay_as_they_are() {
    let buffers = vec![vec![1, 2, 3, 4, 5, 6, 7, 8, 9, 10, 11, 12, 13, 14, 15, 16]];
    let views = one_view(16);
    let accessor = packed(DataType::U8, Dimensions::Vec4, 1, false);
    assert_eq!(
        read(&accessor, &views, &buffers).into_rgba_values(),
        Ok(VertexAttributeValues::Uint8x4(vec![[1, 2, 3, 4]]))
    );
    let accessor = packed(DataType::U16, Dimensions::Vec4, 1, false);
    assert_eq!(
        read(&accessor, &views, &buffers).into_rgba_values(),
        Ok(VertexAttributeValues::Uint16x4(vec![[0x0201, 0x0403, 0x0605, 0x0807]]))
    );
    let accessor = packed(DataType::U8, Dimensions::Vec3, 1, false);
    assert_eq!(
        read(&accessor, &views, &buffers).into_rgba_values(),
        Err(AccessFailed::UnsupportedFormat)
    );
    let accessor = packed(DataType::U16, Dimensions::Vec3, 1, false);
    assert_eq!(
        read(&accessor, &views, &buffers).into_rgba_values(),
        Err(AccessFailed::UnsupportedFormat)
    );
    let accessor = packed(DataType::F32, Dimensions::Vec4, 1, false);
    assert_eq!(
        read(&accessor, &views, &buffers).into_rgba_values(),
        Ok(VertexAttributeValues::Float32x4(vec![[
            0x0403_0201,
            0x0807_0605,
            0x0c0b_0a09,
            0x100f_0e0d
        ]]))
    );
    let accessor = packed(DataType::I8, Dimensions::Vec4, 1, true);
    assert_eq!(
        read(&accessor, &views, &buffers).into_rgba_values(),
        Ok(VertexAttributeValues::Snorm8x4(vec![[1, 2, 3, 4]]))
    );
}

#[test]
fn joint_indices_widen_without_scaling() {
    let buffers = vec![vec![0, 1, 127, 255, 4, 3, 2, 1]];
    let views = one_view(8);
    let accessor = packed(DataType::U8, Dimensions::Vec4, 2, false);
    assert_eq!(
        read(&accessor, &views, &buffers).into_joint_index_values(),
        Ok(VertexAttributeValues::Uint16x4(vec![[0, 1, 127, 255], [4, 3, 2, 1]]))
    );
}

#[test]
fn joint_indices_of_16_bits_stay_and_normalized_ones_are_not_widened() {
    let buffers = vec![vec![0, 1, 127, 255, 4, 3, 2, 1]];
    let views = one_view(8);
    let accessor = packed(DataType::U16, Dimensions::Vec4, 1, false);
    assert_eq!(
        read(&accessor, &views, &buffers).into_joint_index_values(),
        Ok(VertexAttributeValues::Uint16x4(vec![[0x0100, 0xff7f, 0x0304, 0x0102]]))
    );
    let accessor = packed(DataType::U8, Dimensions::Vec4, 2, true);
    assert_eq!(
        read(&accessor, &views, &buffers).into_joint_index_values(),
        Ok(VertexAttributeValues::Unorm8x4(vec![[0, 1, 127, 255], [4, 3, 2, 1]]))
    );
}

#[test]
fn texture_coordinates_of_normalized_integers_become_floats() {
    let buffers = vec![vec![0, 255, 51, 204]];
    let views = one_view(4);
    let accessor = packed(DataType::U8, Dimensions::Vec2, 2, true);
    let values = read(&accessor, &views, &buffers).into_tex_coord_values().unwrap();
    let rows = match values {
        VertexAttributeValues::Float32x2(rows) => as_floats(&rows),
        other => panic!("unexpected values {:?}", other),
    };
    assert_eq!(rows.len(), 2);
    assert_eq!(rows[0][0], 0.0);
    assert!(close(rows[0][1], 1.0));
    assert!(close(rows[1][0], 0.2));
    assert!(close(rows[1][1], 0.8));

    let accessor = packed(DataType::U16, Dimensions::Vec2, 1, true);
    let values = read(&accessor, &views, &buffers).into_tex_coord_values().unwrap();
    let rows = match values {
        VertexAttributeValues::Float32x2(rows) => as_floats(&rows),
        other => panic!("unexpected values {:?}", other),
    };
    assert_eq!(rows.len(), 1);
    assert!(close(rows[0][0], 0xff00 as f32 / 65535.0));
    assert!(close(rows[0][1], 0xcc33 as f32 / 65535.0));
}

#[test]
fn texture_coordinates_of_other_formats_stay_as_they_are() {
    let buffers = vec![vec![0, 255, 51, 204, 0, 0, 128, 63]];
    let views = one_view(8);
    let accessor = packed(DataType::U8, Dimensions::Vec2, 1, false);
    assert_eq!(
        read(&accessor, &views, &buffers).into_tex_coord_values(),
        Ok(VertexAttributeValues::Uint8x2(vec![[0, 255]]))
    );
    let accessor = packed(DataType::F32, Dimensions::Vec2, 1, false);
    assert_eq!(
        read(&accessor, &views, &buffers).into_tex_coord_values(),
        Ok(VertexAttributeValues::Float32x2(vec![[0xcc33_ff00, ONE_BITS]]))
    );
    let accessor = packed(DataType::I16, Dimensions::Vec2, 1, true);
    assert_eq!(
        read(&accessor, &views, &buffers).into_tex_coord_values(),
        Ok(VertexAttributeValues::Snorm16x2(vec![[-256, -13261]]))
    );
}

#[test]
fn every_format_is_found_for_its_type_and_dimensions() {
    assert_eq!(ElementFormat::of(DataType::F32, Dimensions::Scalar), Some(ElementFormat::F32));
    assert_eq!(ElementFormat::of(DataType::U32, Dimensions::Vec3), Some(ElementFormat::U32x3));
    assert_eq!(ElementFormat::of(DataType::I16, Dimensions::Vec4), Some(ElementFormat::S16x4));
    assert_eq!(ElementFormat::of(DataType::U8, Dimensions::Vec3), Some(ElementFormat::U8x3));
    assert_eq!(ElementFormat::of(DataType::I8, Dimensions::Vec2), Some(ElementFormat::S8x2));
    assert_eq!(ElementFormat::of(DataType::I8, Dimensions::Vec3), None);
    assert_eq!(ElementFormat::of(DataType::F32, Dimensions::Mat4), None);
    assert_eq!(ElementFormat::of(DataType::U16, Dimensions::Scalar), None);
}
