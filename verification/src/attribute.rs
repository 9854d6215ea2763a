//! The vertex attribute conversion engine.
//!
//! The elements of a vertex attribute are read in one of a fixed set of formats and then
//! turned into values in one of the storage formats of a mesh. Most attributes keep the
//! format they were read in. Colors become four single-precision channels,
//! texture coordinates two single-precision numbers, and joint indices four
//! unsigned 16-bit numbers.
use crate::accessor::{
    accessed, component, rows, rows_i16, rows_i8, rows_scalar, rows_u16, rows_u32, rows_u8,
    AccessFailed, Accessor, BufferAccessor, BufferView, DataType, Dimensions, ItemIter, ItemsView,
    Normalization, fits,
};
use crate::ONE_BITS;
use vstd::prelude::*;

verus! {

/// The formats in which the elements of a vertex attribute are read: a component type
/// and a number of components.
#[derive(Clone, Copy, Debug, PartialEq, Eq, Structural)]
pub enum ElementFormat {
    F32,
    U32,
    F32x2,
    U32x2,
    F32x3,
    U32x3,
    F32x4,
    U32x4,
    S16x2,
    U16x2,
    S16x4,
    U16x4,
    S8x2,
    U8x2,
    S8x4,
    U8x4,
    U16x3,
    U8x3,
}

impl ElementFormat {
    /// The type of the components.
    pub open spec fn component(self) -> DataType {
        match self {
            ElementFormat::F32 => DataType::F32,
            ElementFormat::U32 => DataType::U32,
            ElementFormat::F32x2 => DataType::F32,
            ElementFormat::U32x2 => DataType::U32,
            ElementFormat::F32x3 => DataType::F32,
            ElementFormat::U32x3 => DataType::U32,
            ElementFormat::F32x4 => DataType::F32,
            ElementFormat::U32x4 => DataType::U32,
            ElementFormat::S16x2 => DataType::I16,
            ElementFormat::U16x2 => DataType::U16,
            ElementFormat::S16x4 => DataType::I16,
            ElementFormat::U16x4 => DataType::U16,
            ElementFormat::S8x2 => DataType::I8,
            ElementFormat::U8x2 => DataType::U8,
            ElementFormat::S8x4 => DataType::I8,
            ElementFormat::U8x4 => DataType::U8,
            ElementFormat::U16x3 => DataType::U16,
            ElementFormat::U8x3 => DataType::U8,
        }
    }

    /// How many components an element has.
    pub open spec fn width(self) -> nat {
        match self {
            ElementFormat::F32 => 1,
            ElementFormat::U32 => 1,
            ElementFormat::F32x2 => 2,
            ElementFormat::U32x2 => 2,
            ElementFormat::F32x3 => 3,
            ElementFormat::U32x3 => 3,
            ElementFormat::F32x4 => 4,
            ElementFormat::U32x4 => 4,
            ElementFormat::S16x2 => 2,
            ElementFormat::U16x2 => 2,
            ElementFormat::S16x4 => 4,
            ElementFormat::U16x4 => 4,
            ElementFormat::S8x2 => 2,
            ElementFormat::U8x2 => 2,
            ElementFormat::S8x4 => 4,
            ElementFormat::U8x4 => 4,
            ElementFormat::U16x3 => 3,
            ElementFormat::U8x3 => 3,
        }
    }

    /// How many bytes an element takes.
    pub open spec fn size(self) -> nat {
        match self {
            ElementFormat::F32 => 4,
            ElementFormat::U32 => 4,
            ElementFormat::F32x2 => 8,
            ElementFormat::U32x2 => 8,
            ElementFormat::F32x3 => 12,
            ElementFormat::U32x3 => 12,
            ElementFormat::F32x4 => 16,
            ElementFormat::U32x4 => 16,
            ElementFormat::S16x2 => 4,
            ElementFormat::U16x2 => 4,
            ElementFormat::S16x4 => 8,
            ElementFormat::U16x4 => 8,
            ElementFormat::S8x2 => 2,
            ElementFormat::U8x2 => 2,
            ElementFormat::S8x4 => 4,
            ElementFormat::U8x4 => 4,
            ElementFormat::U16x3 => 6,
            ElementFormat::U8x3 => 3,
        }
    }

    /// Whether the components may stand for fractions: integers of 8 or 16 bits may.
    pub open spec fn normalizable(self) -> bool {
        match self.component() {
            DataType::U32 | DataType::F32 => false,
            _ => true,
        }
    }

    /// The storage format that holds such elements as they are, if there is one.
    pub open spec fn native(self, normalized: bool) -> Option<VertexFormat> {
        match self {
            ElementFormat::F32 => Some(VertexFormat::Float32),
            ElementFormat::U32 => Some(VertexFormat::Uint32),
            ElementFormat::F32x2 => Some(VertexFormat::Float32x2),
            ElementFormat::U32x2 => Some(VertexFormat::Uint32x2),
            ElementFormat::F32x3 => Some(VertexFormat::Float32x3),
            ElementFormat::U32x3 => Some(VertexFormat::Uint32x3),
            ElementFormat::F32x4 => Some(VertexFormat::Float32x4),
            ElementFormat::U32x4 => Some(VertexFormat::Uint32x4),
            ElementFormat::S16x2 => Some(
                if normalized {
                    VertexFormat::Snorm16x2
                } else {
                    VertexFormat::Sint16x2
                },
            ),
            ElementFormat::U16x2 => Some(
                if normalized {
                    VertexFormat::Unorm16x2
                } else {
                    VertexFormat::Uint16x2
                },
            ),
            ElementFormat::S16x4 => Some(
                if normalized {
                    VertexFormat::Snorm16x4
                } else {
                    VertexFormat::Sint16x4
                },
            ),
            ElementFormat::U16x4 => Some(
                if normalized {
                    VertexFormat::Unorm16x4
                } else {
                    VertexFormat::Uint16x4
                },
            ),
            ElementFormat::S8x2 => Some(
                if normalized {
                    VertexFormat::Snorm8x2
                } else {
                    VertexFormat::Sint8x2
                },
            ),
            ElementFormat::U8x2 => Some(
                if normalized {
                    VertexFormat::Unorm8x2
                } else {
                    VertexFormat::Uint8x2
                },
            ),
            ElementFormat::S8x4 => Some(
                if normalized {
                    VertexFormat::Snorm8x4
                } else {
                    VertexFormat::Sint8x4
                },
            ),
            ElementFormat::U8x4 => Some(
                if normalized {
                    VertexFormat::Unorm8x4
                } else {
                    VertexFormat::Uint8x4
                },
            ),
            ElementFormat::U16x3 => None,
            ElementFormat::U8x3 => None,
        }
    }

    /// The format in which elements of the given component type and dimensionality
    /// are read, if there is one.
    pub fn of(data_type: DataType, dimensions: Dimensions) -> (r: Option<ElementFormat>)
        ensures
            r == element_format(data_type, dimensions),
    {
        match (data_type, dimensions) {
            (DataType::F32, Dimensions::Scalar) => Some(ElementFormat::F32),
            (DataType::U32, Dimensions::Scalar) => Some(ElementFormat::U32),
            (DataType::F32, Dimensions::Vec2) => Some(ElementFormat::F32x2),
            (DataType::U32, Dimensions::Vec2) => Some(ElementFormat::U32x2),
            (DataType::F32, Dimensions::Vec3) => Some(ElementFormat::F32x3),
            (DataType::U32, Dimensions::Vec3) => Some(ElementFormat::U32x3),
            (DataType::F32, Dimensions::Vec4) => Some(ElementFormat::F32x4),
            (DataType::U32, Dimensions::Vec4) => Some(ElementFormat::U32x4),
            (DataType::I16, Dimensions::Vec2) => Some(ElementFormat::S16x2),
            (DataType::U16, Dimensions::Vec2) => Some(ElementFormat::U16x2),
            (DataType::I16, Dimensions::Vec4) => Some(ElementFormat::S16x4),
            (DataType::U16, Dimensions::Vec4) => Some(ElementFormat::U16x4),
            (DataType::I8, Dimensions::Vec2) => Some(ElementFormat::S8x2),
            (DataType::U8, Dimensions::Vec2) => Some(ElementFormat::U8x2),
            (DataType::I8, Dimensions::Vec4) => Some(ElementFormat::S8x4),
            (DataType::U8, Dimensions::Vec4) => Some(ElementFormat::U8x4),
            (DataType::U16, Dimensions::Vec3) => Some(ElementFormat::U16x3),
            (DataType::U8, Dimensions::Vec3) => Some(ElementFormat::U8x3),
            _ => None,
        }
    }
}

/// The format in which elements of the given component type and dimensionality are
/// read, if there is one.
pub open spec fn element_format(data_type: DataType, dimensions: Dimensions) -> Option<
    ElementFormat,
> {
    match (data_type, dimensions) {
        (DataType::F32, Dimensions::Scalar) => Some(ElementFormat::F32),
        (DataType::U32, Dimensions::Scalar) => Some(ElementFormat::U32),
        (DataType::F32, Dimensions::Vec2) => Some(ElementFormat::F32x2),
        (DataType::U32, Dimensions::Vec2) => Some(ElementFormat::U32x2),
        (DataType::F32, Dimensions::Vec3) => Some(ElementFormat::F32x3),
        (DataType::U32, Dimensions::Vec3) => Some(ElementFormat::U32x3),
        (DataType::F32, Dimensions::Vec4) => Some(ElementFormat::F32x4),
        (DataType::U32, Dimensions::Vec4) => Some(ElementFormat::U32x4),
        (DataType::I16, Dimensions::Vec2) => Some(ElementFormat::S16x2),
        (DataType::U16, Dimensions::Vec2) => Some(ElementFormat::U16x2),
        (DataType::I16, Dimensions::Vec4) => Some(ElementFormat::S16x4),
        (DataType::U16, Dimensions::Vec4) => Some(ElementFormat::U16x4),
        (DataType::I8, Dimensions::Vec2) => Some(ElementFormat::S8x2),
        (DataType::U8, Dimensions::Vec2) => Some(ElementFormat::U8x2),
        (DataType::I8, Dimensions::Vec4) => Some(ElementFormat::S8x4),
        (DataType::U8, Dimensions::Vec4) => Some(ElementFormat::U8x4),
        (DataType::U16, Dimensions::Vec3) => Some(ElementFormat::U16x3),
        (DataType::U8, Dimensions::Vec3) => Some(ElementFormat::U8x3),
        _ => None,
    }
}

/// The elements of a vertex attribute as read: their format, whether their components
/// stand for fractions, and their bytes.
pub struct Elements {
    pub format: ElementFormat,
    pub normalized: bool,
    pub items: ItemsView,
}

/// The elements read in `format` from what decoding the accessor gave: only
/// normalizable formats may be normalized.
pub open spec fn elements_in(
    format: ElementFormat,
    normalized: bool,
    items: Result<ItemsView, AccessFailed>,
) -> Result<Elements, AccessFailed> {
    if normalized && !format.normalizable() {
        Err(AccessFailed::UnsupportedFormat)
    } else {
        match items {
            Ok(items) => Ok(Elements { format, normalized, items }),
            Err(e) => Err(e),
        }
    }
}

/// What reading the elements of `accessor` gives: the format must exist, only
/// normalizable formats may be normalized, and the accessor must decode.
pub open spec fn attribute_elements(
    accessor: Accessor,
    views: Seq<BufferView>,
    buffers: Seq<Vec<u8>>,
) -> Result<Elements, AccessFailed> {
    match element_format(accessor.data_type, accessor.dimensions) {
        None => Err(AccessFailed::UnsupportedFormat),
        Some(format) => elements_in(
            format,
            accessor.normalized,
            accessed(accessor, views, buffers, format.size()),
        ),
    }
}

/// The storage formats of vertex attribute values.
#[derive(Clone, Copy, Debug, PartialEq, Eq, Structural)]
pub enum VertexFormat {
    Float32,
    Uint32,
    Float32x2,
    Uint32x2,
    Float32x3,
    Uint32x3,
    Float32x4,
    Uint32x4,
    Sint16x2,
    Snorm16x2,
    Uint16x2,
    Unorm16x2,
    Sint16x4,
    Snorm16x4,
    Uint16x4,
    Unorm16x4,
    Sint8x2,
    Snorm8x2,
    Uint8x2,
    Unorm8x2,
    Sint8x4,
    Snorm8x4,
    Uint8x4,
    Unorm8x4,
}

/// The values of a vertex attribute, by storage format. A single-precision number is
/// held as its bit pattern.
#[derive(Clone, Debug, PartialEq, Eq)]
pub enum VertexAttributeValues {
    Float32(Vec<u32>),
    Uint32(Vec<u32>),
    Float32x2(Vec<[u32; 2]>),
    Uint32x2(Vec<[u32; 2]>),
    Float32x3(Vec<[u32; 3]>),
    Uint32x3(Vec<[u32; 3]>),
    Float32x4(Vec<[u32; 4]>),
    Uint32x4(Vec<[u32; 4]>),
    Sint16x2(Vec<[i16; 2]>),
    Snorm16x2(Vec<[i16; 2]>),
    Uint16x2(Vec<[u16; 2]>),
    Unorm16x2(Vec<[u16; 2]>),
    Sint16x4(Vec<[i16; 4]>),
    Snorm16x4(Vec<[i16; 4]>),
    Uint16x4(Vec<[u16; 4]>),
    Unorm16x4(Vec<[u16; 4]>),
    Sint8x2(Vec<[i8; 2]>),
    Snorm8x2(Vec<[i8; 2]>),
    Uint8x2(Vec<[u8; 2]>),
    Unorm8x2(Vec<[u8; 2]>),
    Sint8x4(Vec<[i8; 4]>),
    Snorm8x4(Vec<[i8; 4]>),
    Uint8x4(Vec<[u8; 4]>),
    Unorm8x4(Vec<[u8; 4]>),
}

/// Vertex attribute values as mathematics: a storage format and one row of numbers for
/// each vertex.
pub struct Values {
    pub format: VertexFormat,
    pub rows: Seq<Seq<int>>,
}

impl View for VertexAttributeValues {
    type V = Values;

    open spec fn view(&self) -> Values {
        match self {
            VertexAttributeValues::Float32(v) => Values {
                format: VertexFormat::Float32,
                rows: rows_scalar(v@),
            },
            VertexAttributeValues::Uint32(v) => Values {
                format: VertexFormat::Uint32,
                rows: rows_scalar(v@),
            },
            VertexAttributeValues::Float32x2(v) => Values {
                format: VertexFormat::Float32x2,
                rows: rows_u32(v@),
            },
            VertexAttributeValues::Uint32x2(v) => Values {
                format: VertexFormat::Uint32x2,
                rows: rows_u32(v@),
            },
            VertexAttributeValues::Float32x3(v) => Values {
                format: VertexFormat::Float32x3,
                rows: rows_u32(v@),
            },
            VertexAttributeValues::Uint32x3(v) => Values {
                format: VertexFormat::Uint32x3,
                rows: rows_u32(v@),
            },
            VertexAttributeValues::Float32x4(v) => Values {
                format: VertexFormat::Float32x4,
                rows: rows_u32(v@),
            },
            VertexAttributeValues::Uint32x4(v) => Values {
                format: VertexFormat::Uint32x4,
                rows: rows_u32(v@),
            },
            VertexAttributeValues::Sint16x2(v) => Values {
                format: VertexFormat::Sint16x2,
                rows: rows_i16(v@),
            },
            VertexAttributeValues::Snorm16x2(v) => Values {
                format: VertexFormat::Snorm16x2,
                rows: rows_i16(v@),
            },
            VertexAttributeValues::Uint16x2(v) => Values {
                format: VertexFormat::Uint16x2,
                rows: rows_u16(v@),
            },
            VertexAttributeValues::Unorm16x2(v) => Values {
                format: VertexFormat::Unorm16x2,
                rows: rows_u16(v@),
            },
            VertexAttributeValues::Sint16x4(v) => Values {
                format: VertexFormat::Sint16x4,
                rows: rows_i16(v@),
            },
            VertexAttributeValues::Snorm16x4(v) => Values {
                format: VertexFormat::Snorm16x4,
                rows: rows_i16(v@),
            },
            VertexAttributeValues::Uint16x4(v) => Values {
                format: VertexFormat::Uint16x4,
                rows: rows_u16(v@),
            },
            VertexAttributeValues::Unorm16x4(v) => Values {
                format: VertexFormat::Unorm16x4,
                rows: rows_u16(v@),
            },
            VertexAttributeValues::Sint8x2(v) => Values {
                format: VertexFormat::Sint8x2,
                rows: rows_i8(v@),
            },
            VertexAttributeValues::Snorm8x2(v) => Values {
                format: VertexFormat::Snorm8x2,
                rows: rows_i8(v@),
            },
            VertexAttributeValues::Uint8x2(v) => Values {
                format: VertexFormat::Uint8x2,
                rows: rows_u8(v@),
            },
            VertexAttributeValues::Unorm8x2(v) => Values {
                format: VertexFormat::Unorm8x2,
                rows: rows_u8(v@),
            },
            VertexAttributeValues::Sint8x4(v) => Values {
                format: VertexFormat::Sint8x4,
                rows: rows_i8(v@),
            },
            VertexAttributeValues::Snorm8x4(v) => Values {
                format: VertexFormat::Snorm8x4,
                rows: rows_i8(v@),
            },
            VertexAttributeValues::Uint8x4(v) => Values {
                format: VertexFormat::Uint8x4,
                rows: rows_u8(v@),
            },
            VertexAttributeValues::Unorm8x4(v) => Values {
                format: VertexFormat::Unorm8x4,
                rows: rows_u8(v@),
            },
        }
    }
}

impl VertexAttributeValues {
    /// The storage format of the values.
    pub fn format(&self) -> (r: VertexFormat)
        ensures
            r == self@.format,
    {
        match self {
            VertexAttributeValues::Float32(_) => VertexFormat::Float32,
            VertexAttributeValues::Uint32(_) => VertexFormat::Uint32,
            VertexAttributeValues::Float32x2(_) => VertexFormat::Float32x2,
            VertexAttributeValues::Uint32x2(_) => VertexFormat::Uint32x2,
            VertexAttributeValues::Float32x3(_) => VertexFormat::Float32x3,
            VertexAttributeValues::Uint32x3(_) => VertexFormat::Uint32x3,
            VertexAttributeValues::Float32x4(_) => VertexFormat::Float32x4,
            VertexAttributeValues::Uint32x4(_) => VertexFormat::Uint32x4,
            VertexAttributeValues::Sint16x2(_) => VertexFormat::Sint16x2,
            VertexAttributeValues::Snorm16x2(_) => VertexFormat::Snorm16x2,
            VertexAttributeValues::Uint16x2(_) => VertexFormat::Uint16x2,
            VertexAttributeValues::Unorm16x2(_) => VertexFormat::Unorm16x2,
            VertexAttributeValues::Sint16x4(_) => VertexFormat::Sint16x4,
            VertexAttributeValues::Snorm16x4(_) => VertexFormat::Snorm16x4,
            VertexAttributeValues::Uint16x4(_) => VertexFormat::Uint16x4,
            VertexAttributeValues::Unorm16x4(_) => VertexFormat::Unorm16x4,
            VertexAttributeValues::Sint8x2(_) => VertexFormat::Sint8x2,
            VertexAttributeValues::Snorm8x2(_) => VertexFormat::Snorm8x2,
            VertexAttributeValues::Uint8x2(_) => VertexFormat::Uint8x2,
            VertexAttributeValues::Unorm8x2(_) => VertexFormat::Unorm8x2,
            VertexAttributeValues::Sint8x4(_) => VertexFormat::Sint8x4,
            VertexAttributeValues::Snorm8x4(_) => VertexFormat::Snorm8x4,
            VertexAttributeValues::Uint8x4(_) => VertexFormat::Uint8x4,
            VertexAttributeValues::Unorm8x4(_) => VertexFormat::Unorm8x4,
        }
    }

    /// How many vertices the values are for.
    pub fn len(&self) -> (r: usize)
        ensures
            r == self@.rows.len(),
    {
        match self {
            VertexAttributeValues::Float32(v) => v.len(),
            VertexAttributeValues::Uint32(v) => v.len(),
            VertexAttributeValues::Float32x2(v) => v.len(),
            VertexAttributeValues::Uint32x2(v) => v.len(),
            VertexAttributeValues::Float32x3(v) => v.len(),
            VertexAttributeValues::Uint32x3(v) => v.len(),
            VertexAttributeValues::Float32x4(v) => v.len(),
            VertexAttributeValues::Uint32x4(v) => v.len(),
            VertexAttributeValues::Sint16x2(v) => v.len(),
            VertexAttributeValues::Snorm16x2(v) => v.len(),
            VertexAttributeValues::Uint16x2(v) => v.len(),
            VertexAttributeValues::Unorm16x2(v) => v.len(),
            VertexAttributeValues::Sint16x4(v) => v.len(),
            VertexAttributeValues::Snorm16x4(v) => v.len(),
            VertexAttributeValues::Uint16x4(v) => v.len(),
            VertexAttributeValues::Unorm16x4(v) => v.len(),
            VertexAttributeValues::Sint8x2(v) => v.len(),
            VertexAttributeValues::Snorm8x2(v) => v.len(),
            VertexAttributeValues::Uint8x2(v) => v.len(),
            VertexAttributeValues::Unorm8x2(v) => v.len(),
            VertexAttributeValues::Sint8x4(v) => v.len(),
            VertexAttributeValues::Snorm8x4(v) => v.len(),
            VertexAttributeValues::Uint8x4(v) => v.len(),
            VertexAttributeValues::Unorm8x4(v) => v.len(),
        }
    }
}

/// The located elements of a vertex attribute, by the format in which they are read.
#[derive(Clone, Copy, Debug)]
pub enum VertexAttributeIter<'a> {
    F32(ItemIter<'a, 4>),
    U32(ItemIter<'a, 4>),
    F32x2(ItemIter<'a, 8>),
    U32x2(ItemIter<'a, 8>),
    F32x3(ItemIter<'a, 12>),
    U32x3(ItemIter<'a, 12>),
    F32x4(ItemIter<'a, 16>),
    U32x4(ItemIter<'a, 16>),
    S16x2(ItemIter<'a, 4>, Normalization),
    U16x2(ItemIter<'a, 4>, Normalization),
    S16x4(ItemIter<'a, 8>, Normalization),
    U16x4(ItemIter<'a, 8>, Normalization),
    S8x2(ItemIter<'a, 2>, Normalization),
    U8x2(ItemIter<'a, 2>, Normalization),
    S8x4(ItemIter<'a, 4>, Normalization),
    U8x4(ItemIter<'a, 4>, Normalization),
    U16x3(ItemIter<'a, 6>, Normalization),
    U8x3(ItemIter<'a, 3>, Normalization),
}

impl<'a> View for VertexAttributeIter<'a> {
    type V = Elements;

    open spec fn view(&self) -> Elements {
        match self {
            VertexAttributeIter::F32(it) => Elements {
                format: ElementFormat::F32,
                normalized: false,
                items: it@,
            },
            VertexAttributeIter::U32(it) => Elements {
                format: ElementFormat::U32,
                normalized: false,
                items: it@,
            },
            VertexAttributeIter::F32x2(it) => Elements {
                format: ElementFormat::F32x2,
                normalized: false,
                items: it@,
            },
            VertexAttributeIter::U32x2(it) => Elements {
                format: ElementFormat::U32x2,
                normalized: false,
                items: it@,
            },
            VertexAttributeIter::F32x3(it) => Elements {
                format: ElementFormat::F32x3,
                normalized: false,
                items: it@,
            },
            VertexAttributeIter::U32x3(it) => Elements {
                format: ElementFormat::U32x3,
                normalized: false,
                items: it@,
            },
            VertexAttributeIter::F32x4(it) => Elements {
                format: ElementFormat::F32x4,
                normalized: false,
                items: it@,
            },
            VertexAttributeIter::U32x4(it) => Elements {
                format: ElementFormat::U32x4,
                normalized: false,
                items: it@,
            },
            VertexAttributeIter::S16x2(it, n) => Elements {
                format: ElementFormat::S16x2,
                normalized: n.0,
                items: it@,
            },
            VertexAttributeIter::U16x2(it, n) => Elements {
                format: ElementFormat::U16x2,
                normalized: n.0,
                items: it@,
            },
            VertexAttributeIter::S16x4(it, n) => Elements {
                format: ElementFormat::S16x4,
                normalized: n.0,
                items: it@,
            },
            VertexAttributeIter::U16x4(it, n) => Elements {
                format: ElementFormat::U16x4,
                normalized: n.0,
                items: it@,
            },
            VertexAttributeIter::S8x2(it, n) => Elements {
                format: ElementFormat::S8x2,
                normalized: n.0,
                items: it@,
            },
            VertexAttributeIter::U8x2(it, n) => Elements {
                format: ElementFormat::U8x2,
                normalized: n.0,
                items: it@,
            },
            VertexAttributeIter::S8x4(it, n) => Elements {
                format: ElementFormat::S8x4,
                normalized: n.0,
                items: it@,
            },
            VertexAttributeIter::U8x4(it, n) => Elements {
                format: ElementFormat::U8x4,
                normalized: n.0,
                items: it@,
            },
            VertexAttributeIter::U16x3(it, n) => Elements {
                format: ElementFormat::U16x3,
                normalized: n.0,
                items: it@,
            },
            VertexAttributeIter::U8x3(it, n) => Elements {
                format: ElementFormat::U8x3,
                normalized: n.0,
                items: it@,
            },
        }
    }
}

/// What reading an attribute returned.
pub open spec fn elements_of(r: Result<VertexAttributeIter<'_>, AccessFailed>) -> Result<
    Elements,
    AccessFailed,
> {
    match r {
        Ok(it) => Ok(it@),
        Err(e) => Err(e),
    }
}

/// What a conversion returned.
pub open spec fn values_of(r: Result<VertexAttributeValues, AccessFailed>) -> Result<
    Values,
    AccessFailed,
> {
    match r {
        Ok(values) => Ok(values@),
        Err(e) => Err(e),
    }
}

/// The values that hold the elements as they are: the same numbers in the storage
/// format of the same shape. Three-component integers have no such format.
pub open spec fn any_values(e: Elements) -> Result<Values, AccessFailed> {
    match e.format.native(e.normalized) {
        Some(format) => Ok(
            Values { format, rows: rows(e.items, e.format.component(), e.format.width()) },
        ),
        None => Err(AccessFailed::UnsupportedFormat),
    }
}

/// The bit pattern of the single-precision fraction that the normalization of the gltf
/// crate makes of an unsigned 8-bit number.
pub uninterp spec fn unorm8_bits(value: u8) -> u32;

/// The bit pattern of the single-precision fraction that the normalization of the gltf
/// crate makes of an unsigned 16-bit number.
pub uninterp spec fn unorm16_bits(value: u16) -> u32;

/// Component `k` of element `i` as a single-precision number: a normalized integer
/// becomes a fraction, a single-precision number stays what it is.
pub open spec fn fraction(items: ItemsView, data_type: DataType, i: int, k: int) -> int {
    match data_type {
        DataType::U8 => unorm8_bits(component(items, data_type, i, k) as u8) as int,
        DataType::U16 => unorm16_bits(component(items, data_type, i, k) as u16) as int,
        _ => component(items, data_type, i, k),
    }
}

/// The elements as rows of `into` single-precision numbers: the components that the
/// elements have, then ones.
pub open spec fn fraction_rows(e: Elements, into: nat) -> Seq<Seq<int>> {
    Seq::new(
        e.items.count,
        |i: int|
            Seq::new(
                into,
                |k: int|
                    if k < e.format.width() {
                        fraction(e.items, e.format.component(), i, k)
                    } else {
                        ONE_BITS as int
                    },
            ),
    )
}

/// Whether the elements are colors that become four single-precision channels:
/// three or four channels of normalized unsigned integers, or three single-precision
/// channels.
pub open spec fn is_color_source(e: Elements) -> bool {
    match e.format {
        ElementFormat::U8x3 | ElementFormat::U16x3 | ElementFormat::U8x4 | ElementFormat::U16x4 =>
            e.normalized,
        ElementFormat::F32x3 => true,
        _ => false,
    }
}

/// The values of a color attribute: four single-precision channels where the elements
/// are a color source, with an alpha of one where they have none; else the elements
/// as they are.
pub open spec fn rgba_values(e: Elements) -> Result<Values, AccessFailed> {
    if is_color_source(e) {
        Ok(Values { format: VertexFormat::Float32x4, rows: fraction_rows(e, 4) })
    } else {
        any_values(e)
    }
}

/// The values of a joint index attribute: four unsigned 8-bit indices keep their
/// numbers in 16 bits; else the elements as they are.
pub open spec fn joint_index_values(e: Elements) -> Result<Values, AccessFailed> {
    if e.format == ElementFormat::U8x4 && !e.normalized {
        Ok(Values { format: VertexFormat::Uint16x4, rows: rows(e.items, DataType::U8, 4) })
    } else {
        any_values(e)
    }
}

/// The values of a texture coordinate attribute: two normalized unsigned integers
/// become two single-precision fractions; else the elements as they are.
pub open spec fn tex_coord_values(e: Elements) -> Result<Values, AccessFailed> {
    if (e.format == ElementFormat::U8x2 || e.format == ElementFormat::U16x2) && e.normalized {
        Ok(Values { format: VertexFormat::Float32x2, rows: fraction_rows(e, 2) })
    } else {
        any_values(e)
    }
}

/// Calls `ReadColors::into_rgba_f32` of the gltf crate on three unsigned 8-bit channels:
/// one result for each element, each channel the fraction that the crate's
/// normalization makes of the component, and an alpha of one.
#[verifier::external_body]
fn rgba_from_rgb_unorm8(it: &ItemIter<'_, 3>) -> (r: Vec<[u32; 4]>)
    ensures
        r@.len() == it@.count,
        forall|i: int, k: int|
            0 <= i < r@.len() && 0 <= k < 3 ==> (#[trigger] r@[i][k]) == unorm8_bits(
                component(it@, DataType::U8, i, k) as u8,
            ),
        forall|i: int| 0 <= i < r@.len() ==> (#[trigger] r@[i])[3] == ONE_BITS,
{
    let items = gltf::accessor::util::ItemIter::new(it.bytes(), it.stride());
    let read = gltf::mesh::util::ReadColors::RgbU8(gltf::accessor::Iter::Standard(items));
    read.into_rgba_f32().map(|c| c.map(|x| x.to_bits())).collect()
}

/// Calls `ReadColors::into_rgba_f32` of the gltf crate on three unsigned 16-bit channels:
/// one result for each element, each channel the fraction that the crate's
/// normalization makes of the component, and an alpha of one.
#[verifier::external_body]
fn rgba_from_rgb_unorm16(it: &ItemIter<'_, 6>) -> (r: Vec<[u32; 4]>)
    ensures
        r@.len() == it@.count,
        forall|i: int, k: int|
            0 <= i < r@.len() && 0 <= k < 3 ==> (#[trigger] r@[i][k]) == unorm16_bits(
                component(it@, DataType::U16, i, k) as u16,
            ),
        forall|i: int| 0 <= i < r@.len() ==> (#[trigger] r@[i])[3] == ONE_BITS,
{
    let items = gltf::accessor::util::ItemIter::new(it.bytes(), it.stride());
    let read = gltf::mesh::util::ReadColors::RgbU16(gltf::accessor::Iter::Standard(items));
    read.into_rgba_f32().map(|c| c.map(|x| x.to_bits())).collect()
}

/// Calls `ReadColors::into_rgba_f32` of the gltf crate on four unsigned 8-bit channels:
/// one result for each element, each channel the fraction that the crate's
/// normalization makes of the component.
#[verifier::external_body]
fn rgba_from_rgba_unorm8(it: &ItemIter<'_, 4>) -> (r: Vec<[u32; 4]>)
    ensures
        r@.len() == it@.count,
        forall|i: int, k: int|
            0 <= i < r@.len() && 0 <= k < 4 ==> (#[trigger] r@[i][k]) == unorm8_bits(
                component(it@, DataType::U8, i, k) as u8,
            ),
{
    let items = gltf::accessor::util::ItemIter::new(it.bytes(), it.stride());
    let read = gltf::mesh::util::ReadColors::RgbaU8(gltf::accessor::Iter::Standard(items));
    read.into_rgba_f32().map(|c| c.map(|x| x.to_bits())).collect()
}

/// Calls `ReadColors::into_rgba_f32` of the gltf crate on four unsigned 16-bit channels:
/// one result for each element, each channel the fraction that the crate's
/// normalization makes of the component.
#[verifier::external_body]
fn rgba_from_rgba_unorm16(it: &ItemIter<'_, 8>) -> (r: Vec<[u32; 4]>)
    ensures
        r@.len() == it@.count,
        forall|i: int, k: int|
            0 <= i < r@.len() && 0 <= k < 4 ==> (#[trigger] r@[i][k]) == unorm16_bits(
                component(it@, DataType::U16, i, k) as u16,
            ),
{
    let items = gltf::accessor::util::ItemIter::new(it.bytes(), it.stride());
    let read = gltf::mesh::util::ReadColors::RgbaU16(gltf::accessor::Iter::Standard(items));
    read.into_rgba_f32().map(|c| c.map(|x| x.to_bits())).collect()
}

/// Calls `ReadTexCoords::into_f32` of the gltf crate on two unsigned 8-bit coordinates:
/// one result for each element, each channel the fraction that the crate's
/// normalization makes of the component.
#[verifier::external_body]
fn uv_from_unorm8(it: &ItemIter<'_, 2>) -> (r: Vec<[u32; 2]>)
    ensures
        r@.len() == it@.count,
        forall|i: int, k: int|
            0 <= i < r@.len() && 0 <= k < 2 ==> (#[trigger] r@[i][k]) == unorm8_bits(
                component(it@, DataType::U8, i, k) as u8,
            ),
{
    let items = gltf::accessor::util::ItemIter::new(it.bytes(), it.stride());
    let read = gltf::mesh::util::ReadTexCoords::U8(gltf::accessor::Iter::Standard(items));
    read.into_f32().map(|c| c.map(|x| x.to_bits())).collect()
}

/// Calls `ReadTexCoords::into_f32` of the gltf crate on two unsigned 16-bit coordinates:
/// one result for each element, each channel the fraction that the crate's
/// normalization makes of the component.
#[verifier::external_body]
fn uv_from_unorm16(it: &ItemIter<'_, 4>) -> (r: Vec<[u32; 2]>)
    ensures
        r@.len() == it@.count,
        forall|i: int, k: int|
            0 <= i < r@.len() && 0 <= k < 2 ==> (#[trigger] r@[i][k]) == unorm16_bits(
                component(it@, DataType::U16, i, k) as u16,
            ),
{
    let items = gltf::accessor::util::ItemIter::new(it.bytes(), it.stride());
    let read = gltf::mesh::util::ReadTexCoords::U16(gltf::accessor::Iter::Standard(items));
    read.into_f32().map(|c| c.map(|x| x.to_bits())).collect()
}

impl<'a> VertexAttributeIter<'a> {
    /// Locates the elements of a vertex attribute accessor.
    pub fn from_accessor(
        accessor: &'a Accessor,
        views: &'a Vec<BufferView>,
        buffer_data: &'a Vec<Vec<u8>>,
    ) -> (r: Result<VertexAttributeIter<'a>, AccessFailed>)
        ensures
            elements_of(r) == attribute_elements(*accessor, views@, buffer_data@),
            r matches Ok(it) ==> fits(it@.items, it@.format.size()),
            accessor.sparse ==> r matches Err(AccessFailed::UnsupportedFormat),
    {
        let normalization = Normalization(accessor.normalized);
        let acc = BufferAccessor { accessor, views, buffer_data, normalization };
        match ElementFormat::of(accessor.data_type, accessor.dimensions) {
            Some(format) => Self::in_format(acc, format),
            None => Err(AccessFailed::UnsupportedFormat),
        }
    }

    /// Locates elements that are to be read in the given format.
    fn in_format(acc: BufferAccessor<'a>, format: ElementFormat) -> (r: Result<
        VertexAttributeIter<'a>,
        AccessFailed,
    >)
        ensures
            elements_of(r) == elements_in(
                format,
                acc.normalization.0,
                accessed(*acc.accessor, acc.views@, acc.buffer_data@, format.size()),
            ),
            r matches Ok(it) ==> fits(it@.items, it@.format.size()),
    {
        // The solver does not go through the eighteen formats unless it is told to.
        assert(format == ElementFormat::F32
                || format == ElementFormat::U32
                || format == ElementFormat::F32x2
                || format == ElementFormat::U32x2
                || format == ElementFormat::F32x3
                || format == ElementFormat::U32x3
                || format == ElementFormat::F32x4
                || format == ElementFormat::U32x4
                || format == ElementFormat::S16x2
                || format == ElementFormat::U16x2
                || format == ElementFormat::S16x4
                || format == ElementFormat::U16x4
                || format == ElementFormat::S8x2
                || format == ElementFormat::U8x2
                || format == ElementFormat::S8x4
                || format == ElementFormat::U8x4
                || format == ElementFormat::U16x3
                || format == ElementFormat::U8x3);
        match format {
            ElementFormat::F32 => match acc.with_no_norm() {
                Ok(it) => Ok(VertexAttributeIter::F32(it)),
                Err(e) => Err(e),
            },
            ElementFormat::U32 => match acc.with_no_norm() {
                Ok(it) => Ok(VertexAttributeIter::U32(it)),
                Err(e) => Err(e),
            },
            ElementFormat::F32x2 => match acc.with_no_norm() {
                Ok(it) => Ok(VertexAttributeIter::F32x2(it)),
                Err(e) => Err(e),
            },
            ElementFormat::U32x2 => match acc.with_no_norm() {
                Ok(it) => Ok(VertexAttributeIter::U32x2(it)),
                Err(e) => Err(e),
            },
            ElementFormat::F32x3 => match acc.with_no_norm() {
                Ok(it) => Ok(VertexAttributeIter::F32x3(it)),
                Err(e) => Err(e),
            },
            ElementFormat::U32x3 => match acc.with_no_norm() {
                Ok(it) => Ok(VertexAttributeIter::U32x3(it)),
                Err(e) => Err(e),
            },
            ElementFormat::F32x4 => match acc.with_no_norm() {
                Ok(it) => Ok(VertexAttributeIter::F32x4(it)),
                Err(e) => Err(e),
            },
            ElementFormat::U32x4 => match acc.with_no_norm() {
                Ok(it) => Ok(VertexAttributeIter::U32x4(it)),
                Err(e) => Err(e),
            },
            ElementFormat::S16x2 => match acc.with_norm() {
                Ok((it, n)) => Ok(VertexAttributeIter::S16x2(it, n)),
                Err(e) => Err(e),
            },
            ElementFormat::U16x2 => match acc.with_norm() {
                Ok((it, n)) => Ok(VertexAttributeIter::U16x2(it, n)),
                Err(e) => Err(e),
            },
            ElementFormat::S16x4 => match acc.with_norm() {
                Ok((it, n)) => Ok(VertexAttributeIter::S16x4(it, n)),
                Err(e) => Err(e),
            },
            ElementFormat::U16x4 => match acc.with_norm() {
                Ok((it, n)) => Ok(VertexAttributeIter::U16x4(it, n)),
                Err(e) => Err(e),
            },
            ElementFormat::S8x2 => match acc.with_norm() {
                Ok((it, n)) => Ok(VertexAttributeIter::S8x2(it, n)),
                Err(e) => Err(e),
            },
            ElementFormat::U8x2 => match acc.with_norm() {
                Ok((it, n)) => Ok(VertexAttributeIter::U8x2(it, n)),
                Err(e) => Err(e),
            },
            ElementFormat::S8x4 => match acc.with_norm() {
                Ok((it, n)) => Ok(VertexAttributeIter::S8x4(it, n)),
                Err(e) => Err(e),
            },
            ElementFormat::U8x4 => match acc.with_norm() {
                Ok((it, n)) => Ok(VertexAttributeIter::U8x4(it, n)),
                Err(e) => Err(e),
            },
            ElementFormat::U16x3 => match acc.with_norm() {
                Ok((it, n)) => Ok(VertexAttributeIter::U16x3(it, n)),
                Err(e) => Err(e),
            },
            ElementFormat::U8x3 => match acc.with_norm() {
                Ok((it, n)) => Ok(VertexAttributeIter::U8x3(it, n)),
                Err(e) => Err(e),
            },
        }
    }

    /// Materializes values for any supported format of vertex attribute.
    pub fn into_any_values(self) -> (r: Result<VertexAttributeValues, AccessFailed>)
        ensures
            values_of(r) == any_values(self@),
    {
        match self {
            VertexAttributeIter::F32(it) => {
                let v = it.read_scalar();
                proof {
                    assert(rows(it@, DataType::F32, 1) =~~= rows(it@, DataType::U32, 1));
                }
                Ok(VertexAttributeValues::Float32(v))
            },
            VertexAttributeIter::U32(it) => {
                let v = it.read_scalar();
                Ok(VertexAttributeValues::Uint32(v))
            },
            VertexAttributeIter::F32x2(it) => {
                let v = it.read_u32::<2>();
                proof {
                    assert(rows(it@, DataType::F32, 2) =~~= rows(it@, DataType::U32, 2));
                }
                Ok(VertexAttributeValues::Float32x2(v))
            },
            VertexAttributeIter::U32x2(it) => {
                let v = it.read_u32::<2>();
                Ok(VertexAttributeValues::Uint32x2(v))
            },
            VertexAttributeIter::F32x3(it) => {
                let v = it.read_u32::<3>();
                proof {
                    assert(rows(it@, DataType::F32, 3) =~~= rows(it@, DataType::U32, 3));
                }
                Ok(VertexAttributeValues::Float32x3(v))
            },
            VertexAttributeIter::U32x3(it) => {
                let v = it.read_u32::<3>();
                Ok(VertexAttributeValues::Uint32x3(v))
            },
            VertexAttributeIter::F32x4(it) => {
                let v = it.read_u32::<4>();
                proof {
                    assert(rows(it@, DataType::F32, 4) =~~= rows(it@, DataType::U32, 4));
                }
                Ok(VertexAttributeValues::Float32x4(v))
            },
            VertexAttributeIter::U32x4(it) => {
                let v = it.read_u32::<4>();
                Ok(VertexAttributeValues::Uint32x4(v))
            },
            VertexAttributeIter::S16x2(it, n) => Ok(
                n.apply_either(
                    it.read_i16::<2>(),
                    (|v: Vec<[i16; 2]>| -> (r: VertexAttributeValues)
                        ensures
                            r == VertexAttributeValues::Snorm16x2(v),
                        { VertexAttributeValues::Snorm16x2(v) }),
                    (|v: Vec<[i16; 2]>| -> (r: VertexAttributeValues)
                        ensures
                            r == VertexAttributeValues::Sint16x2(v),
                        { VertexAttributeValues::Sint16x2(v) }),
                ),
            ),
            VertexAttributeIter::U16x2(it, n) => Ok(
                n.apply_either(
                    it.read_u16::<2>(),
                    (|v: Vec<[u16; 2]>| -> (r: VertexAttributeValues)
                        ensures
                            r == VertexAttributeValues::Unorm16x2(v),
                        { VertexAttributeValues::Unorm16x2(v) }),
                    (|v: Vec<[u16; 2]>| -> (r: VertexAttributeValues)
                        ensures
                            r == VertexAttributeValues::Uint16x2(v),
                        { VertexAttributeValues::Uint16x2(v) }),
                ),
            ),
            VertexAttributeIter::S16x4(it, n) => Ok(
                n.apply_either(
                    it.read_i16::<4>(),
                    (|v: Vec<[i16; 4]>| -> (r: VertexAttributeValues)
                        ensures
                            r == VertexAttributeValues::Snorm16x4(v),
                        { VertexAttributeValues::Snorm16x4(v) }),
                    (|v: Vec<[i16; 4]>| -> (r: VertexAttributeValues)
                        ensures
                            r == VertexAttributeValues::Sint16x4(v),
                        { VertexAttributeValues::Sint16x4(v) }),
                ),
            ),
            VertexAttributeIter::U16x4(it, n) => Ok(
                n.apply_either(
                    it.read_u16::<4>(),
                    (|v: Vec<[u16; 4]>| -> (r: VertexAttributeValues)
                        ensures
                            r == VertexAttributeValues::Unorm16x4(v),
                        { VertexAttributeValues::Unorm16x4(v) }),
                    (|v: Vec<[u16; 4]>| -> (r: VertexAttributeValues)
                        ensures
                            r == VertexAttributeValues::Uint16x4(v),
                        { VertexAttributeValues::Uint16x4(v) }),
                ),
            ),
            VertexAttributeIter::S8x2(it, n) => Ok(
                n.apply_either(
                    it.read_i8::<2>(),
                    (|v: Vec<[i8; 2]>| -> (r: VertexAttributeValues)
                        ensures
                            r == VertexAttributeValues::Snorm8x2(v),
                        { VertexAttributeValues::Snorm8x2(v) }),
                    (|v: Vec<[i8; 2]>| -> (r: VertexAttributeValues)
                        ensures
                            r == VertexAttributeValues::Sint8x2(v),
                        { VertexAttributeValues::Sint8x2(v) }),
                ),
            ),
            VertexAttributeIter::U8x2(it, n) => Ok(
                n.apply_either(
                    it.read_u8::<2>(),
                    (|v: Vec<[u8; 2]>| -> (r: VertexAttributeValues)
                        ensures
                            r == VertexAttributeValues::Unorm8x2(v),
                        { VertexAttributeValues::Unorm8x2(v) }),
                    (|v: Vec<[u8; 2]>| -> (r: VertexAttributeValues)
                        ensures
                            r == VertexAttributeValues::Uint8x2(v),
                        { VertexAttributeValues::Uint8x2(v) }),
                ),
            ),
            VertexAttributeIter::S8x4(it, n) => Ok(
                n.apply_either(
                    it.read_i8::<4>(),
                    (|v: Vec<[i8; 4]>| -> (r: VertexAttributeValues)
                        ensures
                            r == VertexAttributeValues::Snorm8x4(v),
                        { VertexAttributeValues::Snorm8x4(v) }),
                    (|v: Vec<[i8; 4]>| -> (r: VertexAttributeValues)
                        ensures
                            r == VertexAttributeValues::Sint8x4(v),
                        { VertexAttributeValues::Sint8x4(v) }),
                ),
            ),
            VertexAttributeIter::U8x4(it, n) => Ok(
                n.apply_either(
                    it.read_u8::<4>(),
                    (|v: Vec<[u8; 4]>| -> (r: VertexAttributeValues)
                        ensures
                            r == VertexAttributeValues::Unorm8x4(v),
                        { VertexAttributeValues::Unorm8x4(v) }),
                    (|v: Vec<[u8; 4]>| -> (r: VertexAttributeValues)
                        ensures
                            r == VertexAttributeValues::Uint8x4(v),
                        { VertexAttributeValues::Uint8x4(v) }),
                ),
            ),
            _ => Err(AccessFailed::UnsupportedFormat),
        }
    }

    /// Materializes RGBA values, converting compatible formats to Float32x4.
    pub fn into_rgba_values(self) -> (r: Result<VertexAttributeValues, AccessFailed>)
        ensures
            values_of(r) == rgba_values(self@),
    {
        match self {
            VertexAttributeIter::U8x3(it, Normalization(true)) => {
                let v = rgba_from_rgb_unorm8(&it);
                proof {
                    assert(rows_u32(v@) =~~= fraction_rows(self@, 4));
                }
                Ok(VertexAttributeValues::Float32x4(v))
            },
            VertexAttributeIter::U16x3(it, Normalization(true)) => {
                let v = rgba_from_rgb_unorm16(&it);
                proof {
                    assert(rows_u32(v@) =~~= fraction_rows(self@, 4));
                }
                Ok(VertexAttributeValues::Float32x4(v))
            },
            VertexAttributeIter::F32x3(it) => {
                let colors = it.read_u32::<3>();
                let v = with_alpha_one(&colors);
                proof {
                    let read = rows_u32(colors@);
                    let held = rows(it@, DataType::U32, 3);
                    assert(read.len() == colors@.len());
                    assert(held.len() == it@.count);
                    assert forall|i: int, k: int| 0 <= i < v@.len() && 0 <= k < 3 implies (
                    #[trigger] v@[i][k]) as int == component(it@, DataType::F32, i, k) by {
                        assert(read[i][k] == colors@[i][k] as int);
                        assert(held[i][k] == component(it@, DataType::U32, i, k));
                    }
                    assert(rows_u32(v@) =~~= fraction_rows(self@, 4));
                }
                Ok(VertexAttributeValues::Float32x4(v))
            },
            VertexAttributeIter::U8x4(it, Normalization(true)) => {
                let v = rgba_from_rgba_unorm8(&it);
                proof {
                    assert(rows_u32(v@) =~~= fraction_rows(self@, 4));
                }
                Ok(VertexAttributeValues::Float32x4(v))
            },
            VertexAttributeIter::U16x4(it, Normalization(true)) => {
                let v = rgba_from_rgba_unorm16(&it);
                proof {
                    assert(rows_u32(v@) =~~= fraction_rows(self@, 4));
                }
                Ok(VertexAttributeValues::Float32x4(v))
            },
            s => s.into_any_values(),
        }
    }

    /// Materializes joint index values, converting compatible formats to Uint16x4.
    pub fn into_joint_index_values(self) -> (r: Result<VertexAttributeValues, AccessFailed>)
        ensures
            values_of(r) == joint_index_values(self@),
    {
        match self {
            VertexAttributeIter::U8x4(it, Normalization(false)) => {
                let v = widened(&it.read_u8::<4>());
                Ok(VertexAttributeValues::Uint16x4(v))
            },
            s => s.into_any_values(),
        }
    }

    /// Materializes texture coordinate values, converting compatible formats to
    /// Float32x2.
    pub fn into_tex_coord_values(self) -> (r: Result<VertexAttributeValues, AccessFailed>)
        ensures
            values_of(r) == tex_coord_values(self@),
    {
        match self {
            VertexAttributeIter::U8x2(it, Normalization(true)) => {
                let v = uv_from_unorm8(&it);
                proof {
                    assert(rows_u32(v@) =~~= fraction_rows(self@, 2));
                }
                Ok(VertexAttributeValues::Float32x2(v))
            },
            VertexAttributeIter::U16x2(it, Normalization(true)) => {
                let v = uv_from_unorm16(&it);
                proof {
                    assert(rows_u32(v@) =~~= fraction_rows(self@, 2));
                }
                Ok(VertexAttributeValues::Float32x2(v))
            },
            s => s.into_any_values(),
        }
    }
}

/// Three single-precision channels each, with an alpha of one behind them.
fn with_alpha_one(colors: &Vec<[u32; 3]>) -> (r: Vec<[u32; 4]>)
    ensures
        r@.len() == colors@.len(),
        forall|i: int, k: int|
            0 <= i < r@.len() && 0 <= k < 3 ==> (#[trigger] r@[i][k]) == colors@[i][k],
        forall|i: int| 0 <= i < r@.len() ==> (#[trigger] r@[i])[3] == ONE_BITS,
{
    let mut r: Vec<[u32; 4]> = Vec::new();
    let mut i: usize = 0;
    while i < colors.len()
        invariant
            i <= colors.len(),
            r@.len() == i,
            forall|j: int, k: int|
                0 <= j < i && 0 <= k < 3 ==> (#[trigger] r@[j][k]) == colors@[j][k],
            forall|j: int| 0 <= j < i ==> (#[trigger] r@[j])[3] == ONE_BITS,
        decreases colors.len() - i,
    {
        let c = &colors[i];
        r.push([c[0], c[1], c[2], ONE_BITS]);
        i = i + 1;
    }
    r
}

/// The same indices in 16 bits.
fn widened(indices: &Vec<[u8; 4]>) -> (r: Vec<[u16; 4]>)
    ensures
        rows_u16(r@) == rows_u8(indices@),
{
    let mut r: Vec<[u16; 4]> = Vec::new();
    let mut i: usize = 0;
    while i < indices.len()
        invariant
            i <= indices.len(),
            r@.len() == i,
            forall|j: int, k: int|
                0 <= j < i && 0 <= k < 4 ==> (#[trigger] r@[j][k]) as int == indices@[j][k] as int,
        decreases indices.len() - i,
    {
        let c = &indices[i];
        r.push([c[0] as u16, c[1] as u16, c[2] as u16, c[3] as u16]);
        i = i + 1;
    }
    assert(rows_u16(r@) =~~= rows_u8(indices@));
    r
}

/// The four bytes that hold a 32-bit pattern, lowest first.
pub open spec fn le_bytes32(value: int) -> Seq<u8> {
    seq![
        (value % 0x100) as u8,
        (value / 0x100 % 0x100) as u8,
        (value / 0x1_0000 % 0x100) as u8,
        (value / 0x100_0000 % 0x100) as u8,
    ]
}

/// Single-precision numbers pass through bit for bit: written back, each component of
/// the values takes the very bytes that it was read from.
pub proof fn lemma_single_precision_round_trip(e: Elements, i: int, k: int)
    requires
        e.format.component() == DataType::F32,
        fits(e.items, e.format.size()),
        0 <= i < e.items.count,
        0 <= k < e.format.width(),
    ensures
        any_values(e) is Ok,
        any_values(e)->Ok_0.rows.len() == e.items.count,
        any_values(e)->Ok_0.rows[i].len() == e.format.width(),
        le_bytes32(any_values(e)->Ok_0.rows[i][k]) == e.items.data.subrange(
            i * e.items.stride + 4 * k,
            i * e.items.stride + 4 * k + 4,
        ),
{
    reveal(fits);
    let at = i * e.items.stride + 4 * k;
    assert(0 <= i * e.items.stride <= e.items.stride * (e.items.count - 1)) by (nonlinear_arith)
        requires
            0 <= i <= e.items.count - 1,
            0 <= e.items.stride,
    ;
    let data = e.items.data;
    lemma_le_bytes32(data[at], data[at + 1], data[at + 2], data[at + 3]);
    assert(any_values(e)->Ok_0.rows[i][k] == component(e.items, DataType::F32, i, k));
    assert(data.subrange(at, at + 4) =~= seq![data[at], data[at + 1], data[at + 2], data[at + 3]]);
}

/// Four bytes read as a number, lowest first, and written back are the same bytes.
proof fn lemma_le_bytes32(b0: u8, b1: u8, b2: u8, b3: u8)
    ensures
        le_bytes32(b0 + 0x100 * b1 + 0x1_0000 * b2 + 0x100_0000 * b3) == seq![b0, b1, b2, b3],
{
    let value = b0 + 0x100 * b1 + 0x1_0000 * b2 + 0x100_0000 * b3;
    assert(value % 0x100 == b0);
    assert(value / 0x100 == b1 + 0x100 * b2 + 0x1_0000 * b3);
    assert(value / 0x1_0000 == b2 + 0x100 * b3);
    assert(value / 0x100_0000 == b3);
    assert(le_bytes32(value) =~= seq![b0, b1, b2, b3]);
}

/// A color of three normalized 8-bit channels becomes four single-precision channels:
/// the fractions of the three, and an alpha of exactly one.
pub proof fn lemma_rgb_gets_alpha_one(e: Elements, i: int)
    requires
        e.format == ElementFormat::U8x3,
        e.normalized,
        0 <= i < e.items.count,
    ensures
        rgba_values(e) is Ok,
        rgba_values(e)->Ok_0.format == VertexFormat::Float32x4,
        rgba_values(e)->Ok_0.rows.len() == e.items.count,
        rgba_values(e)->Ok_0.rows[i].len() == 4,
        forall|k: int|
            0 <= k < 3 ==> #[trigger] rgba_values(e)->Ok_0.rows[i][k] == unorm8_bits(
                component(e.items, DataType::U8, i, k) as u8,
            ),
        rgba_values(e)->Ok_0.rows[i][3] == ONE_BITS,
{
}

/// Four unsigned 8-bit joint indices keep their numbers when they are widened to 16
/// bits.
pub proof fn lemma_joint_indices_keep_their_numbers(e: Elements, i: int, k: int)
    requires
        e.format == ElementFormat::U8x4,
        !e.normalized,
        0 <= i < e.items.count,
        0 <= k < 4,
    ensures
        joint_index_values(e) is Ok,
        joint_index_values(e)->Ok_0.format == VertexFormat::Uint16x4,
        joint_index_values(e)->Ok_0.rows.len() == e.items.count,
        joint_index_values(e)->Ok_0.rows[i].len() == 4,
        joint_index_values(e)->Ok_0.rows[i][k] == component(e.items, DataType::U8, i, k),
{
}

} // verus!
