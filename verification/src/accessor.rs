//! Accessors: typed, strided views into the bytes of a buffer.
//!
//! An accessor names a buffer view, an offset into it, an element count, a component
//! type and a dimensionality. Decoding locates the bytes of its elements and reads the
//! components, which are little-endian.
use vstd::prelude::*;

verus! {

/// The type of one component of an element.
#[derive(Clone, Copy, Debug, PartialEq, Eq, Structural)]
pub enum DataType {
    I8,
    U8,
    I16,
    U16,
    U32,
    F32,
}

/// How many components make an element, and in what shape.
#[derive(Clone, Copy, Debug, PartialEq, Eq, Structural)]
pub enum Dimensions {
    Scalar,
    Vec2,
    Vec3,
    Vec4,
    Mat2,
    Mat3,
    Mat4,
}

/// A contiguous byte range of a buffer.
#[derive(Clone, Copy, Debug, PartialEq, Eq)]
pub struct BufferView {
    /// Index of the buffer.
    pub buffer: usize,
    /// Where the range starts in the buffer.
    pub offset: usize,
    /// How many bytes it holds.
    pub length: usize,
    /// The distance between the starts of two elements, where the view declares one.
    pub stride: Option<usize>,
}

/// A typed view into a buffer view.
#[derive(Clone, Copy, Debug, PartialEq, Eq)]
pub struct Accessor {
    /// Index of the buffer view, where the accessor has one.
    pub view: Option<usize>,
    /// Where the first element starts in the buffer view.
    pub offset: usize,
    /// How many elements there are.
    pub count: usize,
    pub data_type: DataType,
    pub dimensions: Dimensions,
    /// Whether integer components stand for fractions.
    pub normalized: bool,
    /// Whether the accessor declares sparse overrides.
    pub sparse: bool,
}

/// An error that occurs when accessing buffer data.
#[derive(Clone, Copy, Debug, PartialEq, Eq, Structural)]
pub enum AccessFailed {
    MalformedData,
    UnsupportedFormat,
}

/// Represents whether integer data requires normalization.
#[derive(Clone, Copy, Debug, PartialEq, Eq, Structural)]
pub struct Normalization(pub bool);

impl Normalization {
    /// Applies the first constructor where normalization is required, the second where
    /// it is not.
    pub fn apply_either<T, U>(
        self,
        value: T,
        normalized_ctor: impl Fn(T) -> U,
        unnormalized_ctor: impl Fn(T) -> U,
    ) -> (r: U)
        requires
            self.0 ==> normalized_ctor.requires((value,)),
            !self.0 ==> unnormalized_ctor.requires((value,)),
        ensures
            self.0 ==> normalized_ctor.ensures((value,), r),
            !self.0 ==> unnormalized_ctor.ensures((value,), r),
    {
        if self.0 {
            normalized_ctor(value)
        } else {
            unnormalized_ctor(value)
        }
    }
}

/// The bytes of the elements of an accessor: element `i` starts at `i * stride`.
pub struct ItemsView {
    /// From the first byte of the first element to the last byte of the last one.
    pub data: Seq<u8>,
    pub stride: nat,
    pub count: nat,
}

/// Elements of `size` bytes fit: there is at least one, they do not overlap, and the
/// last one ends with the data.
#[verifier::opaque]
pub open spec fn fits(v: ItemsView, size: nat) -> bool {
    &&& 0 < size <= v.stride
    &&& v.count > 0
    &&& v.stride * (v.count - 1) + size == v.data.len()
}

/// The byte at offset `at` of element `i`.
pub open spec fn byte_at(v: ItemsView, i: int, at: int) -> int {
    v.data[i * v.stride + at] as int
}

/// The unsigned 16-bit number at offset `at` of element `i`.
pub open spec fn le16_at(v: ItemsView, i: int, at: int) -> int {
    byte_at(v, i, at) + 0x100 * byte_at(v, i, at + 1)
}

/// The unsigned 32-bit number at offset `at` of element `i`.
pub open spec fn le32_at(v: ItemsView, i: int, at: int) -> int {
    byte_at(v, i, at) + 0x100 * byte_at(v, i, at + 1) + 0x1_0000 * byte_at(v, i, at + 2)
        + 0x100_0000 * byte_at(v, i, at + 3)
}

/// The number that the unsigned `value` stands for in two's complement, `modulus`
/// being two to the number of bits.
pub open spec fn signed(value: int, modulus: int) -> int {
    if 2 * value >= modulus {
        value - modulus
    } else {
        value
    }
}

/// Component `k` of element `i`, read as the given type. A single-precision number is
/// read as its bit pattern.
pub open spec fn component(v: ItemsView, data_type: DataType, i: int, k: int) -> int {
    match data_type {
        DataType::U8 => byte_at(v, i, k),
        DataType::I8 => signed(byte_at(v, i, k), 0x100),
        DataType::U16 => le16_at(v, i, 2 * k),
        DataType::I16 => signed(le16_at(v, i, 2 * k), 0x1_0000),
        DataType::U32 | DataType::F32 => le32_at(v, i, 4 * k),
    }
}

/// The elements as rows of `width` components of the given type.
pub open spec fn rows(v: ItemsView, data_type: DataType, width: nat) -> Seq<Seq<int>> {
    Seq::new(v.count, |i: int| Seq::new(width, |k: int| component(v, data_type, i, k)))
}

/// Where the elements of `accessor` lie, if they are `size` bytes each: nothing if the
/// accessor has no buffer view, if its view or the view's buffer does not exist, if
/// the view leaves its buffer, if there is no element, if the elements overlap, or if
/// they leave the view.
#[verifier::opaque]
pub open spec fn located(
    accessor: Accessor,
    views: Seq<BufferView>,
    buffers: Seq<Vec<u8>>,
    size: nat,
) -> Option<ItemsView> {
    match accessor.view {
        None => None,
        Some(v) => if v < views.len() {
            let view = views[v as int];
            let stride = match view.stride {
                Some(s) => s as nat,
                None => size,
            };
            let span = stride * (accessor.count - 1) + size;
            if view.buffer < buffers.len() && view.offset + view.length
                <= buffers[view.buffer as int]@.len() && accessor.count > 0 && 0 < size <= stride
                && accessor.offset + span <= view.length {
                let start = view.offset + accessor.offset;
                Some(
                    ItemsView {
                        data: buffers[view.buffer as int]@.subrange(start, start + span),
                        stride,
                        count: accessor.count as nat,
                    },
                )
            } else {
                None
            }
        } else {
            None
        },
    }
}

/// What decoding `accessor` into elements of `size` bytes gives: a sparse accessor is
/// not supported, and one whose elements cannot be located is malformed.
pub open spec fn accessed(
    accessor: Accessor,
    views: Seq<BufferView>,
    buffers: Seq<Vec<u8>>,
    size: nat,
) -> Result<ItemsView, AccessFailed> {
    if accessor.sparse {
        Err(AccessFailed::UnsupportedFormat)
    } else {
        match located(accessor, views, buffers, size) {
            Some(items) => Ok(items),
            None => Err(AccessFailed::MalformedData),
        }
    }
}

/// The located elements of an accessor, `SIZE` bytes each.
#[derive(Clone, Copy, Debug)]
pub struct ItemIter<'a, const SIZE: usize> {
    data: &'a [u8],
    stride: usize,
    count: usize,
}

impl<'a, const SIZE: usize> View for ItemIter<'a, SIZE> {
    type V = ItemsView;

    closed spec fn view(&self) -> ItemsView {
        ItemsView { data: self.data@, stride: self.stride as nat, count: self.count as nat }
    }
}

/// The rows of a sequence of unsigned 8-bit elements.
pub open spec fn rows_u8<const N: usize>(s: Seq<[u8; N]>) -> Seq<Seq<int>> {
    Seq::new(s.len(), |i: int| Seq::new(N as nat, |k: int| s[i][k] as int))
}

/// The rows of a sequence of signed 8-bit elements.
pub open spec fn rows_i8<const N: usize>(s: Seq<[i8; N]>) -> Seq<Seq<int>> {
    Seq::new(s.len(), |i: int| Seq::new(N as nat, |k: int| s[i][k] as int))
}

/// The rows of a sequence of unsigned 16-bit elements.
pub open spec fn rows_u16<const N: usize>(s: Seq<[u16; N]>) -> Seq<Seq<int>> {
    Seq::new(s.len(), |i: int| Seq::new(N as nat, |k: int| s[i][k] as int))
}

/// The rows of a sequence of signed 16-bit elements.
pub open spec fn rows_i16<const N: usize>(s: Seq<[i16; N]>) -> Seq<Seq<int>> {
    Seq::new(s.len(), |i: int| Seq::new(N as nat, |k: int| s[i][k] as int))
}

/// The rows of a sequence of 32-bit elements.
pub open spec fn rows_u32<const N: usize>(s: Seq<[u32; N]>) -> Seq<Seq<int>> {
    Seq::new(s.len(), |i: int| Seq::new(N as nat, |k: int| s[i][k] as int))
}

/// The rows of a sequence of 32-bit scalars: one component each.
pub open spec fn rows_scalar(s: Seq<u32>) -> Seq<Seq<int>> {
    Seq::new(s.len(), |i: int| Seq::new(1, |k: int| s[i] as int))
}

impl<'a, const SIZE: usize> ItemIter<'a, SIZE> {
    /// The elements fit the data.
    #[verifier::type_invariant]
    spec fn well_formed(self) -> bool {
        fits(self@, SIZE as nat)
    }

    /// How many elements there are.
    pub fn len(&self) -> (r: usize)
        ensures
            r == self@.count,
            fits(self@, SIZE as nat),
    {
        proof {
            use_type_invariant(self);
        }
        self.count
    }

    /// The bytes of the elements.
    pub(crate) fn bytes(&self) -> (r: &'a [u8])
        ensures
            r@ == self@.data,
    {
        self.data
    }

    /// The distance between the starts of two elements.
    pub(crate) fn stride(&self) -> (r: usize)
        ensures
            r == self@.stride,
    {
        self.stride
    }

    /// Where element `i` starts.
    fn start(&self, i: usize) -> (r: usize)
        requires
            i < self@.count,
        ensures
            r == i * self@.stride,
            r + SIZE <= self@.data.len(),
            self@.data.len() == self.data@.len(),
            self@.data.len() <= usize::MAX,
            fits(self@, SIZE as nat),
    {
        let _bytes = self.data.len();
        proof {
            reveal(fits);
            use_type_invariant(self);
            assert(i * self.stride <= self.stride * (self.count - 1)) by (nonlinear_arith)
                requires
                    i <= self.count - 1,
            ;
        }
        i * self.stride
    }

    /// The byte at offset `at` of element `i`.
    fn byte(&self, i: usize, at: usize) -> (r: u8)
        requires
            i < self@.count,
            at < SIZE,
        ensures
            r == byte_at(self@, i as int, at as int),
    {
        let start = self.start(i);
        self.data[start + at]
    }

    /// The unsigned 16-bit number at offset `at` of element `i`.
    fn le16(&self, i: usize, at: usize) -> (r: u16)
        requires
            i < self@.count,
            at + 1 < SIZE,
        ensures
            r == le16_at(self@, i as int, at as int),
    {
        let low = self.byte(i, at);
        let high = self.byte(i, at + 1);
        low as u16 + 0x100 * (high as u16)
    }

    /// The unsigned 32-bit number at offset `at` of element `i`.
    fn le32(&self, i: usize, at: usize) -> (r: u32)
        requires
            i < self@.count,
            at + 3 < SIZE,
        ensures
            r == le32_at(self@, i as int, at as int),
    {
        let b0 = self.byte(i, at);
        let b1 = self.byte(i, at + 1);
        let b2 = self.byte(i, at + 2);
        let b3 = self.byte(i, at + 3);
        b0 as u32 + 0x100 * (b1 as u32) + 0x1_0000 * (b2 as u32) + 0x100_0000 * (b3 as u32)
    }

    /// Reads the elements as `N` unsigned 8-bit components each.
    pub(crate) fn read_u8<const N: usize>(&self) -> (r: Vec<[u8; N]>)
        requires
            SIZE == N,
        ensures
            rows_u8(r@) == rows(self@, DataType::U8, N as nat),
    {
        let count = self.len();
        let mut r: Vec<[u8; N]> = Vec::new();
        let mut i: usize = 0;
        while i < count
            invariant
                i <= count,
                count == self@.count,
                SIZE == N,
                r@.len() == i,
                forall|j: int, k: int|
                    0 <= j < i && 0 <= k < N ==> (#[trigger] r@[j][k]) as int == component(
                        self@,
                        DataType::U8,
                        j,
                        k,
                    ),
            decreases count - i,
        {
            let mut row = [0u8;N];
            let mut k: usize = 0;
            while k < N
                invariant
                    k <= N,
                    i < count,
                    count == self@.count,
                    SIZE == N,
                    forall|l: int|
                        0 <= l < k ==> (#[trigger] row[l]) as int == component(
                            self@,
                            DataType::U8,
                            i as int,
                            l,
                        ),
                decreases N - k,
            {
                row[k] = self.byte(i, k);
                k = k + 1;
            }
            r.push(row);
            i = i + 1;
        }
        assert(rows_u8(r@) =~~= rows(self@, DataType::U8, N as nat));
        r
    }

    /// Reads the elements as `N` signed 8-bit components each.
    pub(crate) fn read_i8<const N: usize>(&self) -> (r: Vec<[i8; N]>)
        requires
            SIZE == N,
        ensures
            rows_i8(r@) == rows(self@, DataType::I8, N as nat),
    {
        let count = self.len();
        let mut r: Vec<[i8; N]> = Vec::new();
        let mut i: usize = 0;
        while i < count
            invariant
                i <= count,
                count == self@.count,
                SIZE == N,
                r@.len() == i,
                forall|j: int, k: int|
                    0 <= j < i && 0 <= k < N ==> (#[trigger] r@[j][k]) as int == component(
                        self@,
                        DataType::I8,
                        j,
                        k,
                    ),
            decreases count - i,
        {
            let mut row = [0i8;N];
            let mut k: usize = 0;
            while k < N
                invariant
                    k <= N,
                    i < count,
                    count == self@.count,
                    SIZE == N,
                    forall|l: int|
                        0 <= l < k ==> (#[trigger] row[l]) as int == component(
                            self@,
                            DataType::I8,
                            i as int,
                            l,
                        ),
                decreases N - k,
            {
                row[k] = to_i8(self.byte(i, k));
                k = k + 1;
            }
            r.push(row);
            i = i + 1;
        }
        assert(rows_i8(r@) =~~= rows(self@, DataType::I8, N as nat));
        r
    }

    /// Reads the elements as `N` unsigned 16-bit components each.
    pub(crate) fn read_u16<const N: usize>(&self) -> (r: Vec<[u16; N]>)
        requires
            SIZE == 2 * N,
        ensures
            rows_u16(r@) == rows(self@, DataType::U16, N as nat),
    {
        let count = self.len();
        let mut r: Vec<[u16; N]> = Vec::new();
        let mut i: usize = 0;
        while i < count
            invariant
                i <= count,
                count == self@.count,
                SIZE == 2 * N,
                r@.len() == i,
                forall|j: int, k: int|
                    0 <= j < i && 0 <= k < N ==> (#[trigger] r@[j][k]) as int == component(
                        self@,
                        DataType::U16,
                        j,
                        k,
                    ),
            decreases count - i,
        {
            let mut row = [0u16;N];
            let mut k: usize = 0;
            while k < N
                invariant
                    k <= N,
                    i < count,
                    count == self@.count,
                    SIZE == 2 * N,
                    forall|l: int|
                        0 <= l < k ==> (#[trigger] row[l]) as int == component(
                            self@,
                            DataType::U16,
                            i as int,
                            l,
                        ),
                decreases N - k,
            {
                row[k] = self.le16(i, 2 * k);
                k = k + 1;
            }
            r.push(row);
            i = i + 1;
        }
        assert(rows_u16(r@) =~~= rows(self@, DataType::U16, N as nat));
        r
    }

    /// Reads the elements as `N` signed 16-bit components each.
    pub(crate) fn read_i16<const N: usize>(&self) -> (r: Vec<[i16; N]>)
        requires
            SIZE == 2 * N,
        ensures
            rows_i16(r@) == rows(self@, DataType::I16, N as nat),
    {
        let count = self.len();
        let mut r: Vec<[i16; N]> = Vec::new();
        let mut i: usize = 0;
        while i < count
            invariant
                i <= count,
                count == self@.count,
                SIZE == 2 * N,
                r@.len() == i,
                forall|j: int, k: int|
                    0 <= j < i && 0 <= k < N ==> (#[trigger] r@[j][k]) as int == component(
                        self@,
                        DataType::I16,
                        j,
                        k,
                    ),
            decreases count - i,
        {
            let mut row = [0i16;N];
            let mut k: usize = 0;
            while k < N
                invariant
                    k <= N,
                    i < count,
                    count == self@.count,
                    SIZE == 2 * N,
                    forall|l: int|
                        0 <= l < k ==> (#[trigger] row[l]) as int == component(
                            self@,
                            DataType::I16,
                            i as int,
                            l,
                        ),
                decreases N - k,
            {
                row[k] = to_i16(self.le16(i, 2 * k));
                k = k + 1;
            }
            r.push(row);
            i = i + 1;
        }
        assert(rows_i16(r@) =~~= rows(self@, DataType::I16, N as nat));
        r
    }

    /// Reads the elements as `N` 32-bit components each: unsigned integers, or the bit
    /// patterns of single-precision numbers.
    pub(crate) fn read_u32<const N: usize>(&self) -> (r: Vec<[u32; N]>)
        requires
            SIZE == 4 * N,
        ensures
            rows_u32(r@) == rows(self@, DataType::U32, N as nat),
    {
        let count = self.len();
        let mut r: Vec<[u32; N]> = Vec::new();
        let mut i: usize = 0;
        while i < count
            invariant
                i <= count,
                count == self@.count,
                SIZE == 4 * N,
                r@.len() == i,
                forall|j: int, k: int|
                    0 <= j < i && 0 <= k < N ==> (#[trigger] r@[j][k]) as int == component(
                        self@,
                        DataType::U32,
                        j,
                        k,
                    ),
            decreases count - i,
        {
            let mut row = [0u32;N];
            let mut k: usize = 0;
            while k < N
                invariant
                    k <= N,
                    i < count,
                    count == self@.count,
                    SIZE == 4 * N,
                    forall|l: int|
                        0 <= l < k ==> (#[trigger] row[l]) as int == component(
                            self@,
                            DataType::U32,
                            i as int,
                            l,
                        ),
                decreases N - k,
            {
                row[k] = self.le32(i, 4 * k);
                k = k + 1;
            }
            r.push(row);
            i = i + 1;
        }
        assert(rows_u32(r@) =~~= rows(self@, DataType::U32, N as nat));
        r
    }

    /// Reads the elements as one 32-bit component each.
    pub(crate) fn read_scalar(&self) -> (r: Vec<u32>)
        requires
            SIZE == 4,
        ensures
            rows_scalar(r@) == rows(self@, DataType::U32, 1),
    {
        let count = self.len();
        let mut r: Vec<u32> = Vec::new();
        let mut i: usize = 0;
        while i < count
            invariant
                i <= count,
                count == self@.count,
                SIZE == 4,
                r@.len() == i,
                forall|j: int|
                    0 <= j < i ==> (#[trigger] r@[j]) as int == component(
                        self@,
                        DataType::U32,
                        j,
                        0,
                    ),
            decreases count - i,
        {
            r.push(self.le32(i, 0));
            i = i + 1;
        }
        assert(rows_scalar(r@) =~~= rows(self@, DataType::U32, 1));
        r
    }
}

/// The signed number that a byte stands for.
fn to_i8(byte: u8) -> (r: i8)
    ensures
        r == signed(byte as int, 0x100),
{
    if byte < 0x80 {
        byte as i8
    } else {
        (byte as i16 - 0x100) as i8
    }
}

/// The signed number that an unsigned 16-bit number stands for.
fn to_i16(value: u16) -> (r: i16)
    ensures
        r == signed(value as int, 0x1_0000),
{
    if value < 0x8000 {
        value as i16
    } else {
        (value as i32 - 0x1_0000) as i16
    }
}

/// What a located accessor holds, or why it could not be located.
pub open spec fn items_of<const SIZE: usize>(
    r: Result<ItemIter<'_, SIZE>, AccessFailed>,
) -> Result<ItemsView, AccessFailed> {
    match r {
        Ok(it) => Ok(it@),
        Err(e) => Err(e),
    }
}

/// Helper for reading buffer data.
#[derive(Clone, Copy, Debug)]
pub struct BufferAccessor<'a> {
    pub accessor: &'a Accessor,
    /// The buffer views of the document.
    pub views: &'a Vec<BufferView>,
    /// The bytes of the buffers of the document.
    pub buffer_data: &'a Vec<Vec<u8>>,
    pub normalization: Normalization,
}

impl<'a> BufferAccessor<'a> {
    /// Locates the elements in this accessor, `SIZE` bytes each.
    pub fn iter<const SIZE: usize>(self) -> (r: Result<ItemIter<'a, SIZE>, AccessFailed>)
        ensures
            items_of(r) == accessed(*self.accessor, self.views@, self.buffer_data@, SIZE as nat),
            r matches Ok(it) ==> fits(it@, SIZE as nat),
    {
        proof {
            reveal(located);
            reveal(fits);
        }
        let accessor = self.accessor;
        if accessor.sparse {
            return Err(AccessFailed::UnsupportedFormat);
        }
        let view = match accessor.view {
            Some(v) => if v < self.views.len() {
                self.views[v]
            } else {
                return Err(AccessFailed::MalformedData);
            },
            None => {
                return Err(AccessFailed::MalformedData);
            },
        };
        if view.buffer >= self.buffer_data.len() {
            return Err(AccessFailed::MalformedData);
        }
        let buffer = &self.buffer_data[view.buffer];
        if view.offset > buffer.len() || view.length > buffer.len() - view.offset {
            return Err(AccessFailed::MalformedData);
        }
        let stride = match view.stride {
            Some(s) => s,
            None => SIZE,
        };
        if accessor.count == 0 || SIZE == 0 || stride < SIZE {
            return Err(AccessFailed::MalformedData);
        }
        let span = match stride.checked_mul(accessor.count - 1) {
            Some(gaps) => match gaps.checked_add(SIZE) {
                Some(span) => span,
                None => {
                    return Err(AccessFailed::MalformedData);
                },
            },
            None => {
                return Err(AccessFailed::MalformedData);
            },
        };
        if accessor.offset > view.length || span > view.length - accessor.offset {
            return Err(AccessFailed::MalformedData);
        }
        let start = view.offset + accessor.offset;
        let data = vstd::slice::slice_subrange(buffer.as_slice(), start, start + span);
        Ok(ItemIter { data, stride, count: accessor.count })
    }

    /// Locates the elements, or fails if normalization is required.
    pub fn with_no_norm<const SIZE: usize>(self) -> (r: Result<ItemIter<'a, SIZE>, AccessFailed>)
        ensures
            items_of(r) == if self.normalization.0 {
                Err(AccessFailed::UnsupportedFormat)
            } else {
                accessed(*self.accessor, self.views@, self.buffer_data@, SIZE as nat)
            },
            r matches Ok(it) ==> fits(it@, SIZE as nat),
    {
        if self.normalization.0 {
            return Err(AccessFailed::UnsupportedFormat);
        }
        self.iter()
    }

    /// Locates the elements and hands on the normalization flag.
    pub fn with_norm<const SIZE: usize>(self) -> (r: Result<
        (ItemIter<'a, SIZE>, Normalization),
        AccessFailed,
    >)
        ensures
            match accessed(*self.accessor, self.views@, self.buffer_data@, SIZE as nat) {
                Ok(items) => r matches Ok(found) && found.0@ == items && found.1
                    == self.normalization,
                Err(e) => r matches Err(f) && f == e,
            },
            r matches Ok(found) ==> fits(found.0@, SIZE as nat),
    {
        let normalized = self.normalization;
        match self.iter() {
            Ok(it) => Ok((it, normalized)),
            Err(e) => Err(e),
        }
    }
}

} // verus!
