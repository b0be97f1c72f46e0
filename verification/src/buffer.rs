//! The pixel buffer: rows of three-byte pixels with checked writes.

use vstd::prelude::*;

verus! {

/// Number of bytes of a pixel.
pub const BYTES_PER_PIXEL: usize = 3;

/// The offset in bytes of a pixel in a buffer whose rows hold `stride` pixels.
pub open spec fn pixel_index(stride: int, column: int, row: int) -> int {
    (row * stride + column) * 3
}

/// A surface of `height` rows of `width` pixels. Each row takes `stride`
/// pixels in memory, each pixel three bytes.
#[derive(Debug)]
pub struct PixelBuffer {
    width: u16,
    height: u16,
    stride: u16,
    data: Vec<u8>,
}

impl View for PixelBuffer {
    type V = Seq<u8>;

    closed spec fn view(&self) -> Seq<u8> {
        self.data@
    }
}

impl PixelBuffer {
    /// Number of pixels of a row that are shown.
    pub closed spec fn spec_width(&self) -> u16 {
        self.width
    }

    /// Number of rows.
    pub closed spec fn spec_height(&self) -> u16 {
        self.height
    }

    /// Number of pixels that a row takes in memory.
    pub closed spec fn spec_stride(&self) -> u16 {
        self.stride
    }

    /// The rows are no wider than the stride, and the bytes are those of
    /// `height` rows.
    #[verifier::type_invariant]
    pub open spec fn wf(self) -> bool {
        &&& self.width() <= self.stride()
        &&& self@.len() == self.stride() * self.height() * 3
    }

    /// Whether the surface shows a pixel at a column and a row.
    pub open spec fn contains(self, column: int, row: int) -> bool {
        0 <= column < self.width() && 0 <= row < self.height()
    }

    /// Whether memory holds a pixel at a column and a row, shown or not.
    pub open spec fn holds(self, column: int, row: int) -> bool {
        0 <= column < self.stride() && 0 <= row < self.height()
    }

    /// The three bytes of the pixel at a column and a row.
    pub open spec fn pixel(self, column: int, row: int) -> Seq<u8> {
        self@.subrange(
            pixel_index(self.stride() as int, column, row),
            pixel_index(self.stride() as int, column, row) + 3,
        )
    }

    /// `self` has the size and the stride of `other`.
    pub open spec fn same_shape(self, other: PixelBuffer) -> bool {
        &&& self.width() == other.width()
        &&& self.height() == other.height()
        &&& self.stride() == other.stride()
        &&& self@.len() == other@.len()
    }

    /// A surface over the bytes `data`, where the rows are no wider than
    /// the stride and `data` holds exactly `height` rows.
    pub fn from_raw(width: u16, height: u16, stride: u16, data: Vec<u8>) -> (res: Option<
        PixelBuffer,
    >)
        ensures
            res is Some <==> width <= stride && data@.len() == stride * height * 3,
            res matches Some(b) ==> b.width() == width && b.height() == height && b.stride()
                == stride && b@ == data@ && b.wf(),
    {
        assert(0 <= stride * height <= 0xffff * 0xffff) by (nonlinear_arith)
            requires
                0 <= stride <= 0xffff,
                0 <= height <= 0xffff,
        ;
        let bytes: u64 = stride as u64 * height as u64 * 3;
        if width > stride || data.len() as u64 != bytes {
            return None;
        }
        Some(PixelBuffer { width, height, stride, data })
    }

    /// A surface of `width` by `height` pixels, all bytes zero, whose rows
    /// lie end to end.
    pub fn new(width: u16, height: u16) -> (buffer: PixelBuffer)
        ensures
            buffer.width() == width,
            buffer.height() == height,
            buffer.stride() == width,
            buffer@ == Seq::new((width * height * 3) as nat, |i: int| 0u8),
            buffer.wf(),
    {
        assert(0 <= width * height <= 0xffff * 0xffff) by (nonlinear_arith)
            requires
                0 <= width <= 0xffff,
                0 <= height <= 0xffff,
        ;
        let bytes: u64 = width as u64 * height as u64 * 3;
        let mut data: Vec<u8> = Vec::new();
        let mut i: u64 = 0;
        while i < bytes
            invariant
                i <= bytes,
                data@.len() == i,
                forall|k: int| 0 <= k < i ==> data@[k] == 0u8,
            decreases bytes - i,
        {
            data.push(0);
            i += 1;
        }
        assert(data@ =~= Seq::new((width * height * 3) as nat, |i: int| 0u8));
        PixelBuffer { width, height, stride: width, data }
    }

    /// Number of pixels of a row that are shown.
    #[verifier::when_used_as_spec(spec_width)]
    pub fn width(&self) -> (w: u16)
        ensures
            w == self.width(),
    {
        self.width
    }

    /// Number of rows.
    #[verifier::when_used_as_spec(spec_height)]
    pub fn height(&self) -> (h: u16)
        ensures
            h == self.height(),
    {
        self.height
    }

    /// Number of pixels that a row takes in memory.
    #[verifier::when_used_as_spec(spec_stride)]
    pub fn stride(&self) -> (s: u16)
        ensures
            s == self.stride(),
            s >= self.width(),
    {
        proof {
            use_type_invariant(self);
        }
        self.stride
    }

    /// The bytes of the surface, row by row.
    pub fn data(&self) -> (bytes: &Vec<u8>)
        ensures
            bytes@ == self@,
    {
        &self.data
    }

    /// Gives the bytes of the surface back.
    pub fn into_raw(self) -> (bytes: Vec<u8>)
        ensures
            bytes@ == self@,
    {
        self.data
    }

    /// The pixel at a column and a row, where the surface shows one.
    pub fn get_pixel(&self, column: u32, row: u32) -> (res: Option<[u8; 3]>)
        ensures
            res is Some <==> self.contains(column as int, row as int),
            res matches Some(color) ==> color@ == self.pixel(column as int, row as int),
    {
        proof {
            use_type_invariant(self);
        }
        if column >= self.width as u32 || row >= self.height as u32 {
            return None;
        }
        proof {
            lemma_pixel_in_bytes(
                self.stride as int,
                self.height as int,
                column as int,
                row as int,
            );
        }
        let bytes: usize = self.data.len();
        let i: usize = ((row as u64 * self.stride as u64 + column as u64) * 3) as usize;
        assert(i + 3 <= bytes);
        let color: [u8; 3] = [self.data[i], self.data[i + 1], self.data[i + 2]];
        assert(color@ =~= self.pixel(column as int, row as int));
        Some(color)
    }

    /// Paints the pixel at a column and a row, where the surface shows one;
    /// a pixel anywhere else is left out.
    pub fn put_pixel(&mut self, column: u32, row: u32, color: &[u8; 3]) -> (written: bool)
        ensures
            written == old(self).contains(column as int, row as int),
            final(self).same_shape(*old(self)),
            final(self).wf(),
            written ==> final(self)@ == old(self)@.update(
                pixel_index(old(self).stride() as int, column as int, row as int),
                color@[0],
            ).update(
                pixel_index(old(self).stride() as int, column as int, row as int) + 1,
                color@[1],
            ).update(
                pixel_index(old(self).stride() as int, column as int, row as int) + 2,
                color@[2],
            ),
            !written ==> final(self)@ == old(self)@,
            forall|c: int, r: int|
                final(self).holds(c, r) ==> #[trigger] final(self).pixel(c, r) == (if written && c
                    == column && r == row {
                    color@
                } else {
                    old(self).pixel(c, r)
                }),
    {
        proof {
            use_type_invariant(&*self);
        }
        if column >= self.width as u32 || row >= self.height as u32 {
            return false;
        }
        proof {
            lemma_pixel_in_bytes(
                self.stride as int,
                self.height as int,
                column as int,
                row as int,
            );
        }
        let bytes: usize = self.data.len();
        let i: usize = ((row as u64 * self.stride as u64 + column as u64) * 3) as usize;
        assert(i + 3 <= bytes);
        self.data[i] = color[0];
        self.data[i + 1] = color[1];
        self.data[i + 2] = color[2];
        proof {
            let stride = self.stride as int;
            assert forall|c: int, r: int| self.holds(c, r) implies #[trigger] self.pixel(c, r) == (
            if c == column && r == row {
                color@
            } else {
                old(self).pixel(c, r)
            }) by {
                lemma_pixel_in_bytes(stride, self.height as int, c, r);
                if c == column && r == row {
                    assert(self.pixel(c, r) =~= color@);
                } else {
                    lemma_pixels_apart(stride, c, r, column as int, row as int);
                    assert(self.pixel(c, r) =~= old(self).pixel(c, r));
                }
            }
        }
        true
    }
}

/// The bytes of a pixel that memory holds lie within the buffer.
pub proof fn lemma_pixel_in_bytes(stride: int, height: int, column: int, row: int)
    requires
        0 <= column < stride,
        0 <= row < height,
    ensures
        0 <= pixel_index(stride, column, row),
        pixel_index(stride, column, row) + 3 <= stride * height * 3,
        0 <= row * stride + column < stride * height,
        row * stride + column <= 0xffff_ffff_ffff || stride > 0xffff || height > 0xffff,
{
    assert(0 <= row * stride && row * stride + stride <= height * stride) by (nonlinear_arith)
        requires
            0 <= row < height,
            0 < stride,
    ;
    assert(height * stride == stride * height) by (nonlinear_arith);
    if stride <= 0xffff && height <= 0xffff {
        assert(stride * height <= 0xffff * 0xffff) by (nonlinear_arith)
            requires
                0 <= stride <= 0xffff,
                0 <= height <= 0xffff,
        ;
    }
}

/// Two different pixels share no byte.
pub proof fn lemma_pixels_apart(stride: int, c1: int, r1: int, c2: int, r2: int)
    requires
        0 <= c1 < stride,
        0 <= c2 < stride,
        0 <= r1,
        0 <= r2,
        c1 != c2 || r1 != r2,
    ensures
        pixel_index(stride, c1, r1) + 3 <= pixel_index(stride, c2, r2) || pixel_index(
            stride,
            c2,
            r2,
        ) + 3 <= pixel_index(stride, c1, r1),
{
    if r1 < r2 {
        assert(r1 * stride + stride <= r2 * stride) by (nonlinear_arith)
            requires
                r1 + 1 <= r2,
                0 < stride,
        ;
    } else if r2 < r1 {
        assert(r2 * stride + stride <= r1 * stride) by (nonlinear_arith)
            requires
                r2 + 1 <= r1,
                0 < stride,
        ;
    }
}

} // verus!
