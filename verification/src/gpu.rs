//! The arithmetic around the GPU demos: compute dispatch sizes, the padded
//! row layout of a texture read back into a buffer, and the conversion of
//! such a read-back RGBA buffer into tightly packed RGB pixels.

use vstd::prelude::*;

verus! {

/// The side of the square workgroups the compute shaders run in.
pub const WORKGROUP_SIZE: u32 = 8;

/// The alignment that rows of a texture copied into a buffer must have.
pub const COPY_BYTES_PER_ROW_ALIGNMENT: u32 = 256;

/// The number of workgroups that cover `n` pixels: `n / 8` rounded up.
pub fn workgroup_count(n: u32) -> (r: u32)
    requires
        n as int + WORKGROUP_SIZE - 1 <= u32::MAX,
    ensures
        r as int * WORKGROUP_SIZE >= n,
        (r as int - 1) * WORKGROUP_SIZE < n,
{
    (n + (WORKGROUP_SIZE - 1)) / WORKGROUP_SIZE
}

/// The least multiple of `alignment` that is at least `value`.
pub open spec fn aligned(value: int, alignment: int) -> int {
    if value % alignment == 0 {
        value
    } else {
        value + alignment - value % alignment
    }
}

/// Rounds `value` up to a multiple of `alignment`.
pub fn align_to(value: usize, alignment: usize) -> (r: usize)
    requires
        alignment > 0,
        value % alignment == 0 || value + alignment <= usize::MAX,
    ensures
        r == aligned(value as int, alignment as int),
        r % alignment == 0,
        value <= r < value + alignment,
{
    proof {
        lemma_aligned(value as int, alignment as int);
    }
    if value % alignment == 0 {
        value
    } else {
        value + alignment - (value % alignment)
    }
}

proof fn lemma_aligned(value: int, alignment: int)
    requires
        value >= 0,
        alignment > 0,
    ensures
        aligned(value, alignment) % alignment == 0,
        value <= aligned(value, alignment) < value + alignment,
{
    vstd::arithmetic::div_mod::lemma_fundamental_div_mod(value, alignment);
    let q = value / alignment;
    if value % alignment != 0 {
        assert(aligned(value, alignment) == (q + 1) * alignment) by (nonlinear_arith)
            requires
                value == alignment * q + value % alignment,
                aligned(value, alignment) == value + alignment - value % alignment,
        ;
        vstd::arithmetic::div_mod::lemma_mod_multiples_basic(q + 1, alignment);
    }
}

/// Rounding up to a multiple gives the least multiple that is not smaller:
/// every multiple of `alignment` at least `value` is at least the result.
pub proof fn law_align_to_least(value: int, alignment: int, m: int)
    requires
        value >= 0,
        alignment > 0,
        m >= value,
        m % alignment == 0,
    ensures
        aligned(value, alignment) <= m,
        aligned(value, alignment) % alignment == 0,
        value <= aligned(value, alignment) < value + alignment,
{
    lemma_aligned(value, alignment);
    vstd::arithmetic::div_mod::lemma_fundamental_div_mod(value, alignment);
    vstd::arithmetic::div_mod::lemma_fundamental_div_mod(m, alignment);
    let q = value / alignment;
    let k = m / alignment;
    if value % alignment != 0 {
        assert(aligned(value, alignment) == alignment * (q + 1)) by (nonlinear_arith)
            requires
                value == alignment * q + value % alignment,
                aligned(value, alignment) == value + alignment - value % alignment,
        ;
        assert(k > q) by (nonlinear_arith)
            requires
                m == alignment * k,
                value == alignment * q + value % alignment,
                0 < value % alignment < alignment,
                m >= value,
                alignment > 0,
        ;
        assert(alignment * (q + 1) <= alignment * k) by (nonlinear_arith)
            requires
                k >= q + 1,
                alignment > 0,
        ;
    }
}

/// The row layout of a texture read back into a buffer: `width` RGBA pixels
/// per row, each row starting `padded_bytes_per_row` bytes after the last.
pub struct ReadbackLayout {
    pub width: u32,
    pub height: u32,
    pub padded_bytes_per_row: u32,
}

impl ReadbackLayout {
    /// The layout of a `width` by `height` RGBA texture: rows of `width * 4`
    /// bytes padded to the copy alignment.
    pub fn new(width: u32, height: u32) -> (r: Self)
        requires
            width as int * 4 + COPY_BYTES_PER_ROW_ALIGNMENT <= u32::MAX,
        ensures
            r.width == width,
            r.height == height,
            r.padded_bytes_per_row == aligned(width as int * 4, COPY_BYTES_PER_ROW_ALIGNMENT as int),
            r.padded_bytes_per_row >= width as int * 4,
            r.padded_bytes_per_row % COPY_BYTES_PER_ROW_ALIGNMENT == 0,
    {
        let bytes_per_row = width * 4;
        let padded = align_to(bytes_per_row as usize, COPY_BYTES_PER_ROW_ALIGNMENT as usize);
        ReadbackLayout { width, height, padded_bytes_per_row: padded as u32 }
    }

    /// The size in bytes of the buffer the texture is copied into.
    pub fn staging_size(&self) -> (r: u64)
        ensures
            r == self.padded_bytes_per_row as int * self.height as int,
    {
        assert(self.padded_bytes_per_row as int * self.height as int <= 0xffff_ffff * 0xffff_ffff)
            by (nonlinear_arith)
            requires
                self.padded_bytes_per_row <= 0xffff_ffff,
                self.height <= 0xffff_ffff,
        ;
        self.padded_bytes_per_row as u64 * self.height as u64
    }
}

/// The RGB bytes of the first `n` pixels of the RGBA row starting at `start`:
/// the first three bytes of every four.
pub open spec fn rgb_of_rgba_row(data: Seq<u8>, start: int, n: int) -> Seq<u8>
    decreases n,
{
    if n <= 0 {
        seq![]
    } else {
        let p = start + (n - 1) * 4;
        rgb_of_rgba_row(data, start, n - 1) + seq![data[p], data[p + 1], data[p + 2]]
    }
}

/// The RGB bytes of the first `rows` rows of a padded RGBA buffer with rows of
/// `width` pixels `stride` bytes apart.
pub open spec fn rgb_of_padded(data: Seq<u8>, width: int, stride: int, rows: int) -> Seq<u8>
    decreases rows,
{
    if rows <= 0 {
        seq![]
    } else {
        rgb_of_padded(data, width, stride, rows - 1) + rgb_of_rgba_row(
            data,
            (rows - 1) * stride,
            width,
        )
    }
}

proof fn lemma_rgb_row_len(data: Seq<u8>, start: int, n: int)
    requires
        n >= 0,
    ensures
        rgb_of_rgba_row(data, start, n).len() == 3 * n,
    decreases n,
{
    if n > 0 {
        lemma_rgb_row_len(data, start, n - 1);
    }
}

proof fn lemma_rgb_row_index(data: Seq<u8>, start: int, n: int, x: int, c: int)
    requires
        0 <= x < n,
        0 <= c < 3,
    ensures
        rgb_of_rgba_row(data, start, n)[3 * x + c] == data[start + 4 * x + c],
    decreases n,
{
    lemma_rgb_row_len(data, start, n - 1);
    if x < n - 1 {
        lemma_rgb_row_index(data, start, n - 1, x, c);
    }
}

proof fn lemma_rgb_padded_len(data: Seq<u8>, width: int, stride: int, rows: int)
    requires
        rows >= 0,
        width >= 0,
    ensures
        rgb_of_padded(data, width, stride, rows).len() == 3 * width * rows,
    decreases rows,
{
    if rows > 0 {
        lemma_rgb_padded_len(data, width, stride, rows - 1);
        lemma_rgb_row_len(data, (rows - 1) * stride, width);
        assert(3 * width * (rows - 1) + 3 * width == 3 * width * rows) by (nonlinear_arith);
        assert(rgb_of_padded(data, width, stride, rows).len() == rgb_of_padded(
            data,
            width,
            stride,
            rows - 1,
        ).len() + rgb_of_rgba_row(data, (rows - 1) * stride, width).len());
    } else {
        assert(3 * width * rows == 0) by (nonlinear_arith)
            requires
                rows == 0,
        ;
    }
}

/// The read-back conversion keeps every pixel in place: byte `c` of pixel
/// `x` in row `y` of the packed RGB frame is byte `c` of that pixel in the
/// padded RGBA buffer.
pub proof fn law_readback_pixel(data: Seq<u8>, width: int, stride: int, rows: int, x: int, y: int, c: int)
    requires
        0 <= x < width,
        0 <= y < rows,
        0 <= c < 3,
    ensures
        rgb_of_padded(data, width, stride, rows).len() == 3 * width * rows,
        rgb_of_padded(data, width, stride, rows)[3 * (y * width + x) + c] == data[y * stride + 4 * x
            + c],
    decreases rows,
{
    lemma_rgb_padded_len(data, width, stride, rows);
    lemma_rgb_padded_len(data, width, stride, rows - 1);
    let prev = rgb_of_padded(data, width, stride, rows - 1);
    let row = rgb_of_rgba_row(data, (rows - 1) * stride, width);
    let i = 3 * (y * width + x) + c;
    assert(rgb_of_padded(data, width, stride, rows) == prev + row);
    if y < rows - 1 {
        law_readback_pixel(data, width, stride, rows - 1, x, y, c);
        assert(i < 3 * width * (rows - 1)) by (nonlinear_arith)
            requires
                0 <= x < width,
                0 <= y < rows - 1,
                0 <= c < 3,
                i == 3 * (y * width + x) + c,
        ;
        assert((prev + row)[i] == prev[i]);
    } else {
        lemma_rgb_row_index(data, (rows - 1) * stride, width, x, c);
        lemma_rgb_row_len(data, (rows - 1) * stride, width);
        assert(i == 3 * width * (rows - 1) + (3 * x + c)) by (nonlinear_arith)
            requires
                y == rows - 1,
                i == 3 * (y * width + x) + c,
        ;
        assert((prev + row)[i] == row[3 * x + c]);
        assert((rows - 1) * stride + 4 * x + c == y * stride + 4 * x + c);
    }
}

/// Packs a read-back RGBA buffer into RGB pixels: for every row, the first
/// three bytes of each of its `width` pixels.
pub fn padded_rgba_to_rgb(data: &[u8], layout: &ReadbackLayout) -> (r: Vec<u8>)
    requires
        layout.padded_bytes_per_row >= layout.width as int * 4,
        data@.len() >= layout.padded_bytes_per_row as int * layout.height as int,
        layout.width as int * layout.height as int * 3 <= usize::MAX,
    ensures
        r@ == rgb_of_padded(
            data@,
            layout.width as int,
            layout.padded_bytes_per_row as int,
            layout.height as int,
        ),
        r@.len() == layout.width as int * layout.height as int * 3,
{
    let width = layout.width as usize;
    let height = layout.height as usize;
    let stride = layout.padded_bytes_per_row as usize;
    let ghost w = width as int;
    let ghost s = stride as int;
    let n = data.len();
    let mut out: Vec<u8> = Vec::new();
    let mut y: usize = 0;
    while y < height
        invariant
            n == data@.len(),
            y <= height,
            width == layout.width,
            height == layout.height,
            stride == layout.padded_bytes_per_row,
            stride >= width * 4,
            s == stride as int,
            w == width as int,
            data@.len() >= s * height,
            out@ == rgb_of_padded(data@, w, s, y as int),
        decreases height - y,
    {
        assert(y as int * s + w * 4 <= s * height) by (nonlinear_arith)
            requires
                y < height,
                s >= w * 4,
                w >= 0,
        ;
        let start: usize = y * stride;
        let ghost row_start = out@;
        let mut x: usize = 0;
        while x < width
            invariant
                n == data@.len(),
                x <= width,
                width == layout.width,
                stride == layout.padded_bytes_per_row,
                w == width as int,
                start == y * s,
                start + w * 4 <= data@.len(),
                out@ == row_start + rgb_of_rgba_row(data@, start as int, x as int),
            decreases width - x,
        {
            let p = start + x * 4;
            out.push(data[p]);
            out.push(data[p + 1]);
            out.push(data[p + 2]);
            x = x + 1;
            assert(out@ =~= row_start + rgb_of_rgba_row(data@, start as int, x as int));
        }
        y = y + 1;
        assert(out@ =~= rgb_of_padded(data@, w, s, y as int));
    }
    proof {
        lemma_rgb_padded_len(data@, w, s, height as int);
        assert(3 * w * (height as int) == w * (height as int) * 3) by (nonlinear_arith);
    }
    out
}

} // verus!
