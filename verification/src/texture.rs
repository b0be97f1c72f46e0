//! Two-colour textures: an 8 by 8 bitmap and the palette that it indexes.

use vstd::prelude::*;

verus! {

/// Number of rows and of columns of a texture.
pub const TEXTURE_SIZE: usize = 8;

/// An index clamped into a texture.
pub open spec fn clamp_index(i: int) -> int {
    if i > 7 {
        7
    } else {
        i
    }
}

/// The palette entry that an entry of a texture map names: 0 is the first
/// colour, anything else the second.
pub open spec fn palette_index(entry: u8) -> int {
    if entry == 0 {
        0
    } else {
        1
    }
}

/// A bitmap of 8 rows by 8 columns whose entries pick one of two colours.
/// A colour is three bytes, in the order in which a pixel buffer stores them.
#[derive(Clone, Copy, Debug)]
pub struct TextureBitmap {
    bit_map: [[u8; 8]; 8],
    colors: [[u8; 3]; 2],
}

impl TextureBitmap {
    /// The palette index at a column and a row of the bitmap.
    pub closed spec fn bit(self, col: int, row: int) -> u8 {
        self.bit_map@[row]@[col]
    }

    /// The bytes of the palette's colour `index`.
    pub closed spec fn palette(self, index: int) -> Seq<u8> {
        self.colors@[index]@
    }

    /// Every entry of the bitmap names a colour of the palette.
    #[verifier::type_invariant]
    pub open spec fn wf(self) -> bool {
        &&& forall|col: int, row: int|
            0 <= col < 8 && 0 <= row < 8 ==> #[trigger] self.bit(col, row) < 2
        &&& self.palette(0).len() == 3
        &&& self.palette(1).len() == 3
    }

    /// The bytes of the colour at a column and a row.
    pub open spec fn color_at(self, col: int, row: int) -> Seq<u8> {
        self.palette(self.bit(col, row) as int)
    }

    /// The column `col` of the bitmap, from the first row to the last.
    pub open spec fn column(self, col: int) -> Seq<u8> {
        Seq::new(8, |row: int| self.bit(col, row))
    }

    /// A texture of the rows `bit_map` and the palette `colors`, where
    /// every entry of the rows is 0 or 1.
    pub fn new(bit_map: [[u8; 8]; 8], colors: [[u8; 3]; 2]) -> (res: Option<TextureBitmap>)
        ensures
            res is Some <==> (forall|col: int, row: int|
                0 <= col < 8 && 0 <= row < 8 ==> #[trigger] bit_map@[row]@[col] < 2),
            res matches Some(t) ==> t.wf() && (forall|col: int, row: int|
                0 <= col < 8 && 0 <= row < 8 ==> #[trigger] t.bit(col, row) == bit_map@[row]@[col])
                && t.palette(0) == colors@[0]@ && t.palette(1) == colors@[1]@,
    {
        let mut row: usize = 0;
        while row < 8
            invariant
                row <= 8,
                forall|c: int, r: int|
                    0 <= c < 8 && 0 <= r < row ==> #[trigger] bit_map@[r]@[c] < 2,
            decreases 8 - row,
        {
            let mut col: usize = 0;
            while col < 8
                invariant
                    col <= 8,
                    row < 8,
                    forall|c: int, r: int|
                        0 <= c < 8 && 0 <= r < row ==> #[trigger] bit_map@[r]@[c] < 2,
                    forall|c: int| 0 <= c < col ==> #[trigger] bit_map@[row as int]@[c] < 2,
                decreases 8 - col,
            {
                if bit_map[row][col] >= 2 {
                    return None;
                }
                col += 1;
            }
            row += 1;
        }
        Some(TextureBitmap { bit_map, colors })
    }

    /// Number of rows and of columns.
    pub fn size(&self) -> (n: usize)
        ensures
            n == TEXTURE_SIZE,
    {
        TEXTURE_SIZE
    }

    /// The palette's colour `index`; an index past the last counts as the last.
    pub fn palette_color(&self, index: u8) -> (color: [u8; 3])
        ensures
            color@ == self.palette(palette_index(index)),
    {
        if index == 0 {
            self.colors[0]
        } else {
            self.colors[1]
        }
    }

    /// The colour at a column and a row; an index past the last counts as
    /// the last.
    pub fn sample(&self, col: usize, row: usize) -> (color: [u8; 3])
        ensures
            color@ == self.color_at(clamp_index(col as int), clamp_index(row as int)),
    {
        proof {
            use_type_invariant(self);
        }
        let c: usize = if col > 7 { 7 } else { col };
        let r: usize = if row > 7 { 7 } else { row };
        let index: u8 = self.bit_map[r][c];
        assert(index == self.bit(c as int, r as int));
        self.colors[index as usize]
    }
}

/// The rows of the grey brick texture: courses of mortar between bricks
/// that are set off by half a brick from course to course.
pub open spec fn grey_brick_rows() -> Seq<Seq<u8>> {
    seq![
        seq![1u8, 1u8, 1u8, 1u8, 1u8, 1u8, 1u8, 1u8],
        seq![0u8, 0u8, 0u8, 1u8, 0u8, 0u8, 0u8, 1u8],
        seq![1u8, 1u8, 1u8, 1u8, 1u8, 1u8, 1u8, 1u8],
        seq![0u8, 1u8, 0u8, 0u8, 0u8, 1u8, 0u8, 0u8],
        seq![1u8, 1u8, 1u8, 1u8, 1u8, 1u8, 1u8, 1u8],
        seq![0u8, 0u8, 0u8, 1u8, 0u8, 0u8, 0u8, 1u8],
        seq![1u8, 1u8, 1u8, 1u8, 1u8, 1u8, 1u8, 1u8],
        seq![0u8, 1u8, 0u8, 0u8, 0u8, 1u8, 0u8, 0u8],
    ]
}

/// The rows of the placeholder texture: four squares, two of each colour.
pub open spec fn placeholder_rows() -> Seq<Seq<u8>> {
    seq![
        seq![1u8, 1u8, 1u8, 1u8, 0u8, 0u8, 0u8, 0u8],
        seq![1u8, 1u8, 1u8, 1u8, 0u8, 0u8, 0u8, 0u8],
        seq![1u8, 1u8, 1u8, 1u8, 0u8, 0u8, 0u8, 0u8],
        seq![1u8, 1u8, 1u8, 1u8, 0u8, 0u8, 0u8, 0u8],
        seq![0u8, 0u8, 0u8, 0u8, 1u8, 1u8, 1u8, 1u8],
        seq![0u8, 0u8, 0u8, 0u8, 1u8, 1u8, 1u8, 1u8],
        seq![0u8, 0u8, 0u8, 0u8, 1u8, 1u8, 1u8, 1u8],
        seq![0u8, 0u8, 0u8, 0u8, 1u8, 1u8, 1u8, 1u8],
    ]
}

/// Whether the bitmap of `texture` has the rows `rows`.
pub open spec fn has_rows(texture: TextureBitmap, rows: Seq<Seq<u8>>) -> bool {
    forall|col: int, row: int|
        0 <= col < 8 && 0 <= row < 8 ==> #[trigger] texture.bit(col, row) == rows[row][col]
}

/// The grey brick texture.
pub fn grey_brick() -> (texture: TextureBitmap)
    ensures
        has_rows(texture, grey_brick_rows()),
        texture.palette(0) == seq![232u8, 241u8, 255u8],
        texture.palette(1) == seq![199u8, 195u8, 194u8],
        texture.wf(),
{
    let bit_map: [[u8; 8]; 8] = [
        [1, 1, 1, 1, 1, 1, 1, 1],
        [0, 0, 0, 1, 0, 0, 0, 1],
        [1, 1, 1, 1, 1, 1, 1, 1],
        [0, 1, 0, 0, 0, 1, 0, 0],
        [1, 1, 1, 1, 1, 1, 1, 1],
        [0, 0, 0, 1, 0, 0, 0, 1],
        [1, 1, 1, 1, 1, 1, 1, 1],
        [0, 1, 0, 0, 0, 1, 0, 0],
    ];
    let colors: [[u8; 3]; 2] = [[232, 241, 255], [199, 195, 194]];
    let texture = TextureBitmap { bit_map, colors };
    proof {
        assert(texture.palette(0) =~= seq![232u8, 241u8, 255u8]);
        assert(texture.palette(1) =~= seq![199u8, 195u8, 194u8]);
    }
    texture
}

/// The placeholder texture.
pub fn placeholder() -> (texture: TextureBitmap)
    ensures
        has_rows(texture, placeholder_rows()),
        texture.palette(0) == seq![128u8, 0u8, 128u8],
        texture.palette(1) == seq![0u8, 0u8, 0u8],
        texture.wf(),
{
    let bit_map: [[u8; 8]; 8] = [
        [1, 1, 1, 1, 0, 0, 0, 0],
        [1, 1, 1, 1, 0, 0, 0, 0],
        [1, 1, 1, 1, 0, 0, 0, 0],
        [1, 1, 1, 1, 0, 0, 0, 0],
        [0, 0, 0, 0, 1, 1, 1, 1],
        [0, 0, 0, 0, 1, 1, 1, 1],
        [0, 0, 0, 0, 1, 1, 1, 1],
        [0, 0, 0, 0, 1, 1, 1, 1],
    ];
    let colors: [[u8; 3]; 2] = [[128, 0, 128], [0, 0, 0]];
    let texture = TextureBitmap { bit_map, colors };
    proof {
        assert(texture.palette(0) =~= seq![128u8, 0u8, 128u8]);
        assert(texture.palette(1) =~= seq![0u8, 0u8, 0u8]);
    }
    texture
}

/// The column `texture_pos_x` of the bitmap, from the first row to the
/// last; a column past the last counts as the last.
pub fn get_texture_slice(texture: &TextureBitmap, texture_pos_x: usize) -> (tslice: Vec<u8>)
    ensures
        tslice@ == texture.column(clamp_index(texture_pos_x as int)),
        tslice@.len() == 8,
        forall|row: int| 0 <= row < 8 ==> #[trigger] tslice@[row] < 2,
{
    proof {
        use_type_invariant(texture);
    }
    let x: usize = if texture_pos_x > 7 { 7 } else { texture_pos_x };
    let mut tslice: Vec<u8> = Vec::new();
    let mut row: usize = 0;
    while row < 8
        invariant
            row <= 8,
            x < 8,
            texture.wf(),
            tslice@.len() == row,
            forall|r: int| 0 <= r < row ==> #[trigger] tslice@[r] == texture.bit(x as int, r),
        decreases 8 - row,
    {
        tslice.push(texture.bit_map[row][x]);
        row += 1;
    }
    assert(tslice@ =~= texture.column(x as int));
    tslice
}

} // verus!
