//! The wiring table: where each logical pixel's three colour channels live in
//! the display memory of the two driver chips.
//!
//! The table is data. It records how the LEDs are soldered to the output
//! channels of the chips, and nothing in the driver recomputes it. What the
//! driver relies on is proved of it here: every offset lies in the physical
//! buffer, no offset is used twice, and the pixels of each sub-panel stay in
//! that sub-panel's half of the buffer.

use vstd::prelude::*;

verus! {

/// Columns of the logical pixel grid.
pub const COLS: usize = 17;

/// Rows of the logical pixel grid.
pub const ROWS: usize = 7;

/// Logical pixels on the panel.
pub const PIXELS: usize = 119;

/// Logical pixels wired to the left chip: the first nine columns.
pub const LEFT_PIXELS: usize = 63;

/// Bytes of display memory in one driver chip: 28 x 8 output channels.
pub const MATRIX_BYTES: usize = 224;

/// Bytes of display memory in both chips together.
pub const BUFFER_BYTES: usize = 448;

/// Entry `x * ROWS + y` holds, for the pixel at column `x` and row `y`, the
/// offsets of its red, green and blue bytes in the physical buffer.
pub const LUT: [[usize; 3]; 119] = [
    // column 0
    [139, 138, 137],
    [223, 222, 221],
    [167, 166, 165],
    [195, 194, 193],
    [111, 110, 109],
    [55, 54, 53],
    [83, 82, 81],
    // column 1
    [136, 135, 134],
    [220, 219, 218],
    [164, 163, 162],
    [192, 191, 190],
    [108, 107, 106],
    [52, 51, 50],
    [80, 79, 78],
    // column 2
    [113, 115, 114],
    [197, 199, 198],
    [141, 143, 142],
    [169, 171, 170],
    [85, 87, 86],
    [29, 31, 30],
    [57, 59, 58],
    // column 3
    [116, 118, 117],
    [200, 202, 201],
    [144, 146, 145],
    [172, 174, 173],
    [88, 90, 89],
    [32, 34, 33],
    [60, 62, 61],
    // column 4
    [119, 121, 120],
    [203, 205, 204],
    [147, 149, 148],
    [175, 177, 176],
    [91, 93, 92],
    [35, 37, 36],
    [63, 65, 64],
    // column 5
    [122, 124, 123],
    [206, 208, 207],
    [150, 152, 151],
    [178, 180, 179],
    [94, 96, 95],
    [38, 40, 39],
    [66, 68, 67],
    // column 6
    [125, 127, 126],
    [209, 211, 210],
    [153, 155, 154],
    [181, 183, 182],
    [97, 99, 98],
    [41, 43, 42],
    [69, 71, 70],
    // column 7
    [128, 130, 129],
    [212, 214, 213],
    [156, 158, 157],
    [184, 186, 185],
    [100, 102, 101],
    [44, 46, 45],
    [72, 74, 73],
    // column 8
    [131, 133, 132],
    [215, 217, 216],
    [159, 161, 160],
    [187, 189, 188],
    [103, 105, 104],
    [47, 49, 48],
    [75, 77, 76],
    // column 9
    [363, 362, 361],
    [447, 446, 445],
    [391, 390, 389],
    [419, 418, 417],
    [335, 334, 333],
    [279, 278, 277],
    [307, 306, 305],
    // column 10
    [360, 359, 358],
    [444, 443, 442],
    [388, 387, 386],
    [416, 415, 414],
    [332, 331, 330],
    [276, 275, 274],
    [304, 303, 302],
    // column 11
    [337, 339, 338],
    [421, 423, 422],
    [365, 367, 366],
    [393, 395, 394],
    [309, 311, 310],
    [253, 255, 254],
    [281, 283, 282],
    // column 12
    [340, 342, 341],
    [424, 426, 425],
    [368, 370, 369],
    [396, 398, 397],
    [312, 314, 313],
    [256, 258, 257],
    [284, 286, 285],
    // column 13
    [343, 345, 344],
    [427, 429, 428],
    [371, 373, 372],
    [399, 401, 400],
    [315, 317, 316],
    [259, 261, 260],
    [287, 289, 288],
    // column 14
    [346, 348, 347],
    [430, 432, 431],
    [374, 376, 375],
    [402, 404, 403],
    [318, 320, 319],
    [262, 264, 263],
    [290, 292, 291],
    // column 15
    [349, 351, 350],
    [433, 435, 434],
    [377, 379, 378],
    [405, 407, 406],
    [321, 323, 322],
    [265, 267, 266],
    [293, 295, 294],
    // column 16
    [352, 354, 353],
    [436, 438, 437],
    [380, 382, 381],
    [408, 410, 409],
    [324, 326, 325],
    [268, 270, 269],
    [296, 298, 297],
];

/// Position in the table of the pixel at column `x`, row `y`.
pub open spec fn pixel_index(x: int, y: int) -> int {
    x * ROWS as int + y
}

/// Offset in the physical buffer of channel `c` (0 red, 1 green, 2 blue) of
/// the pixel with table position `i`.
pub open spec fn offset(i: int, c: int) -> int {
    LUT[i][c] as int
}

/// Whether some pixel's channel is wired to offset `o`.
pub open spec fn is_wired(o: int) -> bool {
    exists|i: int, c: int| 0 <= i < PIXELS && 0 <= c < 3 && #[trigger] offset(i, c) == o
}

/// The band of 28 bytes that `w`, an offset within one chip, falls in.
spec fn band_of(w: int) -> int {
    if w < 28 {
        0
    } else if w < 56 {
        1
    } else if w < 84 {
        2
    } else if w < 112 {
        3
    } else if w < 140 {
        4
    } else if w < 168 {
        5
    } else if w < 196 {
        6
    } else {
        7
    }
}

/// The row that a band drives, or -1 for the band that drives none.
spec fn row_of_band(band: int) -> int {
    if band == 4 {
        0
    } else if band == 7 {
        1
    } else if band == 5 {
        2
    } else if band == 6 {
        3
    } else if band == 3 {
        4
    } else if band == 1 {
        5
    } else if band == 2 {
        6
    } else {
        -1
    }
}

/// The column, counted within a chip, that byte `ch` of a band belongs to.
spec fn column_of(ch: int) -> int {
    if ch >= 25 {
        0
    } else if ch >= 22 {
        1
    } else if ch >= 19 {
        8
    } else if ch >= 16 {
        7
    } else if ch >= 13 {
        6
    } else if ch >= 10 {
        5
    } else if ch >= 7 {
        4
    } else if ch >= 4 {
        3
    } else {
        2
    }
}

/// The colour channel that byte `ch` of a band carries. The first two
/// columns run blue, green, red upwards; the others red, blue, green.
spec fn channel_of(ch: int) -> int {
    if ch >= 25 {
        27 - ch
    } else if ch >= 22 {
        24 - ch
    } else {
        let k = ch - (3 * column_of(ch) - 5);
        if k == 0 {
            0
        } else if k == 2 {
            1
        } else {
            2
        }
    }
}

/// Reads an offset back into `3 * i + c`, the channel it is wired to, by the
/// regular pattern of the wiring: within a chip, bands of 28 bytes are rows,
/// and the byte within a band tells column and channel. It serves only as a
/// witness in the proofs below; an offset that no channel uses reads as -1.
#[verifier::opaque]
spec fn slot(o: int) -> int {
    let half: int = if o < 224 {
        0
    } else {
        1
    };
    let w = o - 224 * half;
    let band = band_of(w);
    let ch = w - 28 * band;
    let y = row_of_band(band);
    let x = column_of(ch);
    if y < 0 || ch == 0 || (half == 1 && x > 7) {
        -1
    } else {
        3 * (half * 63 + x * 7 + y) + channel_of(ch)
    }
}

/// Channel `c` of entry `i` lies in its chip's half of the buffer and decodes
/// to itself.
#[verifier::opaque]
spec fn channel_ok(i: int, c: int) -> bool {
    &&& slot(offset(i, c)) == 3 * i + c
    &&& i < LEFT_PIXELS ==> 0 <= offset(i, c) < MATRIX_BYTES
    &&& i >= LEFT_PIXELS ==> MATRIX_BYTES <= offset(i, c) < BUFFER_BYTES
}

spec fn entry_ok(i: int) -> bool {
    channel_ok(i, 0) && channel_ok(i, 1) && channel_ok(i, 2)
}

/// The seven entries of column `x`.
spec fn column_ok(x: int) -> bool {
    &&& entry_ok(7 * x)
    &&& entry_ok(7 * x + 1)
    &&& entry_ok(7 * x + 2)
    &&& entry_ok(7 * x + 3)
    &&& entry_ok(7 * x + 4)
    &&& entry_ok(7 * x + 5)
    &&& entry_ok(7 * x + 6)
}

/// Columns `lo` up to but not including `hi`, from the last one down.
spec fn columns_ok(lo: int, hi: int) -> bool
    decreases hi - lo,
{
    hi <= lo || (column_ok(hi - 1) && columns_ok(lo, hi - 1))
}

// The table is walked in four stretches. In each, unfolding `columns_ok`
// meets every column with a known number, so the solver reads the entries
// off the table and decodes them.

#[verifier::rlimit(50)]
proof fn lemma_columns_0_to_5()
    ensures
        columns_ok(0, 5),
{
    reveal(slot);
    reveal(channel_ok);
    reveal_with_fuel(columns_ok, 6);
}

#[verifier::rlimit(50)]
proof fn lemma_columns_5_to_9()
    ensures
        columns_ok(5, 9),
{
    reveal(slot);
    reveal(channel_ok);
    reveal_with_fuel(columns_ok, 5);
}

#[verifier::rlimit(50)]
proof fn lemma_columns_9_to_13()
    ensures
        columns_ok(9, 13),
{
    reveal(slot);
    reveal(channel_ok);
    reveal_with_fuel(columns_ok, 5);
}

#[verifier::rlimit(50)]
proof fn lemma_columns_13_to_17()
    ensures
        columns_ok(13, 17),
{
    reveal(slot);
    reveal(channel_ok);
    reveal_with_fuel(columns_ok, 5);
}

proof fn lemma_column_in_stretch(lo: int, hi: int, x: int)
    requires
        columns_ok(lo, hi),
        lo <= x < hi,
    ensures
        column_ok(x),
    decreases hi - lo,
{
    if x < hi - 1 {
        lemma_column_in_stretch(lo, hi - 1, x);
    }
}

proof fn lemma_channel_checked(i: int, c: int)
    requires
        0 <= i < PIXELS,
        0 <= c < 3,
    ensures
        channel_ok(i, c),
{
    let x = i / 7;
    if x < 5 {
        lemma_columns_0_to_5();
        lemma_column_in_stretch(0, 5, x);
    } else if x < 9 {
        lemma_columns_5_to_9();
        lemma_column_in_stretch(5, 9, x);
    } else if x < 13 {
        lemma_columns_9_to_13();
        lemma_column_in_stretch(9, 13, x);
    } else {
        lemma_columns_13_to_17();
        lemma_column_in_stretch(13, 17, x);
    }
}

/// The table has one entry for each pixel of the grid: a column and a row
/// on the panel give a position in the table, and two pixels never the same
/// one.
pub proof fn lemma_one_entry_per_pixel(x: int, y: int, u: int, v: int)
    requires
        0 <= x < COLS,
        0 <= y < ROWS,
        0 <= u < COLS,
        0 <= v < ROWS,
    ensures
        LUT@.len() == PIXELS,
        0 <= pixel_index(x, y) < PIXELS,
        pixel_index(x, y) == pixel_index(u, v) ==> x == u && y == v,
{
}

/// Every offset of the table lies in the physical buffer, and in the half of
/// it that belongs to the pixel's chip: the first `LEFT_PIXELS` entries use
/// the left chip's bytes only, the others the right chip's only.
pub proof fn lemma_offset_in_half(i: int, c: int)
    requires
        0 <= i < PIXELS,
        0 <= c < 3,
    ensures
        0 <= offset(i, c) < BUFFER_BYTES,
        i < LEFT_PIXELS ==> offset(i, c) < MATRIX_BYTES,
        i >= LEFT_PIXELS ==> offset(i, c) >= MATRIX_BYTES,
{
    reveal(channel_ok);
    lemma_channel_checked(i, c);
}

/// No offset is used twice: two channels wired to the same byte are the same
/// channel of the same pixel. In particular the three offsets of an entry
/// differ, and no two entries are the same triple.
pub proof fn lemma_offsets_distinct(i: int, c: int, j: int, d: int)
    requires
        0 <= i < PIXELS,
        0 <= c < 3,
        0 <= j < PIXELS,
        0 <= d < 3,
        offset(i, c) == offset(j, d),
    ensures
        i == j,
        c == d,
{
    reveal(channel_ok);
    lemma_channel_checked(i, c);
    lemma_channel_checked(j, d);
}

/// The offsets that the left chip's pixels use.
pub open spec fn left_offsets() -> Set<int> {
    Set::new(
        |o: int|
            exists|i: int, c: int|
                0 <= i < LEFT_PIXELS && 0 <= c < 3 && #[trigger] offset(i, c) == o,
    )
}

/// The offsets that the right chip's pixels use.
pub open spec fn right_offsets() -> Set<int> {
    Set::new(
        |o: int|
            exists|i: int, c: int|
                LEFT_PIXELS <= i < PIXELS && 0 <= c < 3 && #[trigger] offset(i, c) == o,
    )
}

/// The two sub-panels share no byte: what the left chip's pixels use and what
/// the right chip's pixels use are disjoint, the first inside the left half
/// of the buffer and the second inside the right half.
pub proof fn lemma_halves_separate()
    ensures
        left_offsets().disjoint(right_offsets()),
        forall|o: int| left_offsets().contains(o) ==> 0 <= o < MATRIX_BYTES,
        forall|o: int| right_offsets().contains(o) ==> MATRIX_BYTES <= o < BUFFER_BYTES,
{
    assert forall|o: int| left_offsets().contains(o) implies 0 <= o < MATRIX_BYTES by {
        let (i, c) = choose|i: int, c: int|
            0 <= i < LEFT_PIXELS && 0 <= c < 3 && #[trigger] offset(i, c) == o;
        lemma_offset_in_half(i, c);
    }
    assert forall|o: int| right_offsets().contains(o) implies MATRIX_BYTES <= o
        < BUFFER_BYTES by {
        let (i, c) = choose|i: int, c: int|
            LEFT_PIXELS <= i < PIXELS && 0 <= c < 3 && #[trigger] offset(i, c) == o;
        lemma_offset_in_half(i, c);
    }
}


} // verus!
