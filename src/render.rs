//! The pixel renderers: binary readouts, the battery gauge, the clock and the
//! breathing fill, each on a 9x34 bitmap stored row by row.

use vstd::prelude::*;
use vstd::arithmetic::div_mod::{lemma_fundamental_div_mod, lemma_fundamental_div_mod_converse};
use crate::protocol::{cell_index, BITMAP_LEN, MATRIX_HEIGHT, MATRIX_WIDTH};

verus! {

/// Column of cell `i`.
pub open spec fn cell_x(i: int) -> int {
    i % 9
}

/// Row of cell `i`.
pub open spec fn cell_y(i: int) -> int {
    i / 9
}

proof fn lemma_cell_coords(i: int)
    requires
        0 <= i,
    ensures
        i == cell_index(cell_x(i), cell_y(i)),
        0 <= cell_x(i) < 9,
        0 <= cell_y(i),
{
    lemma_fundamental_div_mod(i, 9);
}

proof fn lemma_coords_cell(x: int, y: int)
    requires
        0 <= x < 9,
        0 <= y,
    ensures
        cell_x(cell_index(x, y)) == x,
        cell_y(cell_index(x, y)) == y,
{
    lemma_fundamental_div_mod_converse(cell_index(x, y), 9, y, x);
}

/// A bitmap with every cell dark.
pub open spec fn blank() -> Seq<u8> {
    Seq::new(306, |i: int| 0u8)
}

/// Whether bit `b` of `n` is one.
pub open spec fn bit_set(n: u8, b: u8) -> bool {
    (n >> b) & 1u8 == 1u8
}

/// The brightness that shows bit `b` of `n`: 200 for a one, 30 for a zero.
pub open spec fn binary_level(n: u8, b: u8) -> u8 {
    if bit_set(n, b) {
        200
    } else {
        30
    }
}

/// Whether cell (x, y) lies in the binary readout whose top left cell is
/// (col, row): two columns wide, eight rows tall, cut at the bottom edge, and
/// not drawn at all unless both columns fit.
pub open spec fn in_binary_block(col: int, row: int, x: int, y: int) -> bool {
    &&& col + 1 < 9
    &&& (x == col || x == col + 1)
    &&& row <= y < row + 8
    &&& y < 34
}

/// `img` with `n` drawn in binary at (col, row): most significant bit in the
/// top row, each bit as two cells side by side.
pub open spec fn stamp_binary(img: Seq<u8>, n: u8, col: int, row: int) -> Seq<u8> {
    Seq::new(
        img.len(),
        |i: int|
            if in_binary_block(col, row, cell_x(i), cell_y(i)) {
                binary_level(n, (row + 7 - cell_y(i)) as u8)
            } else {
                img[i]
            },
    )
}

/// Draws `number` as eight bits, most significant on top, in the two columns
/// from `col_start` and the eight rows from `row_start`. Rows below the
/// bottom edge are left out; nothing is drawn unless both columns fit.
pub fn render_binary_number(image_data: &mut Vec<u8>, number: u8, col_start: usize, row_start: usize)
    requires
        old(image_data)@.len() == BITMAP_LEN,
    ensures
        final(image_data)@ == stamp_binary(old(image_data)@, number, col_start as int, row_start as int),
{
    let ghost orig = image_data@;
    let ghost col = col_start as int;
    let ghost row = row_start as int;
    let mut bit: u8 = 0;
    while bit < 8
        invariant
            image_data@.len() == BITMAP_LEN,
            orig.len() == BITMAP_LEN,
            col == col_start as int,
            row == row_start as int,
            bit <= 8,
            forall|i: int|
                0 <= i < 306 ==> #[trigger] image_data@[i] == if in_binary_block(
                    col,
                    row,
                    cell_x(i),
                    cell_y(i),
                ) && row + 7 - cell_y(i) < bit {
                    binary_level(number, (row + 7 - cell_y(i)) as u8)
                } else {
                    orig[i]
                },
        decreases 8 - bit,
    {
        let is_set = (number & (1u8 << bit)) != 0;
        assert(is_set == bit_set(number, bit)) by (bit_vector)
            requires
                is_set == ((number & (1u8 << bit)) != 0),
                bit < 8,
        ;
        let level: u8 = if is_set { 200 } else { 30 };
        let ghost before = image_data@;
        let fits = col_start < MATRIX_WIDTH - 1 && row_start < MATRIX_HEIGHT && ((7 - bit) as usize)
            < MATRIX_HEIGHT - row_start;
        if fits {
            let y = row_start + (7 - bit) as usize;
            let idx = col_start + y * MATRIX_WIDTH;
            image_data[idx] = level;
            image_data[idx + 1] = level;
            proof {
                lemma_coords_cell(col, y as int);
                lemma_coords_cell(col + 1, y as int);
            }
        }
        proof {
            assert forall|i: int| 0 <= i < 306 implies #[trigger] image_data@[i] == if in_binary_block(
                col,
                row,
                cell_x(i),
                cell_y(i),
            ) && row + 7 - cell_y(i) < bit + 1 {
                binary_level(number, (row + 7 - cell_y(i)) as u8)
            } else {
                orig[i]
            } by {
                lemma_cell_coords(i);
                if in_binary_block(col, row, cell_x(i), cell_y(i)) && row + 7 - cell_y(i) == bit {
                    assert(fits);
                } else if fits {
                    let y = row + 7 - bit;
                    assert(i != cell_index(col, y) && i != cell_index(col + 1, y));
                }
            }
        }
        bit = bit + 1;
    }
}

/// A new bitmap with every cell dark.
pub fn blank_bitmap() -> (r: Vec<u8>)
    ensures
        r@ == blank(),
{
    let mut image_data: Vec<u8> = Vec::new();
    let mut i: usize = 0;
    while i < BITMAP_LEN
        invariant
            i <= BITMAP_LEN,
            image_data@ == Seq::new(i as nat, |j: int| 0u8),
        decreases BITMAP_LEN - i,
    {
        image_data.push(0);
        i = i + 1;
        assert(image_data@ =~= Seq::new(i as nat, |j: int| 0u8));
    }
    image_data
}

/// A percentage held to the range 0 to 100.
pub open spec fn capped_percent(p: u8) -> int {
    if p > 100 {
        100
    } else {
        p as int
    }
}

/// How many of the 34 rows the battery gauge lights for `p` percent.
pub open spec fn filled_rows(p: u8) -> int {
    capped_percent(p) * 34 / 100
}

/// The brightness of the lit part of the gauge: 100 above half charge, 150
/// above a fifth, 255 below.
pub open spec fn charge_level(p: u8) -> u8 {
    if capped_percent(p) > 50 {
        100
    } else if capped_percent(p) > 20 {
        150
    } else {
        255
    }
}

/// The gauge's cell in row `y`: lit if it is among the bottom
/// `filled_rows(p)` rows, dim (20) otherwise.
pub open spec fn gauge_cell(p: u8, y: int) -> u8 {
    if 34 - y <= filled_rows(p) {
        charge_level(p)
    } else {
        20
    }
}

/// `img` with the battery gauge for `p` percent drawn in columns 0 and 1.
pub open spec fn stamp_gauge(img: Seq<u8>, p: u8) -> Seq<u8> {
    Seq::new(
        img.len(),
        |i: int|
            if cell_x(i) < 2 {
                gauge_cell(p, cell_y(i))
            } else {
                img[i]
            },
    )
}

/// Draws a vertical battery gauge in the two leftmost columns, filled from
/// the bottom; a percentage above 100 counts as 100.
pub fn render_battery_bar(image_data: &mut Vec<u8>, percentage: u8)
    requires
        old(image_data)@.len() == BITMAP_LEN,
    ensures
        final(image_data)@ == stamp_gauge(old(image_data)@, percentage),
{
    let ghost orig = image_data@;
    let percentage = if percentage > 100 { 100 } else { percentage };
    let ghost p = percentage;
    let filled = (percentage as usize * MATRIX_HEIGHT) / 100;
    let level: u8 = if percentage > 50 {
        100
    } else if percentage > 20 {
        150
    } else {
        255
    };
    let mut row: usize = 0;
    while row < MATRIX_HEIGHT
        invariant
            image_data@.len() == BITMAP_LEN,
            orig.len() == BITMAP_LEN,
            row <= MATRIX_HEIGHT,
            filled == filled_rows(p),
            level == charge_level(p),
            forall|i: int|
                0 <= i < 306 ==> #[trigger] image_data@[i] == if cell_x(i) < 2 && cell_y(i) < row {
                    gauge_cell(p, cell_y(i))
                } else {
                    orig[i]
                },
        decreases MATRIX_HEIGHT - row,
    {
        let value: u8 = if MATRIX_HEIGHT - row <= filled { level } else { 20 };
        let idx = row * MATRIX_WIDTH;
        image_data[idx] = value;
        image_data[idx + 1] = value;
        proof {
            lemma_coords_cell(0, row as int);
            lemma_coords_cell(1, row as int);
            assert forall|i: int| 0 <= i < 306 implies #[trigger] image_data@[i] == if cell_x(i) < 2
                && cell_y(i) < row + 1 {
                gauge_cell(p, cell_y(i))
            } else {
                orig[i]
            } by {
                lemma_cell_coords(i);
                if cell_y(i) != row || cell_x(i) >= 2 {
                    assert(i != cell_index(0, row as int) && i != cell_index(1, row as int));
                }
            }
        }
        row = row + 1;
    }
}

/// The battery screen for `p` percent: the gauge, with `p` in binary over
/// it from row 8.
pub open spec fn battery_image(p: u8) -> Seq<u8> {
    stamp_binary(stamp_gauge(blank(), p), p, 0, 8)
}

/// The charge shown when no battery reading is at hand: full.
pub open spec fn shown_charge(reading: Option<u8>) -> u8 {
    match reading {
        Some(p) => p,
        None => 100,
    }
}

/// Renders the battery screen for a charge reading; without a reading the
/// battery is shown as full.
pub fn render_battery_display(reading: Option<u8>) -> (r: Vec<u8>)
    ensures
        r@ == battery_image(shown_charge(reading)),
{
    let percent = match reading {
        Some(p) => p,
        None => 100,
    };
    let mut image_data = blank_bitmap();
    render_battery_bar(&mut image_data, percent);
    render_binary_number(&mut image_data, percent, 0, 8);
    image_data
}

/// The clock screen: the hour in binary from row 0, the minute from row 17.
pub open spec fn clock_image(hour: u8, minute: u8) -> Seq<u8> {
    stamp_binary(stamp_binary(blank(), hour, 0, 0), minute, 0, 17)
}

/// Renders the clock screen for the given time of day.
pub fn render_clock(hour: u8, minute: u8) -> (r: Vec<u8>)
    ensures
        r@ == clock_image(hour, minute),
{
    let mut image_data = blank_bitmap();
    render_binary_number(&mut image_data, hour, 0, 0);
    render_binary_number(&mut image_data, minute, 0, 17);
    image_data
}

/// Relies on `chrono::Local::now` and its `Timelike::hour` and
/// `Timelike::minute`, which give the local hour (0 to 23) and minute
/// (0 to 59).
#[verifier::external_body]
fn local_time_of_day() -> (r: (u8, u8))
    ensures
        r.0 < 24,
        r.1 < 60,
{
    let now = chrono::Local::now();
    (chrono::Timelike::hour(&now) as u8, chrono::Timelike::minute(&now) as u8)
}

/// Renders the clock screen for the current local time.
pub fn render_clock_display() -> (r: Vec<u8>)
    ensures
        exists|hour: u8, minute: u8| hour < 24 && minute < 60 && r@ == clock_image(hour, minute),
{
    let (hour, minute) = local_time_of_day();
    render_clock(hour, minute)
}

/// The brightness of the breathing fill at animation step `frame`: rising
/// from 0 to 255 over the first 128 steps, falling back over the rest.
pub open spec fn breathing_level(frame: u8) -> u8 {
    if frame < 128 {
        (frame as int * 255 / 128) as u8
    } else {
        ((256 - frame as int) * 255 / 128) as u8
    }
}

/// Fills the whole display with the breathing brightness of step `frame`.
pub fn render_breathing_animation(frame: u8) -> (r: Vec<u8>)
    ensures
        r@ == Seq::new(306, |i: int| breathing_level(frame)),
{
    let level: u8 = if frame < 128 {
        (frame as u32 * 255 / 128) as u8
    } else {
        ((256 - frame as u32) * 255 / 128) as u8
    };
    let mut image_data: Vec<u8> = Vec::new();
    let mut i: usize = 0;
    while i < BITMAP_LEN
        invariant
            i <= BITMAP_LEN,
            level == breathing_level(frame),
            image_data@ == Seq::new(i as nat, |j: int| breathing_level(frame)),
        decreases BITMAP_LEN - i,
    {
        image_data.push(level);
        i = i + 1;
        assert(image_data@ =~= Seq::new(i as nat, |j: int| breathing_level(frame)));
    }
    image_data
}

/// The number shown by the first `k` rows of a binary readout in column
/// `col` from row `row`, top row most significant: a cell at 200 reads as a
/// one, any other as a zero.
pub open spec fn read_binary_rows(img: Seq<u8>, col: int, row: int, k: nat) -> int
    decreases k,
{
    if k == 0 {
        0
    } else {
        2 * read_binary_rows(img, col, row, (k - 1) as nat) + if img[cell_index(
            col,
            row + k - 1,
        )] == 200 {
            1int
        } else {
            0int
        }
    }
}

/// The eight-bit number shown by the binary readout in column `col` from
/// row `row`.
pub open spec fn read_binary(img: Seq<u8>, col: int, row: int) -> int {
    read_binary_rows(img, col, row, 8)
}

proof fn lemma_shift_step(n: u8, s: u8)
    requires
        s < 7,
    ensures
        (n >> s) as int == 2 * ((n >> ((s + 1) as u8)) as int) + ((n >> s) & 1u8) as int,
{
    assert((n >> s) == 2 * (n >> ((s + 1) as u8)) + ((n >> s) & 1u8)) by (bit_vector)
        requires
            s < 7,
    ;
}

proof fn lemma_low_bit(n: u8, s: u8)
    ensures
        ((n >> s) & 1u8) == 0u8 || ((n >> s) & 1u8) == 1u8,
{
    assert(((n >> s) & 1u8) == 0u8 || ((n >> s) & 1u8) == 1u8) by (bit_vector);
}

proof fn lemma_top_bit(n: u8)
    ensures
        (n >> 7u8) as int == ((n >> 7u8) & 1u8) as int,
{
    assert((n >> 7u8) == ((n >> 7u8) & 1u8)) by (bit_vector);
}

proof fn lemma_read_rows(img: Seq<u8>, n: u8, col: int, row: int, k: nat)
    requires
        1 <= k <= 8,
        forall|y: int|
            row <= y < row + 8 ==> #[trigger] img[cell_index(col, y)] == binary_level(
                n,
                (row + 7 - y) as u8,
            ),
    ensures
        read_binary_rows(img, col, row, k) == (n >> ((8 - k) as u8)) as int,
    decreases k,
{
    let y = row + k - 1;
    assert(img[cell_index(col, y)] == binary_level(n, (row + 7 - y) as u8));
    lemma_low_bit(n, (8 - k) as u8);
    if k == 1 {
        lemma_top_bit(n);
        assert(read_binary_rows(img, col, row, 0) == 0);
    } else {
        lemma_read_rows(img, n, col, row, (k - 1) as nat);
        lemma_shift_step(n, (8 - k) as u8);
    }
}

/// A readout drawn with the binary renderer reads back as the number drawn.
pub proof fn lemma_binary_readout(img: Seq<u8>, n: u8, col: int, row: int)
    requires
        forall|y: int|
            row <= y < row + 8 ==> #[trigger] img[cell_index(col, y)] == binary_level(
                n,
                (row + 7 - y) as u8,
            ),
    ensures
        read_binary(img, col, row) == n,
{
    lemma_read_rows(img, n, col, row, 8);
    assert((n >> 0u8) == n) by (bit_vector);
}

/// The clock screen shows the hour in binary from row 0 and the minute in
/// binary from row 17, and each reads back as the number drawn.
pub proof fn lemma_clock_readout(hour: u8, minute: u8)
    ensures
        read_binary(clock_image(hour, minute), 0, 0) == hour,
        read_binary(clock_image(hour, minute), 0, 17) == minute,
{
    let img = clock_image(hour, minute);
    assert forall|y: int| 0 <= y < 8 implies #[trigger] img[cell_index(0, y)] == binary_level(
        hour,
        (7 - y) as u8,
    ) by {
        lemma_coords_cell(0, y);
    }
    lemma_binary_readout(img, hour, 0, 0);
    assert forall|y: int| 17 <= y < 25 implies #[trigger] img[cell_index(0, y)] == binary_level(
        minute,
        (17 + 7 - y) as u8,
    ) by {
        lemma_coords_cell(0, y);
    }
    lemma_binary_readout(img, minute, 0, 17);
}

} // verus!
