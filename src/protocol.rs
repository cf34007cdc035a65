//! The framed command protocol spoken by the LED-matrix firmware.
//!
//! Every frame starts with the two marker bytes, then an opcode, then the
//! opcode's payload.

use vstd::prelude::*;

verus! {

pub const MAGIC1: u8 = 0x32;

pub const MAGIC2: u8 = 0xAC;

pub const CMD_BRIGHTNESS: u8 = 0x00;

pub const CMD_PATTERN: u8 = 0x01;

pub const CMD_SLEEP: u8 = 0x03;

pub const CMD_ANIMATE: u8 = 0x04;

pub const CMD_STAGE_GREY_COL: u8 = 0x07;

pub const CMD_FLUSH_COLS: u8 = 0x08;

pub const CMD_START_GAME: u8 = 0x10;

pub const CMD_SET_COLOR: u8 = 0x13;

pub const CMD_IDLE: u8 = 0x14;

pub const CMD_VERSION: u8 = 0x20;

/// A frame: the marker bytes, the opcode, then the payload.
pub open spec fn frame_spec(cmd: u8, params: Seq<u8>) -> Seq<u8> {
    seq![MAGIC1, MAGIC2, cmd] + params
}

/// Builds the frame for `cmd` carrying `params`.
pub fn frame(cmd: u8, params: &[u8]) -> (r: Vec<u8>)
    requires
        params@.len() + 3 <= usize::MAX,
    ensures
        r@ == frame_spec(cmd, params@),
{
    let mut packet: Vec<u8> = Vec::new();
    packet.push(MAGIC1);
    packet.push(MAGIC2);
    packet.push(cmd);
    let mut i: usize = 0;
    while i < params.len()
        invariant
            i <= params@.len(),
            packet@ == seq![MAGIC1, MAGIC2, cmd] + params@.subrange(0, i as int),
        decreases params@.len() - i,
    {
        packet.push(params[i]);
        i = i + 1;
        assert(packet@ =~= seq![MAGIC1, MAGIC2, cmd] + params@.subrange(0, i as int));
    }
    assert(params@.subrange(0, i as int) =~= params@);
    packet
}

/// Sets the global brightness of a display.
pub fn brightness(level: u8) -> (r: Vec<u8>)
    ensures
        r@ == frame_spec(CMD_BRIGHTNESS, seq![level]),
{
    let r = vec![MAGIC1, MAGIC2, CMD_BRIGHTNESS, level];
    assert(r@ =~= frame_spec(CMD_BRIGHTNESS, seq![level]));
    r
}

/// Width of the matrix in pixels.
pub const MATRIX_WIDTH: usize = 9;

/// Height of the matrix in pixels.
pub const MATRIX_HEIGHT: usize = 34;

/// Number of cells of a full bitmap.
pub const BITMAP_LEN: usize = 306;

/// The cell of column `x`, row `y` in a row-major bitmap.
pub open spec fn cell_index(x: int, y: int) -> int {
    x + y * 9
}

/// The 34 brightness values of column `x`, top to bottom.
pub open spec fn column_pixels(img: Seq<u8>, x: int) -> Seq<u8> {
    Seq::new(34, |y: int| img[cell_index(x, y)])
}

/// The frame that stages column `x` of `img` on the device.
pub open spec fn column_frame(img: Seq<u8>, x: int) -> Seq<u8> {
    frame_spec(CMD_STAGE_GREY_COL, seq![x as u8] + column_pixels(img, x))
}

/// The frame that makes the device show the staged columns.
pub open spec fn flush_frame() -> Seq<u8> {
    frame_spec(CMD_FLUSH_COLS, seq![0u8])
}

/// The staging frames of columns `0..n`, in order.
pub open spec fn staged_columns(img: Seq<u8>, n: nat) -> Seq<u8>
    decreases n,
{
    if n == 0 {
        seq![]
    } else {
        staged_columns(img, (n - 1) as nat) + column_frame(img, n - 1)
    }
}

/// The bytes that draw a whole bitmap: nothing unless it has exactly 306
/// cells, else the nine column frames and the flush frame.
pub open spec fn bitmap_command(img: Seq<u8>) -> Seq<u8> {
    if img.len() != BITMAP_LEN {
        seq![]
    } else {
        staged_columns(img, 9) + flush_frame()
    }
}

/// Converts a bitmap into the device bytes that draw it in greyscale.
pub fn image_data_to_command(image_data: &[u8]) -> (r: Vec<u8>)
    ensures
        r@ == bitmap_command(image_data@),
{
    if image_data.len() != BITMAP_LEN {
        return Vec::new();
    }
    let mut commands: Vec<u8> = Vec::new();
    let mut x: usize = 0;
    while x < MATRIX_WIDTH
        invariant
            image_data@.len() == BITMAP_LEN,
            x <= MATRIX_WIDTH,
            commands@ == staged_columns(image_data@, x as nat),
        decreases MATRIX_WIDTH - x,
    {
        let ghost before = commands@;
        commands.push(MAGIC1);
        commands.push(MAGIC2);
        commands.push(CMD_STAGE_GREY_COL);
        commands.push(x as u8);
        let mut y: usize = 0;
        while y < MATRIX_HEIGHT
            invariant
                image_data@.len() == BITMAP_LEN,
                x < MATRIX_WIDTH,
                y <= MATRIX_HEIGHT,
                commands@ == before + seq![MAGIC1, MAGIC2, CMD_STAGE_GREY_COL, x as u8]
                    + column_pixels(image_data@, x as int).subrange(0, y as int),
            decreases MATRIX_HEIGHT - y,
        {
            let idx = x + y * MATRIX_WIDTH;
            commands.push(image_data[idx]);
            y = y + 1;
            assert(commands@ =~= before + seq![MAGIC1, MAGIC2, CMD_STAGE_GREY_COL, x as u8]
                + column_pixels(image_data@, x as int).subrange(0, y as int));
        }
        assert(column_pixels(image_data@, x as int).subrange(0, 34) =~= column_pixels(
            image_data@,
            x as int,
        ));
        assert(commands@ =~= staged_columns(image_data@, (x + 1) as nat));
        x = x + 1;
    }
    let ghost staged = commands@;
    commands.push(MAGIC1);
    commands.push(MAGIC2);
    commands.push(CMD_FLUSH_COLS);
    commands.push(0);
    assert(commands@ =~= staged + flush_frame());
    commands
}

/// Shows a live percentage gauge (0 to 100) with the device's own renderer.
pub fn percentage(percent: u8) -> (r: Vec<u8>)
    ensures
        r@ == frame_spec(CMD_PATTERN, seq![0u8, percent]),
{
    let r = vec![MAGIC1, MAGIC2, CMD_PATTERN, 0x00, percent];
    assert(r@ =~= frame_spec(CMD_PATTERN, seq![0u8, percent]));
    r
}

/// The gauge frame used for system metrics; the same bytes as [`percentage`].
pub fn pattern_percentage(value: u8) -> (r: Vec<u8>)
    ensures
        r@ == frame_spec(CMD_PATTERN, seq![0u8, value]),
{
    percentage(value)
}

/// The frame that selects built-in pattern `id`.
pub open spec fn pattern_frame(id: u8) -> Seq<u8> {
    frame_spec(CMD_PATTERN, seq![id])
}

fn pattern_command(id: u8) -> (r: Vec<u8>)
    ensures
        r@ == pattern_frame(id),
{
    let r = vec![MAGIC1, MAGIC2, CMD_PATTERN, id];
    assert(r@ =~= pattern_frame(id));
    r
}

/// Selects the gradient pattern (1).
pub fn pattern_gradient() -> (r: Vec<u8>)
    ensures
        r@ == pattern_frame(1),
{
    pattern_command(0x01)
}

/// Selects the double gradient pattern (2).
pub fn pattern_double_gradient() -> (r: Vec<u8>)
    ensures
        r@ == pattern_frame(2),
{
    pattern_command(0x02)
}

/// Selects the horizontal LOTUS lettering (3).
pub fn pattern_lotus_horizontal() -> (r: Vec<u8>)
    ensures
        r@ == pattern_frame(3),
{
    pattern_command(0x03)
}

/// Selects the zigzag pattern (4).
pub fn pattern_zigzag() -> (r: Vec<u8>)
    ensures
        r@ == pattern_frame(4),
{
    pattern_command(0x04)
}

/// Lights every cell at full brightness (5).
pub fn pattern_full_brightness() -> (r: Vec<u8>)
    ensures
        r@ == pattern_frame(5),
{
    pattern_command(0x05)
}

/// Selects the panic pattern (6).
pub fn pattern_panic() -> (r: Vec<u8>)
    ensures
        r@ == pattern_frame(6),
{
    pattern_command(0x06)
}

/// Selects the vertical LOTUS lettering (7).
pub fn pattern_lotus_vertical() -> (r: Vec<u8>)
    ensures
        r@ == pattern_frame(7),
{
    pattern_command(0x07)
}

/// The flag byte of an on/off command.
pub open spec fn flag_byte(on: bool) -> u8 {
    if on {
        1
    } else {
        0
    }
}

/// Turns the device's own animation on or off.
pub fn set_animate(enabled: bool) -> (r: Vec<u8>)
    ensures
        r@ == frame_spec(CMD_ANIMATE, seq![flag_byte(enabled)]),
{
    let r = vec![MAGIC1, MAGIC2, CMD_ANIMATE, if enabled { 1 } else { 0 }];
    assert(r@ =~= frame_spec(CMD_ANIMATE, seq![flag_byte(enabled)]));
    r
}

/// Puts the device to sleep or wakes it.
pub fn set_sleep(on: bool) -> (r: Vec<u8>)
    ensures
        r@ == frame_spec(CMD_SLEEP, seq![flag_byte(on)]),
{
    let r = vec![MAGIC1, MAGIC2, CMD_SLEEP, if on { 1 } else { 0 }];
    assert(r@ =~= frame_spec(CMD_SLEEP, seq![flag_byte(on)]));
    r
}

/// Sets the colour of the device's RGB output.
pub fn set_color(r: u8, g: u8, b: u8) -> (out: Vec<u8>)
    ensures
        out@ == frame_spec(CMD_SET_COLOR, seq![r, g, b]),
{
    let out = vec![MAGIC1, MAGIC2, CMD_SET_COLOR, r, g, b];
    assert(out@ =~= frame_spec(CMD_SET_COLOR, seq![r, g, b]));
    out
}

/// Marks the idle animation step `index` on the device.
pub fn idle_marker(index: u8) -> (r: Vec<u8>)
    ensures
        r@ == frame_spec(CMD_IDLE, seq![index]),
{
    let r = vec![MAGIC1, MAGIC2, CMD_IDLE, index];
    assert(r@ =~= frame_spec(CMD_IDLE, seq![index]));
    r
}

/// The device's built-in patterns. The firmware knows them by number only,
/// so the numbers never change.
#[derive(Clone, Copy, Debug, PartialEq, Eq, Structural)]
pub enum StaticPattern {
    Gradient,
    DoubleGradient,
    LotusHorizontal,
    Zigzag,
    FullBrightness,
    Panic,
    LotusVertical,
}

impl StaticPattern {
    pub open spec fn spec_id(self) -> u8 {
        match self {
            StaticPattern::Gradient => 1,
            StaticPattern::DoubleGradient => 2,
            StaticPattern::LotusHorizontal => 3,
            StaticPattern::Zigzag => 4,
            StaticPattern::FullBrightness => 5,
            StaticPattern::Panic => 6,
            StaticPattern::LotusVertical => 7,
        }
    }

    /// The pattern's number on the wire, from 1 to 7.
    #[verifier::when_used_as_spec(spec_id)]
    pub fn id(self) -> (r: u8)
        ensures
            r == self.spec_id(),
            1 <= r <= 7,
    {
        match self {
            StaticPattern::Gradient => 1,
            StaticPattern::DoubleGradient => 2,
            StaticPattern::LotusHorizontal => 3,
            StaticPattern::Zigzag => 4,
            StaticPattern::FullBrightness => 5,
            StaticPattern::Panic => 6,
            StaticPattern::LotusVertical => 7,
        }
    }
}

/// What a display is asked to show, before it is put on the wire.
#[derive(Clone, Debug)]
pub enum DisplayIntent {
    Brightness(u8),
    Percentage(u8),
    Pattern(StaticPattern),
    Animate(bool),
    Color(u8, u8, u8),
    Sleep(bool),
    Bitmap(Vec<u8>),
    Idle(u8),
    NoOp,
}

/// The mathematical value of a [`DisplayIntent`]: a bitmap is its cells.
pub enum IntentView {
    Brightness(u8),
    Percentage(u8),
    Pattern(StaticPattern),
    Animate(bool),
    Color(u8, u8, u8),
    Sleep(bool),
    Bitmap(Seq<u8>),
    Idle(u8),
    NoOp,
}

impl View for DisplayIntent {
    type V = IntentView;

    open spec fn view(&self) -> IntentView {
        match self {
            DisplayIntent::Brightness(l) => IntentView::Brightness(*l),
            DisplayIntent::Percentage(p) => IntentView::Percentage(*p),
            DisplayIntent::Pattern(p) => IntentView::Pattern(*p),
            DisplayIntent::Animate(on) => IntentView::Animate(*on),
            DisplayIntent::Color(r, g, b) => IntentView::Color(*r, *g, *b),
            DisplayIntent::Sleep(on) => IntentView::Sleep(*on),
            DisplayIntent::Bitmap(img) => IntentView::Bitmap(img@),
            DisplayIntent::Idle(k) => IntentView::Idle(*k),
            DisplayIntent::NoOp => IntentView::NoOp,
        }
    }
}

/// A percentage held to the range 0 to 100.
pub open spec fn clamp_percent(p: u8) -> u8 {
    if p > 100 {
        100
    } else {
        p
    }
}

/// The bytes that carry out an intent. A percentage above 100 is sent as 100.
pub open spec fn encode_spec(i: IntentView) -> Seq<u8> {
    match i {
        IntentView::Brightness(l) => frame_spec(CMD_BRIGHTNESS, seq![l]),
        IntentView::Percentage(p) => frame_spec(CMD_PATTERN, seq![0u8, clamp_percent(p)]),
        IntentView::Pattern(p) => pattern_frame(p.spec_id()),
        IntentView::Animate(on) => frame_spec(CMD_ANIMATE, seq![flag_byte(on)]),
        IntentView::Color(r, g, b) => frame_spec(CMD_SET_COLOR, seq![r, g, b]),
        IntentView::Sleep(on) => frame_spec(CMD_SLEEP, seq![flag_byte(on)]),
        IntentView::Bitmap(img) => bitmap_command(img),
        IntentView::Idle(k) => frame_spec(CMD_IDLE, seq![k]),
        IntentView::NoOp => seq![],
    }
}

/// Sends built-in pattern `p`.
pub fn static_pattern(p: StaticPattern) -> (r: Vec<u8>)
    ensures
        r@ == pattern_frame(p.spec_id()),
{
    match p {
        StaticPattern::Gradient => pattern_gradient(),
        StaticPattern::DoubleGradient => pattern_double_gradient(),
        StaticPattern::LotusHorizontal => pattern_lotus_horizontal(),
        StaticPattern::Zigzag => pattern_zigzag(),
        StaticPattern::FullBrightness => pattern_full_brightness(),
        StaticPattern::Panic => pattern_panic(),
        StaticPattern::LotusVertical => pattern_lotus_vertical(),
    }
}

/// Encodes an intent into the bytes to write to the device; empty for
/// [`DisplayIntent::NoOp`] and for a bitmap of the wrong size.
pub fn encode(intent: &DisplayIntent) -> (r: Vec<u8>)
    ensures
        r@ == encode_spec(intent@),
{
    match intent {
        DisplayIntent::Brightness(l) => brightness(*l),
        DisplayIntent::Percentage(p) => percentage(if *p > 100 { 100 } else { *p }),
        DisplayIntent::Pattern(p) => static_pattern(*p),
        DisplayIntent::Animate(on) => set_animate(*on),
        DisplayIntent::Color(r, g, b) => set_color(*r, *g, *b),
        DisplayIntent::Sleep(on) => set_sleep(*on),
        DisplayIntent::Bitmap(img) => image_data_to_command(img.as_slice()),
        DisplayIntent::Idle(k) => idle_marker(*k),
        DisplayIntent::NoOp => Vec::new(),
    }
}

proof fn lemma_staged_columns(img: Seq<u8>, n: nat)
    ensures
        staged_columns(img, n).len() == 38 * n,
        forall|x: int|
            0 <= x < n ==> #[trigger] staged_columns(img, n).subrange(38 * x, 38 * x + 38)
                == column_frame(img, x),
    decreases n,
{
    if n > 0 {
        let m = (n - 1) as nat;
        lemma_staged_columns(img, m);
        let prev = staged_columns(img, m);
        let whole = staged_columns(img, n);
        assert(column_frame(img, m as int).len() == 38);
        assert forall|x: int| 0 <= x < n implies #[trigger] whole.subrange(38 * x, 38 * x + 38)
            == column_frame(img, x) by {
            if x < m {
                assert(whole.subrange(38 * x, 38 * x + 38) =~= prev.subrange(38 * x, 38 * x + 38));
            } else {
                assert(whole.subrange(38 * x, 38 * x + 38) =~= column_frame(img, x));
            }
        }
    }
}

/// Every column frame is 38 bytes long: the marker bytes, the opcode, the
/// column's index, and its 34 cells.
pub proof fn lemma_column_frame_shape(img: Seq<u8>, x: int)
    requires
        0 <= x < 9,
    ensures
        column_frame(img, x).len() == 38,
        column_frame(img, x)[0] == MAGIC1,
        column_frame(img, x)[1] == MAGIC2,
        column_frame(img, x)[2] == CMD_STAGE_GREY_COL,
        column_frame(img, x)[3] == x,
        forall|y: int|
            0 <= y < 34 ==> #[trigger] column_frame(img, x)[4 + y] == img[cell_index(x, y)],
{
}

/// A bitmap of 306 cells is sent as nine column frames of 38 bytes, columns 0
/// to 8 in order, then one flush frame of 4 bytes: 346 bytes in all.
pub proof fn lemma_bitmap_command_layout(img: Seq<u8>)
    requires
        img.len() == BITMAP_LEN,
    ensures
        bitmap_command(img).len() == 346,
        forall|x: int|
            0 <= x < 9 ==> bitmap_command(img).subrange(38 * x, 38 * x + 38)
                == #[trigger] column_frame(img, x),
        bitmap_command(img).subrange(342, 346) == flush_frame(),
        flush_frame() == seq![MAGIC1, MAGIC2, CMD_FLUSH_COLS, 0u8],
{
    lemma_staged_columns(img, 9);
    let staged = staged_columns(img, 9);
    let whole = bitmap_command(img);
    assert forall|x: int| 0 <= x < 9 implies #[trigger] whole.subrange(38 * x, 38 * x + 38)
        == column_frame(img, x) by {
        assert(whole.subrange(38 * x, 38 * x + 38) =~= staged.subrange(38 * x, 38 * x + 38));
    }
    assert(whole.subrange(342, 346) =~= flush_frame());
    assert(flush_frame() =~= seq![MAGIC1, MAGIC2, CMD_FLUSH_COLS, 0u8]);
}

/// A bitmap of any size other than 306 cells is sent as no bytes at all.
pub proof fn lemma_wrong_size_bitmap_sends_nothing(img: Seq<u8>)
    requires
        img.len() != BITMAP_LEN,
    ensures
        encode_spec(IntentView::Bitmap(img)) == Seq::<u8>::empty(),
{
}

/// Encoding depends on the intent alone: equal intents give equal bytes.
pub proof fn lemma_encode_deterministic(a: IntentView, b: IntentView)
    requires
        a == b,
    ensures
        encode_spec(a) == encode_spec(b),
{
}

proof fn lemma_frame_head(cmd: u8, params: Seq<u8>)
    ensures
        frame_spec(cmd, params).len() == params.len() + 3,
        frame_spec(cmd, params)[0] == MAGIC1,
        frame_spec(cmd, params)[1] == MAGIC2,
        frame_spec(cmd, params)[2] == cmd,
{
}

/// Every frame that an intent produces starts with the two marker bytes;
/// only a no-op and a bitmap of the wrong size produce no bytes.
pub proof fn lemma_encoded_frames_are_marked(i: IntentView)
    ensures
        encode_spec(i).len() == 0 <==> (i is NoOp || (i matches IntentView::Bitmap(img)
            && img.len() != BITMAP_LEN)),
        encode_spec(i).len() > 0 ==> encode_spec(i)[0] == MAGIC1 && encode_spec(i)[1] == MAGIC2,
{
    match i {
        IntentView::Brightness(l) => lemma_frame_head(CMD_BRIGHTNESS, seq![l]),
        IntentView::Percentage(p) => lemma_frame_head(CMD_PATTERN, seq![0u8, clamp_percent(p)]),
        IntentView::Pattern(p) => lemma_frame_head(CMD_PATTERN, seq![p.spec_id()]),
        IntentView::Animate(on) => lemma_frame_head(CMD_ANIMATE, seq![flag_byte(on)]),
        IntentView::Color(r, g, b) => lemma_frame_head(CMD_SET_COLOR, seq![r, g, b]),
        IntentView::Sleep(on) => lemma_frame_head(CMD_SLEEP, seq![flag_byte(on)]),
        IntentView::Idle(k) => lemma_frame_head(CMD_IDLE, seq![k]),
        _ => {},
    }
    if let IntentView::Bitmap(img) = i {
        if img.len() == BITMAP_LEN {
            lemma_bitmap_command_layout(img);
            lemma_column_frame_shape(img, 0);
            assert(bitmap_command(img).subrange(0, 38) == column_frame(img, 0));
            assert(bitmap_command(img)[0] == bitmap_command(img).subrange(0, 38)[0]);
            assert(bitmap_command(img)[1] == bitmap_command(img).subrange(0, 38)[1]);
        }
    }
}

} // verus!
