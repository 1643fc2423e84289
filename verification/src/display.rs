use vstd::prelude::*;

verus! {

/// Width of the screen in pixels.
pub const DISPLAY_WIDTH: usize = 64;

/// Height of the screen in pixels.
pub const DISPLAY_HEIGHT: usize = 32;

/// Number of pixels on the screen.
pub const DISPLAY_SIZE: usize = DISPLAY_WIDTH * DISPLAY_HEIGHT;

/// The abstract state of a display: the pixels in row-major order and whether
/// anything may have changed since the frontend last drew it.
#[verifier::ext_equal]
pub struct DisplayState {
    pub pixels: Seq<bool>,
    pub dirty: bool,
}

/// The row-major index of the pixel at (`x`, `y`); coordinates wrap around
/// the edges of the screen.
pub open spec fn pixel_index(x: int, y: int) -> int {
    (y % (DISPLAY_HEIGHT as int)) * (DISPLAY_WIDTH as int) + x % (DISPLAY_WIDTH as int)
}

/// Whether column `bit` (0 is the leftmost) of a sprite row `byte` is lit.
pub open spec fn sprite_bit(byte: u8, bit: int) -> bool {
    byte & (0x80u8 >> (bit as u8)) != 0
}

/// One step of drawing: XOR the pixel for column `bit` of the sprite row
/// `byte` drawn at (`x`, `y`) into `st.0`, and record in `st.1` whether a lit
/// pixel was erased.
pub open spec fn draw_bit(st: (Seq<bool>, bool), x: int, y: int, byte: u8, bit: int) -> (
    Seq<bool>,
    bool,
) {
    if sprite_bit(byte, bit) {
        let idx = pixel_index(x + bit, y);
        (st.0.update(idx, !st.0[idx]), st.1 || st.0[idx])
    } else {
        st
    }
}

/// Drawing the first `bits` columns of the sprite row `byte` at (`x`, `y`),
/// left to right.
pub open spec fn draw_row(st: (Seq<bool>, bool), x: int, y: int, byte: u8, bits: nat) -> (
    Seq<bool>,
    bool,
)
    decreases bits,
{
    if bits == 0 {
        st
    } else {
        draw_bit(draw_row(st, x, y, byte, (bits - 1) as nat), x, y, byte, bits - 1)
    }
}

/// Drawing the first `rows` rows of `sprite` with its top-left corner at
/// (`x`, `y`), top to bottom.
pub open spec fn draw_rows(st: (Seq<bool>, bool), x: int, y: int, sprite: Seq<u8>, rows: nat) -> (
    Seq<bool>,
    bool,
)
    decreases rows,
{
    if rows == 0 {
        st
    } else {
        draw_row(
            draw_rows(st, x, y, sprite, (rows - 1) as nat),
            x,
            y + rows - 1,
            sprite[rows - 1],
            8,
        )
    }
}

/// The pixels after XOR-drawing `sprite` at (`x`, `y`) onto `pixels`, and
/// whether any lit pixel was switched off by it.
pub open spec fn draw_spec(pixels: Seq<bool>, x: int, y: int, sprite: Seq<u8>) -> (Seq<bool>, bool) {
    draw_rows((pixels, false), x, y, sprite, sprite.len())
}

/// A screen with every pixel off.
pub open spec fn blank_pixels() -> Seq<bool> {
    Seq::new(DISPLAY_SIZE as nat, |i: int| false)
}

/// A call that can change a display: `clear`, `reset`, `set_pixel`,
/// `draw_sprite` (with its sprite's bytes) and `clear_dirty`.
pub enum DisplayOp {
    Clear,
    Reset,
    SetPixel(usize, usize, bool),
    Draw(usize, usize, Seq<u8>),
    ClearDirty,
}

/// The display state after the call `op`.
pub open spec fn apply_display_op(s: DisplayState, op: DisplayOp) -> DisplayState {
    match op {
        DisplayOp::Clear | DisplayOp::Reset => DisplayState { pixels: blank_pixels(), dirty: true },
        DisplayOp::SetPixel(x, y, on) => DisplayState {
            pixels: s.pixels.update(pixel_index(x as int, y as int), on),
            dirty: true,
        },
        DisplayOp::Draw(x, y, sprite) => DisplayState {
            pixels: draw_spec(s.pixels, x as int, y as int, sprite).0,
            dirty: true,
        },
        DisplayOp::ClearDirty => DisplayState { pixels: s.pixels, dirty: false },
    }
}

/// The display state after the calls `ops`, in order.
pub open spec fn apply_display_ops(s: DisplayState, ops: Seq<DisplayOp>) -> DisplayState
    decreases ops.len(),
{
    if ops.len() == 0 {
        s
    } else {
        apply_display_op(apply_display_ops(s, ops.drop_last()), ops.last())
    }
}

/// The dirty flag never hides a change: after any sequence of calls without
/// `clear_dirty`, the display is dirty unless the sequence was empty, and a
/// display that is not dirty still shows what it showed when the flag was
/// last cleared.
pub proof fn lemma_dirty_never_hides_change(s: DisplayState, ops: Seq<DisplayOp>)
    requires
        forall|k: int| 0 <= k < ops.len() ==> !(#[trigger] ops[k] is ClearDirty),
    ensures
        !apply_display_ops(s, ops).dirty ==> apply_display_ops(s, ops) == s,
        ops.len() > 0 ==> apply_display_ops(s, ops).dirty,
    decreases ops.len(),
{
    if ops.len() > 0 {
        assert(!(ops[ops.len() - 1] is ClearDirty));
        lemma_dirty_never_hides_change(s, ops.drop_last());
    }
}

/// The 64x32 monochrome screen.
pub struct Display {
    pixels: [bool; DISPLAY_SIZE],
    has_changed: bool,
}

impl View for Display {
    type V = DisplayState;

    closed spec fn view(&self) -> DisplayState {
        DisplayState { pixels: self.pixels@, dirty: self.has_changed }
    }
}

/// Number of lit columns among the first `bits` of `byte` drawn at (`x`, `y`)
/// that land on pixel `p`.
spec fn row_hits(x: int, y: int, byte: u8, bits: nat, p: int) -> nat
    decreases bits,
{
    if bits == 0 {
        0
    } else {
        row_hits(x, y, byte, (bits - 1) as nat, p) + if sprite_bit(byte, bits - 1) && pixel_index(
            x + bits - 1,
            y,
        ) == p {
            1nat
        } else {
            0nat
        }
    }
}

/// Number of lit sprite pixels among the first `rows` rows that land on
/// pixel `p`.
spec fn rows_hits(x: int, y: int, sprite: Seq<u8>, rows: nat, p: int) -> nat
    decreases rows,
{
    if rows == 0 {
        0
    } else {
        rows_hits(x, y, sprite, (rows - 1) as nat, p) + row_hits(
            x,
            y + rows - 1,
            sprite[rows - 1],
            8,
            p,
        )
    }
}

/// On the screen, pixels are numbered row by row, 64 to a row.
pub proof fn lemma_pixel_index_row_major(x: int, y: int)
    requires
        0 <= x < DISPLAY_WIDTH,
        0 <= y < DISPLAY_HEIGHT,
    ensures
        pixel_index(x, y) == 64 * y + x,
{
}

/// Column `bit` of a sprite row is bit `7 - bit` of its byte: the most
/// significant bit is the leftmost pixel.
pub proof fn lemma_sprite_bit_msb_first(byte: u8, bit: int)
    requires
        0 <= bit < 8,
    ensures
        sprite_bit(byte, bit) == ((byte >> ((7 - bit) as u8)) & 1 == 1),
{
    let b = bit as u8;
    let sh = (7 - bit) as u8;
    assert((byte & (0x80u8 >> b) != 0) == ((byte >> sh) & 1 == 1)) by (bit_vector)
        requires
            b < 8,
            sh + b == 7,
    ;
}

/// Pixel indices of non-negative coordinates are on the screen.
proof fn lemma_pixel_index_bounds(x: int, y: int)
    requires
        x >= 0,
        y >= 0,
    ensures
        0 <= pixel_index(x, y) < DISPLAY_SIZE,
{
}

/// Drawing part of a row flips pixel `p` once for every lit column that
/// lands on it.
proof fn lemma_draw_row_parity(st: (Seq<bool>, bool), x: int, y: int, byte: u8, bits: nat, p: int)
    requires
        st.0.len() == DISPLAY_SIZE,
        x >= 0,
        y >= 0,
        0 <= p < DISPLAY_SIZE,
    ensures
        draw_row(st, x, y, byte, bits).0.len() == DISPLAY_SIZE,
        draw_row(st, x, y, byte, bits).0[p] == (st.0[p] != (row_hits(x, y, byte, bits, p) % 2
            == 1)),
    decreases bits,
{
    if bits > 0 {
        lemma_draw_row_parity(st, x, y, byte, (bits - 1) as nat, p);
        lemma_pixel_index_bounds(x + bits - 1, y);
    }
}

/// Drawing part of a sprite flips pixel `p` once for every lit sprite pixel
/// that lands on it.
proof fn lemma_draw_rows_parity(
    st: (Seq<bool>, bool),
    x: int,
    y: int,
    sprite: Seq<u8>,
    rows: nat,
    p: int,
)
    requires
        st.0.len() == DISPLAY_SIZE,
        x >= 0,
        y >= 0,
        0 <= p < DISPLAY_SIZE,
        rows <= sprite.len(),
    ensures
        draw_rows(st, x, y, sprite, rows).0.len() == DISPLAY_SIZE,
        draw_rows(st, x, y, sprite, rows).0[p] == (st.0[p] != (rows_hits(x, y, sprite, rows, p)
            % 2 == 1)),
    decreases rows,
{
    if rows > 0 {
        let prev = draw_rows(st, x, y, sprite, (rows - 1) as nat);
        lemma_draw_rows_parity(st, x, y, sprite, (rows - 1) as nat, p);
        lemma_draw_row_parity(prev, x, y + rows - 1, sprite[rows - 1], 8, p);
    }
}

/// Row `r`, column `b` of `sprite` is a lit sprite pixel.
pub open spec fn sprite_pixel_on(sprite: Seq<u8>, r: int, b: int) -> bool {
    0 <= r < sprite.len() && 0 <= b < 8 && sprite_bit(sprite[r], b)
}

/// Some lit pixel of `sprite`, drawn at (`x`, `y`), lands on screen pixel `p`.
pub open spec fn sprite_covers(x: int, y: int, sprite: Seq<u8>, p: int) -> bool {
    exists|r: int, b: int| #[trigger] sprite_pixel_on(sprite, r, b) && pixel_index(x + b, y + r) == p
}

/// Whether some lit column among the first `bits` of `byte` drawn at
/// (`x`, `y`) lands on a pixel that is lit in `pixels`.
spec fn row_any_lit(pixels: Seq<bool>, x: int, y: int, byte: u8, bits: nat) -> bool
    decreases bits,
{
    if bits == 0 {
        false
    } else {
        row_any_lit(pixels, x, y, byte, (bits - 1) as nat) || (sprite_bit(byte, bits - 1)
            && pixels[pixel_index(x + bits - 1, y)])
    }
}

/// Whether some lit pixel among the first `rows` rows of `sprite` lands on a
/// pixel that is lit in `pixels`.
spec fn rows_any_lit(pixels: Seq<bool>, x: int, y: int, sprite: Seq<u8>, rows: nat) -> bool
    decreases rows,
{
    if rows == 0 {
        false
    } else {
        rows_any_lit(pixels, x, y, sprite, (rows - 1) as nat) || row_any_lit(
            pixels,
            x,
            y + rows - 1,
            sprite[rows - 1],
            8,
        )
    }
}

/// Two coordinates with the same pixel index agree modulo the screen size.
proof fn lemma_pixel_index_injective(a: int, c: int, a2: int, c2: int)
    requires
        pixel_index(a, c) == pixel_index(a2, c2),
    ensures
        a % 64 == a2 % 64,
        c % 32 == c2 % 32,
{
}

/// Shifting by less than a full turn, but by something, changes a residue.
proof fn lemma_shift_changes_residue(a: int, d: int, m: int)
    requires
        a >= 0,
        0 < d < m,
    ensures
        (a + d) % m != a % m,
{
    vstd::arithmetic::div_mod::lemma_fundamental_div_mod(a, m);
    vstd::arithmetic::div_mod::lemma_fundamental_div_mod(a + d, m);
    let q1 = a / m;
    let q2 = (a + d) / m;
    if (a + d) % m == a % m {
        assert(m * q2 - m * q1 == d);
        assert(m * (q2 - q1) == d) by (nonlinear_arith)
            requires
                m * q2 - m * q1 == d,
        ;
        if q2 - q1 <= 0 {
            assert(m * (q2 - q1) <= 0) by (nonlinear_arith)
                requires
                    m > 0,
                    q2 - q1 <= 0,
            ;
        } else {
            assert(m * (q2 - q1) >= m) by (nonlinear_arith)
                requires
                    m > 0,
                    q2 - q1 >= 1,
            ;
        }
    }
}

/// Within one row no two columns land on the same pixel: a pixel is hit at
/// most once, and exactly when some lit column lands on it.
proof fn lemma_row_hits_at_most_one(x: int, y: int, byte: u8, bits: nat, p: int)
    requires
        x >= 0,
        bits <= 8,
    ensures
        row_hits(x, y, byte, bits, p) <= 1,
        row_hits(x, y, byte, bits, p) == 1 <==> exists|b: int|
            0 <= b < bits && #[trigger] sprite_bit(byte, b) && pixel_index(x + b, y) == p,
    decreases bits,
{
    if bits > 0 {
        let last = bits - 1;
        lemma_row_hits_at_most_one(x, y, byte, (bits - 1) as nat, p);
        if sprite_bit(byte, last) && pixel_index(x + last, y) == p && row_hits(
            x,
            y,
            byte,
            (bits - 1) as nat,
            p,
        ) == 1 {
            let b2 = choose|b: int|
                0 <= b < bits - 1 && #[trigger] sprite_bit(byte, b) && pixel_index(x + b, y) == p;
            lemma_pixel_index_injective(x + b2, y, x + last, y);
            lemma_shift_changes_residue(x + b2, last - b2, 64);
        }
    }
}

/// Rows of a sprite of at most 32 rows land on different screen rows: each
/// pixel is hit at most once, and exactly when it is covered.
proof fn lemma_rows_hits_at_most_one(x: int, y: int, sprite: Seq<u8>, rows: nat, p: int)
    requires
        x >= 0,
        y >= 0,
        rows <= sprite.len(),
        rows <= 32,
    ensures
        rows_hits(x, y, sprite, rows, p) <= 1,
        rows_hits(x, y, sprite, rows, p) == 1 <==> exists|r: int, b: int|
            r < rows && #[trigger] sprite_pixel_on(sprite, r, b) && pixel_index(x + b, y + r) == p,
    decreases rows,
{
    if rows > 0 {
        let last = rows - 1;
        lemma_rows_hits_at_most_one(x, y, sprite, (rows - 1) as nat, p);
        lemma_row_hits_at_most_one(x, y + last, sprite[last], 8, p);
        if rows_hits(x, y, sprite, (rows - 1) as nat, p) == 1 && row_hits(
            x,
            y + last,
            sprite[last],
            8,
            p,
        ) == 1 {
            let (r2, b2) = choose|r: int, b: int|
                r < rows - 1 && #[trigger] sprite_pixel_on(sprite, r, b) && pixel_index(x + b, y + r)
                    == p;
            let b = choose|b: int|
                0 <= b < 8 && #[trigger] sprite_bit(sprite[last], b) && pixel_index(x + b, y + last)
                    == p;
            lemma_pixel_index_injective(x + b2, y + r2, x + b, y + last);
            lemma_shift_changes_residue(y + r2, last - r2, 32);
        }
        if rows_hits(x, y, sprite, rows, p) == 1 {
            if rows_hits(x, y, sprite, (rows - 1) as nat, p) != 1 {
                let b = choose|b: int|
                    0 <= b < 8 && #[trigger] sprite_bit(sprite[last], b) && pixel_index(
                        x + b,
                        y + last,
                    ) == p;
                assert(sprite_pixel_on(sprite, last, b));
            }
        }
        if exists|r: int, b: int|
            r < rows && #[trigger] sprite_pixel_on(sprite, r, b) && pixel_index(x + b, y + r) == p {
            let (r, b) = choose|r: int, b: int|
                r < rows && #[trigger] sprite_pixel_on(sprite, r, b) && pixel_index(x + b, y + r)
                    == p;
            if r == last {
                assert(sprite_bit(sprite[last], b));
            }
        }
    }
}

/// While a row is drawn, the collision flag turns on exactly when a lit
/// column lands on a pixel lit in `pixels`, provided the row's target pixels
/// still hold their values from `pixels`.
proof fn lemma_draw_row_collision(
    pixels: Seq<bool>,
    st: (Seq<bool>, bool),
    x: int,
    y: int,
    byte: u8,
    bits: nat,
)
    requires
        st.0.len() == DISPLAY_SIZE,
        x >= 0,
        y >= 0,
        bits <= 8,
        forall|b: int|
            0 <= b < 8 && #[trigger] sprite_bit(byte, b) ==> st.0[pixel_index(x + b, y)]
                == pixels[pixel_index(x + b, y)],
    ensures
        draw_row(st, x, y, byte, bits).1 == (st.1 || row_any_lit(pixels, x, y, byte, bits)),
    decreases bits,
{
    if bits > 0 {
        let last = bits - 1;
        lemma_draw_row_collision(pixels, st, x, y, byte, (bits - 1) as nat);
        if sprite_bit(byte, last) {
            let idx = pixel_index(x + last, y);
            lemma_pixel_index_bounds(x + last, y);
            lemma_draw_row_parity(st, x, y, byte, (bits - 1) as nat, idx);
            lemma_row_hits_at_most_one(x, y, byte, bits, idx);
        }
    }
}

/// While a sprite of at most 32 rows is drawn, the collision flag turns on
/// exactly when a lit sprite pixel lands on a pixel lit before the draw.
proof fn lemma_draw_rows_collision(pixels: Seq<bool>, x: int, y: int, sprite: Seq<u8>, rows: nat)
    requires
        pixels.len() == DISPLAY_SIZE,
        x >= 0,
        y >= 0,
        rows <= sprite.len(),
        rows <= 32,
    ensures
        draw_rows((pixels, false), x, y, sprite, rows).1 == rows_any_lit(
            pixels,
            x,
            y,
            sprite,
            rows,
        ),
    decreases rows,
{
    if rows > 0 {
        let last = rows - 1;
        let st = draw_rows((pixels, false), x, y, sprite, (rows - 1) as nat);
        lemma_draw_rows_collision(pixels, x, y, sprite, (rows - 1) as nat);
        lemma_draw_rows_parity((pixels, false), x, y, sprite, (rows - 1) as nat, 0);
        assert forall|b: int|
            0 <= b < 8 && #[trigger] sprite_bit(sprite[last], b) implies st.0[pixel_index(
            x + b,
            y + last,
        )] == pixels[pixel_index(x + b, y + last)] by {
            let idx = pixel_index(x + b, y + last);
            lemma_pixel_index_bounds(x + b, y + last);
            lemma_draw_rows_parity((pixels, false), x, y, sprite, (rows - 1) as nat, idx);
            lemma_rows_hits_at_most_one(x, y, sprite, rows, idx);
            lemma_row_hits_at_most_one(x, y + last, sprite[last], 8, idx);
        }
        lemma_draw_row_collision(pixels, st, x, y + last, sprite[last], 8);
    }
}

/// `rows_any_lit` holds exactly when some lit sprite pixel among the first
/// `rows` rows lands on a pixel lit in `pixels`.
proof fn lemma_rows_any_lit_exists(pixels: Seq<bool>, x: int, y: int, sprite: Seq<u8>, rows: nat)
    requires
        rows <= sprite.len(),
    ensures
        rows_any_lit(pixels, x, y, sprite, rows) <==> exists|r: int, b: int|
            r < rows && #[trigger] sprite_pixel_on(sprite, r, b) && pixels[pixel_index(
                x + b,
                y + r,
            )],
    decreases rows,
{
    if rows > 0 {
        let last = rows - 1;
        lemma_rows_any_lit_exists(pixels, x, y, sprite, (rows - 1) as nat);
        lemma_row_any_lit_exists(pixels, x, y + last, sprite[last], 8);
        if row_any_lit(pixels, x, y + last, sprite[last], 8) {
            let b = choose|b: int|
                0 <= b < 8 && #[trigger] sprite_bit(sprite[last], b) && pixels[pixel_index(
                    x + b,
                    y + last,
                )];
            assert(sprite_pixel_on(sprite, last, b));
        }
        if exists|r: int, b: int|
            r < rows && #[trigger] sprite_pixel_on(sprite, r, b) && pixels[pixel_index(
                x + b,
                y + r,
            )] {
            let (r, b) = choose|r: int, b: int|
                r < rows && #[trigger] sprite_pixel_on(sprite, r, b) && pixels[pixel_index(
                    x + b,
                    y + r,
                )];
            if r == last {
                assert(sprite_bit(sprite[last], b));
            }
        }
    }
}

/// `row_any_lit` holds exactly when some lit column among the first `bits`
/// lands on a pixel lit in `pixels`.
proof fn lemma_row_any_lit_exists(pixels: Seq<bool>, x: int, y: int, byte: u8, bits: nat)
    ensures
        row_any_lit(pixels, x, y, byte, bits) <==> exists|b: int|
            0 <= b < bits && #[trigger] sprite_bit(byte, b) && pixels[pixel_index(x + b, y)],
    decreases bits,
{
    if bits > 0 {
        lemma_row_any_lit_exists(pixels, x, y, byte, (bits - 1) as nat);
    }
}

/// Drawing a sprite of at most 32 rows, stated directly: every screen pixel
/// that a lit sprite pixel lands on flips once and every other pixel stays,
/// and the draw reports a collision exactly when some lit sprite pixel lands
/// on a pixel that was lit.
pub proof fn lemma_draw_direct(pixels: Seq<bool>, x: int, y: int, sprite: Seq<u8>)
    requires
        pixels.len() == DISPLAY_SIZE,
        x >= 0,
        y >= 0,
        sprite.len() <= 32,
    ensures
        draw_spec(pixels, x, y, sprite).0.len() == DISPLAY_SIZE,
        forall|p: int|
            0 <= p < DISPLAY_SIZE ==> #[trigger] draw_spec(pixels, x, y, sprite).0[p] == (pixels[p]
                != sprite_covers(x, y, sprite, p)),
        draw_spec(pixels, x, y, sprite).1 == exists|r: int, b: int|
            #[trigger] sprite_pixel_on(sprite, r, b) && pixels[pixel_index(x + b, y + r)],
{
    lemma_draw_keeps_size(pixels, x, y, sprite);
    assert forall|p: int| 0 <= p < DISPLAY_SIZE implies #[trigger] draw_spec(
        pixels,
        x,
        y,
        sprite,
    ).0[p] == (pixels[p] != sprite_covers(x, y, sprite, p)) by {
        lemma_draw_rows_parity((pixels, false), x, y, sprite, sprite.len(), p);
        lemma_rows_hits_at_most_one(x, y, sprite, sprite.len(), p);
        if sprite_covers(x, y, sprite, p) {
            let (r, b) = choose|r: int, b: int|
                #[trigger] sprite_pixel_on(sprite, r, b) && pixel_index(x + b, y + r) == p;
            assert(r < sprite.len());
        }
    }
    lemma_draw_rows_collision(pixels, x, y, sprite, sprite.len());
    lemma_rows_any_lit_exists(pixels, x, y, sprite, sprite.len());
    assert((exists|r: int, b: int|
        #[trigger] sprite_pixel_on(sprite, r, b) && pixels[pixel_index(x + b, y + r)]) == (exists|
        r: int,
        b: int,
    | r < sprite.len() && #[trigger] sprite_pixel_on(sprite, r, b) && pixels[pixel_index(
        x + b,
        y + r,
    )]));
}

/// Drawing the same sprite (of at most 32 rows) a second time at the same
/// place reports a collision exactly where the first draw lit a pixel that
/// was off, that is, when some lit sprite pixel landed on an unlit pixel.
pub proof fn lemma_second_draw_collision(pixels: Seq<bool>, x: int, y: int, sprite: Seq<u8>)
    requires
        pixels.len() == DISPLAY_SIZE,
        x >= 0,
        y >= 0,
        sprite.len() <= 32,
    ensures
        draw_spec(draw_spec(pixels, x, y, sprite).0, x, y, sprite).1 == exists|r: int, b: int|
            #[trigger] sprite_pixel_on(sprite, r, b) && !pixels[pixel_index(x + b, y + r)],
{
    let once = draw_spec(pixels, x, y, sprite).0;
    lemma_draw_direct(pixels, x, y, sprite);
    lemma_draw_direct(once, x, y, sprite);
    assert forall|r: int, b: int| #[trigger] sprite_pixel_on(sprite, r, b) implies once[pixel_index(
        x + b,
        y + r,
    )] == !pixels[pixel_index(x + b, y + r)] by {
        let p = pixel_index(x + b, y + r);
        lemma_pixel_index_bounds(x + b, y + r);
        assert(sprite_covers(x, y, sprite, p));
    }
}

/// A sprite row has a lit pixel exactly when its byte is not zero.
proof fn lemma_row_lit_iff_nonzero(byte: u8)
    ensures
        byte != 0 <==> exists|b: int| 0 <= b < 8 && #[trigger] sprite_bit(byte, b),
{
    assert(byte != 0 ==> (byte & (0x80u8 >> 0u8) != 0 || byte & (0x80u8 >> 1u8) != 0 || byte & (
    0x80u8 >> 2u8) != 0 || byte & (0x80u8 >> 3u8) != 0 || byte & (0x80u8 >> 4u8) != 0 || byte & (
    0x80u8 >> 5u8) != 0 || byte & (0x80u8 >> 6u8) != 0 || byte & (0x80u8 >> 7u8) != 0))
        by (bit_vector);
    if byte != 0 {
        if sprite_bit(byte, 0) {
        } else if sprite_bit(byte, 1) {
        } else if sprite_bit(byte, 2) {
        } else if sprite_bit(byte, 3) {
        } else if sprite_bit(byte, 4) {
        } else if sprite_bit(byte, 5) {
        } else if sprite_bit(byte, 6) {
        } else {
            assert(sprite_bit(byte, 7));
        }
    } else {
        assert forall|b: int| 0 <= b < 8 implies !#[trigger] sprite_bit(byte, b) by {
            let s = (b as u8);
            assert(byte == 0 ==> byte & (0x80u8 >> s) == 0) by (bit_vector);
        }
    }
}

/// On a blank screen a sprite (of at most 32 rows) never collides, and
/// drawing it a second time in the same place collides exactly when the
/// sprite has a nonzero row.
pub proof fn lemma_draw_twice_on_blank(x: int, y: int, sprite: Seq<u8>)
    requires
        x >= 0,
        y >= 0,
        sprite.len() <= 32,
    ensures
        !draw_spec(blank_pixels(), x, y, sprite).1,
        draw_spec(draw_spec(blank_pixels(), x, y, sprite).0, x, y, sprite).1 == exists|r: int|
            0 <= r < sprite.len() && #[trigger] sprite[r] != 0,
{
    lemma_draw_direct(blank_pixels(), x, y, sprite);
    lemma_second_draw_collision(blank_pixels(), x, y, sprite);
    assert forall|r: int, b: int| #[trigger] sprite_pixel_on(sprite, r, b) implies !blank_pixels()[
    pixel_index(x + b, y + r)] by {
        lemma_pixel_index_bounds(x + b, y + r);
    }
    if exists|r: int| 0 <= r < sprite.len() && #[trigger] sprite[r] != 0 {
        let r = choose|r: int| 0 <= r < sprite.len() && #[trigger] sprite[r] != 0;
        lemma_row_lit_iff_nonzero(sprite[r]);
        let b = choose|b: int| 0 <= b < 8 && #[trigger] sprite_bit(sprite[r], b);
        assert(sprite_pixel_on(sprite, r, b));
        lemma_pixel_index_bounds(x + b, y + r);
    }
    if exists|r: int, b: int|
        #[trigger] sprite_pixel_on(sprite, r, b) && !blank_pixels()[pixel_index(x + b, y + r)] {
        let (r, b) = choose|r: int, b: int|
            #[trigger] sprite_pixel_on(sprite, r, b) && !blank_pixels()[pixel_index(x + b, y + r)];
        lemma_row_lit_iff_nonzero(sprite[r]);
        assert(sprite[r] != 0);
    }
}

/// Drawing keeps the screen's size.
pub proof fn lemma_draw_keeps_size(pixels: Seq<bool>, x: int, y: int, sprite: Seq<u8>)
    requires
        pixels.len() == DISPLAY_SIZE,
        x >= 0,
        y >= 0,
    ensures
        draw_spec(pixels, x, y, sprite).0.len() == DISPLAY_SIZE,
{
    lemma_draw_rows_parity((pixels, false), x, y, sprite, sprite.len(), 0);
}

/// Drawing is XOR: drawing the same sprite twice at the same place leaves
/// the screen as it was, which is how programs erase a sprite.
pub proof fn lemma_draw_twice_restores(pixels: Seq<bool>, x: int, y: int, sprite: Seq<u8>)
    requires
        pixels.len() == DISPLAY_SIZE,
        x >= 0,
        y >= 0,
    ensures
        draw_spec(draw_spec(pixels, x, y, sprite).0, x, y, sprite).0 == pixels,
{
    let once = draw_spec(pixels, x, y, sprite).0;
    let twice = draw_spec(once, x, y, sprite).0;
    lemma_draw_keeps_size(pixels, x, y, sprite);
    lemma_draw_keeps_size(once, x, y, sprite);
    assert forall|p: int| 0 <= p < DISPLAY_SIZE implies twice[p] == pixels[p] by {
        lemma_draw_rows_parity((pixels, false), x, y, sprite, sprite.len(), p);
        lemma_draw_rows_parity((once, false), x, y, sprite, sprite.len(), p);
    }
    assert(twice =~= pixels);
}

/// Coordinates wrap: a pixel one screen-width to the right, or one
/// screen-height down, is the same pixel.
pub proof fn lemma_coordinates_wrap(x: int, y: int)
    ensures
        pixel_index(x + DISPLAY_WIDTH, y) == pixel_index(x, y),
        pixel_index(x, y + DISPLAY_HEIGHT) == pixel_index(x, y),
{
    assert((x + 64) % 64 == x % 64) by {
        vstd::arithmetic::div_mod::lemma_mod_add_multiples_vanish(x, 64);
    }
    assert((y + 32) % 32 == y % 32) by {
        vstd::arithmetic::div_mod::lemma_mod_add_multiples_vanish(y, 32);
    }
}

impl Display {
    /// Every display holds exactly `DISPLAY_SIZE` pixels.
    pub proof fn lemma_len(&self)
        ensures
            self@.pixels.len() == DISPLAY_SIZE,
    {
    }

    /// A blank screen, marked as needing a draw.
    pub fn new() -> (display: Self)
        ensures
            display@ == (DisplayState { pixels: blank_pixels(), dirty: true }),
    {
        let d = Display { pixels: [false; DISPLAY_SIZE], has_changed: true };
        assert(d.pixels@ =~= blank_pixels());
        d
    }

    /// Restores the display to the state that `new` gives.
    pub fn reset(&mut self)
        ensures
            final(self)@ == (DisplayState { pixels: blank_pixels(), dirty: true }),
            final(self)@ == apply_display_op(old(self)@, DisplayOp::Reset),
    {
        *self = Self::new();
    }

    /// Switches every pixel off and marks the screen as needing a draw.
    pub fn clear(&mut self)
        ensures
            final(self)@ == (DisplayState { pixels: blank_pixels(), dirty: true }),
            final(self)@ == apply_display_op(old(self)@, DisplayOp::Clear),
    {
        self.pixels = [false; DISPLAY_SIZE];
        self.has_changed = true;
        assert(self.pixels@ =~= blank_pixels());
    }

    /// The index of the pixel at (`x`, `y`), wrapping around the edges.
    fn index(&self, x: usize, y: usize) -> (idx: usize)
        ensures
            idx == pixel_index(x as int, y as int),
            idx < DISPLAY_SIZE,
    {
        let x = x % DISPLAY_WIDTH;
        let y = y % DISPLAY_HEIGHT;
        y * DISPLAY_WIDTH + x
    }

    /// Whether the pixel at (`x`, `y`) (wrapped onto the screen) is lit.
    pub fn get_pixel(&self, x: usize, y: usize) -> (on: bool)
        ensures
            on == self@.pixels[pixel_index(x as int, y as int)],
    {
        self.pixels[self.index(x, y)]
    }

    /// Sets the pixel at (`x`, `y`) (wrapped onto the screen) and marks the
    /// screen as needing a draw.
    pub fn set_pixel(&mut self, x: usize, y: usize, on: bool)
        ensures
            final(self)@ == (DisplayState {
                pixels: old(self)@.pixels.update(pixel_index(x as int, y as int), on),
                dirty: true,
            }),
            final(self)@ == apply_display_op(old(self)@, DisplayOp::SetPixel(x, y, on)),
    {
        let idx = self.index(x, y);
        self.pixels[idx] = on;
        self.has_changed = true;
    }

    /// XOR-draws `sprite` (one byte per row, leftmost pixel in the most
    /// significant bit) with its top-left corner at (`x`, `y`), wrapping
    /// around the edges, and marks the screen as needing a draw. Returns
    /// whether a lit pixel was switched off.
    pub fn draw_sprite(&mut self, x: usize, y: usize, sprite: &[u8]) -> (collision: bool)
        requires
            x + 7 <= usize::MAX,
            y + sprite@.len() <= usize::MAX + 1,
        ensures
            final(self)@.pixels == draw_spec(old(self)@.pixels, x as int, y as int, sprite@).0,
            collision == draw_spec(old(self)@.pixels, x as int, y as int, sprite@).1,
            final(self)@.dirty,
            final(self)@ == apply_display_op(old(self)@, DisplayOp::Draw(x, y, sprite@)),
    {
        let ghost start = self.pixels@;
        let mut collision = false;
        let mut row: usize = 0;
        while row < sprite.len()
            invariant
                x + 7 <= usize::MAX,
                y + sprite@.len() <= usize::MAX + 1,
                row <= sprite@.len(),
                self.pixels@ == draw_rows((start, false), x as int, y as int, sprite@, row as nat).0,
                collision == draw_rows((start, false), x as int, y as int, sprite@, row as nat).1,
            decreases sprite@.len() - row,
        {
            let byte = sprite[row];
            let ghost before = draw_rows((start, false), x as int, y as int, sprite@, row as nat);
            let mut bit: usize = 0;
            while bit < 8
                invariant
                    x + 7 <= usize::MAX,
                    y + sprite@.len() <= usize::MAX + 1,
                    row < sprite@.len(),
                    byte == sprite@[row as int],
                    bit <= 8,
                    self.pixels@ == draw_row(before, x as int, y + row, byte, bit as nat).0,
                    collision == draw_row(before, x as int, y + row, byte, bit as nat).1,
                decreases 8 - bit,
            {
                let pixel_on = (byte & (0x80 >> bit)) != 0;
                assert((byte & (0x80u8 >> bit)) == (byte & (0x80u8 >> (bit as u8)))) by (bit_vector)
                    requires
                        bit < 8,
                ;
                if pixel_on {
                    let px = x + bit;
                    let py = y + row;
                    let idx = self.index(px, py);
                    if self.pixels[idx] {
                        collision = true;
                    }
                    self.pixels[idx] = !self.pixels[idx];
                }
                bit = bit + 1;
            }
            row = row + 1;
        }
        self.has_changed = true;
        collision
    }

    /// Whether the screen may have changed since the last `clear_dirty`.
    pub fn is_dirty(&self) -> (dirty: bool)
        ensures
            dirty == self@.dirty,
    {
        self.has_changed
    }

    /// Records that the frontend has drawn the current screen.
    pub fn clear_dirty(&mut self)
        ensures
            final(self)@ == (DisplayState { pixels: old(self)@.pixels, dirty: false }),
            final(self)@ == apply_display_op(old(self)@, DisplayOp::ClearDirty),
    {
        self.has_changed = false;
    }

    /// The pixels in row-major order, `DISPLAY_WIDTH` per row.
    pub fn get_buffer(&self) -> (buffer: &[bool])
        ensures
            buffer@ == self@.pixels,
            buffer@.len() == DISPLAY_SIZE,
    {
        self.pixels.as_slice()
    }
}

} // verus!
