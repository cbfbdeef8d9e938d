//! The 64 x 32 monochrome display.
use vstd::prelude::*;
use crate::decode::{bit_of, lemma_bit_of_shift};

verus! {

/// Width of the display in pixels.
pub const SCREEN_WIDTH: usize = 64;

/// Height of the display in pixels.
pub const SCREEN_HEIGHT: usize = 32;

/// Number of pixels of the display.
pub const SCREEN_PIXELS: usize = 2048;

/// The display: one flag per pixel, row by row (`y * 64 + x`).
pub struct Screen {
    pixels: Vec<bool>,
}

impl View for Screen {
    type V = Seq<bool>;

    closed spec fn view(&self) -> Seq<bool> {
        self.pixels@
    }
}

/// Where pixel `(x, y)` stands in the row-by-row sequence of pixels.
pub open spec fn pixel_index(x: int, y: int) -> int {
    y * 64 + x
}

/// A display with every pixel off.
pub open spec fn blank() -> Seq<bool> {
    Seq::new(SCREEN_PIXELS as nat, |p: int| false)
}

/// One sprite row `value` drawn at `(x, y)`: the pixel in column `x + 8 - i`
/// of row `y` shows bit `i` of `value`; all other pixels are unchanged.
pub open spec fn line_drawn(s: Seq<bool>, value: u8, x: int, y: int) -> Seq<bool> {
    Seq::new(
        s.len(),
        |p: int|
            if pixel_index(x + 1, y) <= p <= pixel_index(x + 8, y) {
                bit_of(value, pixel_index(x + 8, y) - p)
            } else {
                s[p]
            },
    )
}

/// Drawing the row `value` at `(x, y)` changes each of its eight pixels.
pub open spec fn line_all_changed(s: Seq<bool>, value: u8, x: int, y: int) -> bool {
    forall|i: int| 0 <= i < 8 ==> s[pixel_index(x + 8 - i, y)] != bit_of(value, i)
}

/// The rows of `sprite` drawn one under the other, the first at `(x, y)`.
pub open spec fn drawn(s: Seq<bool>, sprite: Seq<u8>, x: int, y: int) -> Seq<bool>
    decreases sprite.len(),
{
    if sprite.len() == 0 {
        s
    } else {
        line_drawn(drawn(s, sprite.drop_last(), x, y), sprite.last(), x, y + sprite.len() - 1)
    }
}

/// Drawing `sprite` at `(x, y)` changes every pixel that it covers.
pub open spec fn all_changed(s: Seq<bool>, sprite: Seq<u8>, x: int, y: int) -> bool
    decreases sprite.len(),
{
    if sprite.len() == 0 {
        true
    } else {
        &&& all_changed(s, sprite.drop_last(), x, y)
        &&& line_all_changed(
            drawn(s, sprite.drop_last(), x, y),
            sprite.last(),
            x,
            y + sprite.len() - 1,
        )
    }
}

/// The characters of the first `n` pixels of row `y`: a full block for a
/// pixel that is on, a space for one that is off.
pub open spec fn row_text(s: Seq<bool>, y: int, n: int) -> Seq<char>
    decreases n,
{
    if n <= 0 {
        Seq::empty()
    } else {
        row_text(s, y, n - 1) + seq![if s[pixel_index(n - 1, y)] { '█' } else { ' ' }]
    }
}

/// The text of the first `n` rows of the display, each row ending in a line break.
pub open spec fn frame_text(s: Seq<bool>, n: int) -> Seq<char>
    decreases n,
{
    if n <= 0 {
        Seq::empty()
    } else {
        frame_text(s, n - 1) + row_text(s, n - 1, SCREEN_WIDTH as int) + seq!['\n']
    }
}

/// Bit `i` of `value`, as the drawing code tests it.
fn test_bit(value: u8, i: u8) -> (r: bool)
    requires
        i < 8,
    ensures
        r == bit_of(value, i as int),
{
    let r = (value & (1u8 << i)) != 0;
    assert(r == ((value >> i) & 1u8 == 1u8)) by (bit_vector)
        requires
            r == ((value & (1u8 << i)) != 0u8),
            i < 8,
    ;
    proof {
        lemma_bit_of_shift(value, i);
    }
    r
}

impl Screen {
    /// The display holds exactly `SCREEN_PIXELS` pixels.
    pub open spec fn wf(&self) -> bool {
        self@.len() == SCREEN_PIXELS
    }

    /// A display with every pixel off.
    pub fn new() -> (s: Screen)
        ensures
            s.wf(),
            s@ == blank(),
    {
        let mut pixels: Vec<bool> = Vec::new();
        let mut i: usize = 0;
        while i < SCREEN_PIXELS
            invariant
                i <= SCREEN_PIXELS,
                pixels@.len() == i,
                forall|j: int| 0 <= j < i ==> !#[trigger] pixels@[j],
            decreases SCREEN_PIXELS - i,
        {
            pixels.push(false);
            i = i + 1;
        }
        let s = Screen { pixels };
        assert(s@ =~= blank());
        s
    }

    /// Turns every pixel off.
    pub fn clear(&mut self)
        requires
            old(self).wf(),
        ensures
            final(self).wf(),
            final(self)@ == blank(),
    {
        let mut i: usize = 0;
        while i < self.pixels.len()
            invariant
                self@.len() == SCREEN_PIXELS,
                i <= SCREEN_PIXELS,
                forall|j: int| 0 <= j < i ==> !#[trigger] self@[j],
            decreases SCREEN_PIXELS - i,
        {
            self.pixels.set(i, false);
            i = i + 1;
        }
        assert(self@ =~= blank());
    }

    /// The pixel at `(x, y)`.
    pub fn pixel(&self, x: usize, y: usize) -> (r: bool)
        requires
            self.wf(),
            x < SCREEN_WIDTH,
            y < SCREEN_HEIGHT,
        ensures
            r == self@[pixel_index(x as int, y as int)],
    {
        self.pixels[y * SCREEN_WIDTH + x]
    }

    /// Sets the pixel at `(x, y)` to `value`; the result says whether the
    /// pixel changed.
    pub fn set(&mut self, value: bool, x: usize, y: usize) -> (updated: bool)
        requires
            old(self).wf(),
            x < SCREEN_WIDTH,
            y < SCREEN_HEIGHT,
        ensures
            final(self).wf(),
            final(self)@ == old(self)@.update(pixel_index(x as int, y as int), value),
            updated == (old(self)@[pixel_index(x as int, y as int)] != value),
    {
        let p = y * SCREEN_WIDTH + x;
        let updated = self.pixels[p] != value;
        self.pixels.set(p, value);
        updated
    }

    /// Draws one sprite row `value` at `(x, y)` (bit `i` in column `x + 8 - i`);
    /// the result says whether every one of its eight pixels changed.
    pub fn draw_line(&mut self, value: u8, x: usize, start_y: usize) -> (all_set: bool)
        requires
            old(self).wf(),
            x + 8 < SCREEN_WIDTH,
            start_y < SCREEN_HEIGHT,
        ensures
            final(self).wf(),
            final(self)@ == line_drawn(old(self)@, value, x as int, start_y as int),
            all_set == line_all_changed(old(self)@, value, x as int, start_y as int),
    {
        let ghost old_s = self@;
        let ghost base = pixel_index(x as int, start_y as int);
        let mut all_set = true;
        let mut i: u8 = 0;
        while i < 8
            invariant
                self@.len() == SCREEN_PIXELS,
                old_s.len() == SCREEN_PIXELS,
                x + 8 < SCREEN_WIDTH,
                start_y < SCREEN_HEIGHT,
                base == pixel_index(x as int, start_y as int),
                i <= 8,
                forall|p: int|
                    0 <= p < SCREEN_PIXELS ==> #[trigger] self@[p] == if base + 8 - i < p <= base
                        + 8 {
                        bit_of(value, base + 8 - p)
                    } else {
                        old_s[p]
                    },
                all_set == (forall|j: int|
                    0 <= j < i ==> old_s[base + 8 - j] != #[trigger] bit_of(value, j)),
            decreases 8 - i,
        {
            let is_set = test_bit(value, i);
            let was_updated = self.set(is_set, x + (8 - i as usize), start_y);
            all_set = all_set && was_updated;
            i = i + 1;
            assert(all_set == (forall|j: int|
                0 <= j < i ==> old_s[base + 8 - j] != #[trigger] bit_of(value, j))) by {
                if !all_set {
                    if !was_updated {
                        assert(old_s[base + 8 - (i - 1)] == bit_of(value, i - 1));
                    }
                }
            }
        }
        assert(self@ =~= line_drawn(old_s, value, x as int, start_y as int));
        all_set
    }

    /// Draws the rows of `vals` one under the other, the first at `(x, start_y)`;
    /// the result says whether every pixel drawn changed.
    pub fn draw(&mut self, vals: Vec<u8>, x: usize, start_y: usize) -> (all_set: bool)
        requires
            old(self).wf(),
            vals@.len() > 0 ==> x + 8 < SCREEN_WIDTH && start_y + vals@.len() <= SCREEN_HEIGHT,
        ensures
            final(self).wf(),
            final(self)@ == drawn(old(self)@, vals@, x as int, start_y as int),
            all_set == all_changed(old(self)@, vals@, x as int, start_y as int),
    {
        let ghost old_s = self@;
        let mut all_set = true;
        let mut i: usize = 0;
        while i < vals.len()
            invariant
                self@.len() == SCREEN_PIXELS,
                vals@.len() > 0 ==> x + 8 < SCREEN_WIDTH && start_y + vals@.len() <= SCREEN_HEIGHT,
                i <= vals@.len(),
                self@ == drawn(old_s, vals@.take(i as int), x as int, start_y as int),
                all_set == all_changed(old_s, vals@.take(i as int), x as int, start_y as int),
            decreases vals@.len() - i,
        {
            let val = vals[i];
            let set = self.draw_line(val, x, start_y + i);
            all_set = all_set && set;
            assert(vals@.take(i + 1).drop_last() =~= vals@.take(i as int));
            i = i + 1;
        }
        assert(vals@.take(vals@.len() as int) =~= vals@);
        all_set
    }

    /// The text of the whole display, as it is shown on a terminal: a full
    /// block for each pixel that is on, a space for each that is off, and a
    /// line break after each row.
    pub fn render(&self) -> (out: String)
        requires
            self.wf(),
        ensures
            out@ == frame_text(self@, SCREEN_HEIGHT as int),
    {
        let mut out = String::new();
        let mut yi: usize = 0;
        while yi < SCREEN_HEIGHT
            invariant
                self.wf(),
                yi <= SCREEN_HEIGHT,
                out@ == frame_text(self@, yi as int),
            decreases SCREEN_HEIGHT - yi,
        {
            let mut xi: usize = 0;
            while xi < SCREEN_WIDTH
                invariant
                    self.wf(),
                    yi < SCREEN_HEIGHT,
                    xi <= SCREEN_WIDTH,
                    out@ == frame_text(self@, yi as int) + row_text(self@, yi as int, xi as int),
                decreases SCREEN_WIDTH - xi,
            {
                if self.pixels[yi * SCREEN_WIDTH + xi] {
                    out.append("█");
                    proof {
                        reveal_strlit("█");
                    }
                } else {
                    out.append(" ");
                    proof {
                        reveal_strlit(" ");
                    }
                }
                xi = xi + 1;
            }
            out.append("\n");
            proof {
                reveal_strlit("\n");
            }
            yi = yi + 1;
        }
        out
    }
}

/// The character that shows a pixel: a full block when it is on, a space when off.
pub open spec fn pixel_char(on: bool) -> char {
    if on { '█' } else { ' ' }
}

proof fn lemma_row_text(s: Seq<bool>, y: int, n: int)
    requires
        n >= 0,
    ensures
        row_text(s, y, n).len() == n,
        forall|x: int| 0 <= x < n ==> #[trigger] row_text(s, y, n)[x] == pixel_char(s[pixel_index(x, y)]),
    decreases n,
{
    if n > 0 {
        lemma_row_text(s, y, n - 1);
        assert forall|x: int| 0 <= x < n implies #[trigger] row_text(s, y, n)[x] == pixel_char(s[pixel_index(x, y)]) by {
            if x < n - 1 {
                assert(row_text(s, y, n)[x] == row_text(s, y, n - 1)[x]);
            }
        }
    }
}

/// The text of a frame has 65 characters per row: the 64 pixels of the row
/// from left to right (a full block for a pixel that is on, a space for one
/// that is off), then a line break.
pub proof fn law_frame_text(s: Seq<bool>, n: int)
    requires
        0 <= n,
    ensures
        frame_text(s, n).len() == n * 65,
        forall|y: int, x: int| 0 <= y < n && 0 <= x < 64 ==> #[trigger] frame_text(s, n)[y * 65 + x] == pixel_char(#[trigger] s[pixel_index(x, y)]),
        forall|y: int| 0 <= y < n ==> #[trigger] frame_text(s, n)[y * 65 + 64] == '\n',
    decreases n,
{
    if n > 0 {
        law_frame_text(s, n - 1);
        lemma_row_text(s, n - 1, 64);
        let prev = frame_text(s, n - 1);
        let row = row_text(s, n - 1, 64);
        assert(frame_text(s, n) == prev + row + seq!['\n']);
        assert forall|y: int, x: int| 0 <= y < n && 0 <= x < 64 implies #[trigger] frame_text(s, n)[y * 65 + x] == pixel_char(#[trigger] s[pixel_index(x, y)]) by {
            if y < n - 1 {
                assert(y * 65 + x < (n - 1) * 65);
                assert(frame_text(s, n)[y * 65 + x] == prev[y * 65 + x]);
            } else {
                assert(frame_text(s, n)[y * 65 + x] == row[x]);
            }
        }
        assert forall|y: int| 0 <= y < n implies #[trigger] frame_text(s, n)[y * 65 + 64] == '\n' by {
            if y < n - 1 {
                assert(y * 65 + 64 < (n - 1) * 65);
                assert(frame_text(s, n)[y * 65 + 64] == prev[y * 65 + 64]);
            }
        }
    }
}

} // verus!
