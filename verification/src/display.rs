use vstd::prelude::*;

use crate::machine::{blank_screen, screen_wf};

verus! {

/// The screen's pixels as rows of booleans.
pub open spec fn screen_view(pixels: [[bool; 64]; 32]) -> Seq<Seq<bool>> {
    Seq::new(32, |y: int| pixels[y]@)
}

/// The position of pixel (`x`, `y`) when the screen is read row by row.
pub open spec fn reading_order(cell: (usize, usize)) -> int {
    cell.1 * 64 + cell.0
}

/// The columns and rows `(x, y)` of the pixels that are on, row by row and left
/// to right within a row.
pub fn lit_cells(pixels: &[[bool; 64]; 32]) -> (cells: Vec<(usize, usize)>)
    ensures
        forall|k: int|
            0 <= k < cells@.len() ==> {
                let (x, y) = #[trigger] cells@[k];
                x < 64 && y < 32 && screen_view(*pixels)[y as int][x as int]
            },
        forall|k1: int, k2: int|
            0 <= k1 < k2 < cells@.len() ==> reading_order(#[trigger] cells@[k1]) < reading_order(
                #[trigger] cells@[k2],
            ),
        forall|y: int, x: int|
            0 <= y < 32 && 0 <= x < 64 && #[trigger] screen_view(*pixels)[y][x] ==> exists|k: int|
                0 <= k < cells@.len() && #[trigger] cells@[k] == (x as usize, y as usize),
{
    let ghost screen = screen_view(*pixels);
    let mut cells: Vec<(usize, usize)> = Vec::new();
    let mut y: usize = 0;
    while y < 32
        invariant
            y <= 32,
            screen == screen_view(*pixels),
            forall|k: int|
                0 <= k < cells@.len() ==> {
                    let (cx, cy) = #[trigger] cells@[k];
                    cx < 64 && cy < y && screen[cy as int][cx as int]
                },
            forall|k1: int, k2: int|
                0 <= k1 < k2 < cells@.len() ==> reading_order(#[trigger] cells@[k1])
                    < reading_order(#[trigger] cells@[k2]),
            forall|py: int, px: int|
                0 <= py < y && 0 <= px < 64 && #[trigger] screen[py][px] ==> exists|k: int|
                    0 <= k < cells@.len() && #[trigger] cells@[k] == (px as usize, py as usize),
        decreases 32 - y,
    {
        let row: [bool; 64] = pixels[y];
        assert(row@ == screen[y as int]);
        let mut x: usize = 0;
        while x < 64
            invariant
                y < 32,
                x <= 64,
                row@ == screen[y as int],
                screen == screen_view(*pixels),
                forall|k: int|
                    0 <= k < cells@.len() ==> {
                        let (cx, cy) = #[trigger] cells@[k];
                        cx < 64 && cy <= y && reading_order(cells@[k]) < y * 64 + x
                            && screen[cy as int][cx as int]
                    },
                forall|k1: int, k2: int|
                    0 <= k1 < k2 < cells@.len() ==> reading_order(#[trigger] cells@[k1])
                        < reading_order(#[trigger] cells@[k2]),
                forall|py: int, px: int|
                    0 <= py < 32 && 0 <= px < 64 && py * 64 + px < y * 64 + x
                        && #[trigger] screen[py][px] ==> exists|k: int|
                        0 <= k < cells@.len() && #[trigger] cells@[k] == (
                            px as usize,
                            py as usize,
                        ),
            decreases 64 - x,
        {
            if row[x] {
                let ghost old_cells = cells@;
                cells.push((x, y));
                proof {
                    assert forall|py: int, px: int|
                        0 <= py < 32 && 0 <= px < 64 && py * 64 + px < y * 64 + x + 1
                            && #[trigger] screen[py][px] implies exists|k: int|
                        0 <= k < cells@.len() && #[trigger] cells@[k] == (
                            px as usize,
                            py as usize,
                        ) by {
                        if py * 64 + px < y * 64 + x {
                            let k = choose|k: int|
                                0 <= k < old_cells.len() && #[trigger] old_cells[k] == (
                                    px as usize,
                                    py as usize,
                                );
                            assert(cells@[k] == old_cells[k]);
                        } else {
                            assert(py == y && px == x);
                            assert(cells@[old_cells.len() as int] == (px as usize, py as usize));
                        }
                    }
                }
            } else {
                proof {
                    assert forall|py: int, px: int|
                        0 <= py < 32 && 0 <= px < 64 && py * 64 + px < y * 64 + x + 1
                            && #[trigger] screen[py][px] implies exists|k: int|
                        0 <= k < cells@.len() && #[trigger] cells@[k] == (
                            px as usize,
                            py as usize,
                        ) by {
                        if py * 64 + px == y * 64 + x {
                            assert(py == y && px == x);
                        }
                    }
                }
            }
            x += 1;
        }
        y += 1;
    }
    cells
}

/// The 64 by 32 monochrome screen.
pub struct Display {
    pixels: [[bool; 64]; 32],
}

impl View for Display {
    type V = Seq<Seq<bool>>;

    closed spec fn view(&self) -> Seq<Seq<bool>> {
        screen_view(self.pixels)
    }
}

/// A display always has 32 rows of 64 pixels.
pub broadcast proof fn lemma_display_wf(display: &Display)
    ensures
        #![trigger display.view()]
        screen_wf(display.view()),
{
}

impl Display {
    /// A screen with every pixel off.
    pub fn new() -> (display: Self)
        ensures
            display@ == blank_screen(),
    {
        let display = Display { pixels: [[false; 64]; 32] };
        assert forall|y: int| 0 <= y < 32 implies #[trigger] display@[y] =~= blank_screen()[y] by {}
        assert(display@ =~= blank_screen());
        display
    }

    /// The pixels, row by row.
    pub fn pixels(&self) -> (pixels: &[[bool; 64]; 32])
        ensures
            screen_view(*pixels) == self@,
    {
        &self.pixels
    }

    /// Sets the pixel in row `index_y`, column `index_x`.
    pub fn push_pixels(&mut self, index_y: usize, index_x: usize, value: bool)
        requires
            index_y < 32,
            index_x < 64,
        ensures
            final(self)@ == old(self)@.update(
                index_y as int,
                old(self)@[index_y as int].update(index_x as int, value),
            ),
    {
        let mut row = self.pixels[index_y];
        row[index_x] = value;
        self.pixels[index_y] = row;
        assert(self@ =~= old(self)@.update(
            index_y as int,
            old(self)@[index_y as int].update(index_x as int, value),
        ));
    }

    /// Switches every pixel off.
    pub fn clear_display(&mut self)
        ensures
            final(self)@ == blank_screen(),
    {
        self.pixels = [[false; 64]; 32];
        assert forall|y: int| 0 <= y < 32 implies #[trigger] self@[y] =~= blank_screen()[y] by {}
        assert(self@ =~= blank_screen());
    }
}

} // verus!
