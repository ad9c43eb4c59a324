use crate::display::{cell_index, DisplayInstruction};
use crate::memory::cell_of;
use vstd::prelude::*;

verus! {

/// Whether the pixel in `column` of a sprite row is lit. Column 0 is the
/// leftmost pixel and the row's highest bit.
pub open spec fn sprite_bit(row: u8, column: u8) -> bool {
    row & (0x80u8 >> column) != 0
}

/// The `height` sprite rows that start at `address`, top row first.
pub open spec fn sprite_at(memory: Seq<u8>, address: u16, height: u8) -> Seq<u8> {
    Seq::new(height as nat, |row: int| memory[cell_of(address + row)])
}

/// Whether the sprite, placed with its top left corner at column `x0` of
/// row `y0`, has a lit pixel over column `cx` of row `cy`.
pub open spec fn plots(sprite: Seq<u8>, x0: int, y0: int, cx: int, cy: int) -> bool {
    &&& 0 <= cy - y0 < sprite.len()
    &&& 0 <= cx - x0 < 8
    &&& sprite_bit(sprite[cy - y0], (cx - x0) as u8)
}

/// As `plots`, counting only the first `count` pixels of the sprite, taken
/// row by row and left to right within a row.
pub open spec fn plots_within(
    sprite: Seq<u8>,
    x0: int,
    y0: int,
    cx: int,
    cy: int,
    count: int,
) -> bool {
    plots(sprite, x0, y0, cx, cy) && 8 * (cy - y0) + (cx - x0) < count
}

/// Whether the sprite has a lit pixel over the cell with this index.
pub open spec fn covers(sprite: Seq<u8>, x0: int, y0: int, cell: int) -> bool {
    plots(sprite, x0, y0, cell % 64, cell / 64)
}

/// As `covers`, counting only the first `count` pixels of the sprite.
pub open spec fn covers_within(sprite: Seq<u8>, x0: int, y0: int, cell: int, count: int) -> bool {
    plots_within(sprite, x0, y0, cell % 64, cell / 64, count)
}

/// The frame after the first `count` pixels of the sprite have been drawn:
/// each cell under a lit pixel is flipped. Pixels that would lie outside the
/// frame are under no cell, so they are cut off.
pub open spec fn drawn_within(
    grid: Seq<bool>,
    sprite: Seq<u8>,
    x0: int,
    y0: int,
    count: int,
) -> Seq<bool> {
    Seq::new(2048, |i: int| grid[i] != covers_within(sprite, x0, y0, i, count))
}

/// The frame after the whole sprite has been drawn.
pub open spec fn drawn(grid: Seq<bool>, sprite: Seq<u8>, x0: int, y0: int) -> Seq<bool> {
    Seq::new(2048, |i: int| grid[i] != covers(sprite, x0, y0, i))
}

/// Whether one of the first `count` pixels of the sprite is lit over a cell
/// that is set.
pub open spec fn collides_within(
    grid: Seq<bool>,
    sprite: Seq<u8>,
    x0: int,
    y0: int,
    count: int,
) -> bool {
    exists|i: int|
        0 <= i < 2048 && #[trigger] grid[i] && covers_within(sprite, x0, y0, i, count)
}

/// Whether drawing the sprite unsets a cell.
pub open spec fn collides(grid: Seq<bool>, sprite: Seq<u8>, x0: int, y0: int) -> bool {
    exists|i: int| 0 <= i < 2048 && #[trigger] grid[i] && covers(sprite, x0, y0, i)
}

/// Whether drawing the sprite sets a cell.
pub open spec fn lights(grid: Seq<bool>, sprite: Seq<u8>, x0: int, y0: int) -> bool {
    exists|i: int| 0 <= i < 2048 && !#[trigger] grid[i] && covers(sprite, x0, y0, i)
}

/// The changes that drawing the first `count` pixels of the sprite sends to
/// the feed: one for each lit pixel inside the frame, in drawing order.
pub open spec fn draw_events(
    grid: Seq<bool>,
    sprite: Seq<u8>,
    x0: int,
    y0: int,
    count: int,
) -> Seq<DisplayInstruction>
    decreases count,
{
    if count <= 0 {
        Seq::empty()
    } else {
        let before = draw_events(grid, sprite, x0, y0, count - 1);
        let row = (count - 1) / 8;
        let column = (count - 1) % 8;
        let index = cell_index(x0 + column, y0 + row);
        if x0 + column < 64 && y0 + row < 32 && sprite_bit(sprite[row], column as u8) {
            before.push(DisplayInstruction::SetPixel { value: !grid[index], index: index as usize })
        } else {
            before
        }
    }
}

/// Whether pixel number `k` of a sprite placed at column `x0` of row `y0`
/// lies outside the frame.
pub open spec fn clipped(x0: int, y0: int, k: int) -> bool {
    x0 + k % 8 >= 64 || y0 + k / 8 >= 32
}

/// Whether pixel number `k` of the sprite changes nothing: it is unlit, or
/// it lies outside the frame.
pub open spec fn silent(sprite: Seq<u8>, x0: int, y0: int, k: int) -> bool {
    clipped(x0, y0, k) || !sprite_bit(sprite[k / 8], (k % 8) as u8)
}

/// Pixels from number `from` up to `to` that are all unlit or outside the
/// frame change nothing: not the frame, not the collision, not the feed.
pub proof fn lemma_silent_pixels(
    grid: Seq<bool>,
    sprite: Seq<u8>,
    x0: int,
    y0: int,
    from: int,
    to: int,
)
    requires
        0 <= from <= to,
        forall|k: int| from <= k < to ==> silent(sprite, x0, y0, k),
    ensures
        draw_events(grid, sprite, x0, y0, to) == draw_events(grid, sprite, x0, y0, from),
        drawn_within(grid, sprite, x0, y0, to) == drawn_within(
            grid,
            sprite,
            x0,
            y0,
            from,
        ),
        collides_within(grid, sprite, x0, y0, to) == collides_within(
            grid,
            sprite,
            x0,
            y0,
            from,
        ),
    decreases to,
{
    assert forall|i: int| 0 <= i < 2048 implies covers_within(sprite, x0, y0, i, to)
        == covers_within(sprite, x0, y0, i, from) by {
        let k = 8 * (i / 64 - y0) + (i % 64 - x0);
        if covers(sprite, x0, y0, i) && from <= k < to {
            assert(silent(sprite, x0, y0, k));
            assert(k / 8 == i / 64 - y0 && k % 8 == i % 64 - x0);
        }
    }
    assert(drawn_within(grid, sprite, x0, y0, to) =~= drawn_within(
        grid,
        sprite,
        x0,
        y0,
        from,
    ));
    if collides_within(grid, sprite, x0, y0, to) {
        let i = choose|i: int|
            0 <= i < 2048 && #[trigger] grid[i] && covers_within(sprite, x0, y0, i, to);
        assert(grid[i] && covers_within(sprite, x0, y0, i, from));
    }
    if collides_within(grid, sprite, x0, y0, from) {
        let i = choose|i: int|
            0 <= i < 2048 && #[trigger] grid[i] && covers_within(sprite, x0, y0, i, from);
        assert(grid[i] && covers_within(sprite, x0, y0, i, to));
    }
    if from < to {
        assert forall|k: int| from <= k < to - 1 implies silent(sprite, x0, y0, k) by {}
        lemma_silent_pixels(grid, sprite, x0, y0, from, to - 1);
        assert(silent(sprite, x0, y0, to - 1));
    }
}

/// What counting one more pixel changes. A lit pixel inside the frame flips
/// its cell, which until then held what it held at the start, and collides
/// if that cell was set. Any other pixel changes nothing.
pub proof fn lemma_next_pixel(grid: Seq<bool>, sprite: Seq<u8>, x0: int, y0: int, count: int)
    requires
        grid.len() == 2048,
        0 <= x0 < 64,
        0 <= y0 < 32,
        0 <= count < 8 * sprite.len(),
    ensures
        ({
            let row = count / 8;
            let column = count % 8;
            let index = cell_index(x0 + column, y0 + row);
            let before = drawn_within(grid, sprite, x0, y0, count);
            let hit = collides_within(grid, sprite, x0, y0, count);
            if x0 + column < 64 && y0 + row < 32 && sprite_bit(sprite[row], column as u8) {
                &&& before[index] == grid[index]
                &&& drawn_within(grid, sprite, x0, y0, count + 1) == before.update(
                    index,
                    !grid[index],
                )
                &&& collides_within(grid, sprite, x0, y0, count + 1) == (hit || grid[index])
            } else {
                &&& drawn_within(grid, sprite, x0, y0, count + 1) == before
                &&& collides_within(grid, sprite, x0, y0, count + 1) == hit
            }
        }),
{
    let row = count / 8;
    let column = count % 8;
    let cx = x0 + column;
    let cy = y0 + row;
    let index = cell_index(cx, cy);
    let lit = cx < 64 && cy < 32 && sprite_bit(sprite[row], column as u8);
    let before = drawn_within(grid, sprite, x0, y0, count);
    let next = drawn_within(grid, sprite, x0, y0, count + 1);
    assert forall|i: int| 0 <= i < 2048 implies covers_within(sprite, x0, y0, i, count + 1) == (
    covers_within(sprite, x0, y0, i, count) || (lit && i == index)) by {
        if covers(sprite, x0, y0, i) {
            let k = 8 * (i / 64 - y0) + (i % 64 - x0);
            assert(k == count <==> (i / 64 - y0 == row && i % 64 - x0 == column));
        }
    }
    if lit {
        assert(index % 64 == cx && index / 64 == cy);
        assert(!plots_within(sprite, x0, y0, cx, cy, count));
        assert(next =~= before.update(index, !grid[index]));
    } else {
        assert(next =~= before);
    }
    let hit = collides_within(grid, sprite, x0, y0, count);
    let hit_next = collides_within(grid, sprite, x0, y0, count + 1);
    if hit_next {
        let i = choose|i: int|
            0 <= i < 2048 && #[trigger] grid[i] && covers_within(sprite, x0, y0, i, count + 1);
        if !(lit && i == index) {
            assert(grid[i] && covers_within(sprite, x0, y0, i, count));
        }
    }
    if hit {
        let i = choose|i: int|
            0 <= i < 2048 && #[trigger] grid[i] && covers_within(sprite, x0, y0, i, count);
        assert(grid[i] && covers_within(sprite, x0, y0, i, count + 1));
    }
    if lit && grid[index] {
        assert(grid[index] && covers_within(sprite, x0, y0, index, count + 1));
    }
}

/// Once every pixel of the sprite is counted, the partial notions are the
/// whole ones.
pub proof fn lemma_within_all(grid: Seq<bool>, sprite: Seq<u8>, x0: int, y0: int)
    ensures
        drawn_within(grid, sprite, x0, y0, 8 * (sprite.len() as int)) == drawn(
            grid,
            sprite,
            x0,
            y0,
        ),
        collides_within(grid, sprite, x0, y0, 8 * (sprite.len() as int)) == collides(
            grid,
            sprite,
            x0,
            y0,
        ),
{
    let count: int = 8 * (sprite.len() as int);
    assert forall|cx: int, cy: int|
        plots_within(sprite, x0, y0, cx, cy, count) == plots(sprite, x0, y0, cx, cy) by {}
    assert(drawn_within(grid, sprite, x0, y0, count) =~= drawn(grid, sprite, x0, y0));
    if collides_within(grid, sprite, x0, y0, count) {
        let i = choose|i: int|
            0 <= i < 2048 && #[trigger] grid[i] && covers_within(sprite, x0, y0, i, count);
        assert(grid[i] && covers(sprite, x0, y0, i));
    }
    if collides(grid, sprite, x0, y0) {
        let i = choose|i: int|
            0 <= i < 2048 && #[trigger] grid[i] && covers(sprite, x0, y0, i);
        assert(grid[i] && covers_within(sprite, x0, y0, i, count));
    }
}

/// Drawing the same sprite at the same place twice gives back the frame as
/// it was, and the second drawing unsets a cell exactly when the first one
/// set a cell.
pub proof fn lemma_draw_twice_restores(grid: Seq<bool>, sprite: Seq<u8>, x0: int, y0: int)
    requires
        grid.len() == 2048,
    ensures
        drawn(drawn(grid, sprite, x0, y0), sprite, x0, y0) == grid,
        collides(drawn(grid, sprite, x0, y0), sprite, x0, y0) == lights(grid, sprite, x0, y0),
{
    let once = drawn(grid, sprite, x0, y0);
    assert(drawn(once, sprite, x0, y0) =~= grid);
    if collides(once, sprite, x0, y0) {
        let i = choose|i: int|
            0 <= i < 2048 && #[trigger] once[i] && covers(sprite, x0, y0, i);
        assert(!grid[i] && covers(sprite, x0, y0, i));
    }
    if lights(grid, sprite, x0, y0) {
        let i = choose|i: int|
            0 <= i < 2048 && !#[trigger] grid[i] && covers(sprite, x0, y0, i);
        assert(once[i] && covers(sprite, x0, y0, i));
    }
}

/// A row is zero exactly when none of its pixels is lit.
pub proof fn lemma_no_bits(row: u8)
    ensures
        row == 0 <==> (forall|column: u8| column < 8 ==> !sprite_bit(row, column)),
{
    if row == 0 {
        assert forall|column: u8| column < 8 implies !sprite_bit(row, column) by {
            assert(!sprite_bit(0u8, column)) by (bit_vector);
        }
    } else {
        assert(exists|column: u8| column < 8 && sprite_bit(row, column)) by {
            assert(row != 0 ==> sprite_bit(row, 0) || sprite_bit(row, 1) || sprite_bit(row, 2)
                || sprite_bit(row, 3) || sprite_bit(row, 4) || sprite_bit(row, 5) || sprite_bit(
                row,
                6,
            ) || sprite_bit(row, 7)) by (bit_vector);
        }
    }
}

/// Walks the lit pixels of one sprite row from the left.
pub struct BitIterator {
    num: u8,
}

impl View for BitIterator {
    type V = u8;

    /// The pixels still to come, as a sprite row.
    closed spec fn view(&self) -> u8 {
        self.num
    }
}

impl BitIterator {
    pub fn new(num: u8) -> (bits: Self)
        ensures
            bits@ == num,
    {
        Self { num }
    }

    /// The column of the leftmost lit pixel still to come, which is then
    /// taken off; `None` once no lit pixel is left.
    pub fn next(&mut self) -> (column: Option<u8>)
        ensures
            match column {
                Some(c) => {
                    &&& c < 8
                    &&& sprite_bit(old(self)@, c)
                    &&& forall|b: u8| b < c ==> !sprite_bit(old(self)@, b)
                    &&& forall|b: u8|
                        b < 8 ==> sprite_bit(final(self)@, b) == (sprite_bit(old(self)@, b) && b
                            != c)
                },
                None => old(self)@ == 0 && final(self)@ == 0,
            },
            old(self)@ == 0 ==> column is None,
    {
        let num = self.num;
        let value = num.leading_zeros();
        proof {
            vstd::std_specs::bits::axiom_u8_leading_zeros(num);
        }
        if value < 8 {
            let c = value as u8;
            let mask = 0x80u8 >> c;
            self.num = num ^ mask;
            proof {
                let high = (7 - c) as u8;
                assert(sprite_bit(num, c)) by (bit_vector)
                    requires
                        c < 8,
                        high == 7 - c,
                        (num >> high) & 1u8 != 0u8,
                ;
                assert forall|b: u8| b < c implies !sprite_bit(num, b) by {
                    let j = (7 - b) as u8;
                    assert((num >> j) & 1u8 == 0u8);
                    assert(!sprite_bit(num, b)) by (bit_vector)
                        requires
                            b < 8,
                            j == 7 - b,
                            (num >> j) & 1u8 == 0u8,
                    ;
                }
                let rest = self.num;
                assert forall|b: u8| b < 8 implies sprite_bit(rest, b) == (sprite_bit(num, b) && b
                    != c) by {
                    assert(sprite_bit(rest, b) == (sprite_bit(num, b) && b != c)) by (bit_vector)
                        requires
                            b < 8,
                            c < 8,
                            rest == num ^ (0x80u8 >> c),
                            sprite_bit(num, c),
                    ;
                }
            }
            Some(c)
        } else {
            None
        }
    }
}

} // verus!
