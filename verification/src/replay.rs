use crate::display::{blank_grid, cell_index, DisplayInstruction, DisplayView};
use crate::machine::{after, fresh, Machine};
use crate::operation::Operation;
use crate::settings::Settings;
use crate::sprite::{
    draw_events, drawn, drawn_within, lemma_next_pixel, lemma_within_all, sprite_at,
};
use vstd::prelude::*;

verus! {

/// A frame after one change from the feed.
pub open spec fn changed(grid: Seq<bool>, change: DisplayInstruction) -> Seq<bool> {
    match change {
        DisplayInstruction::SetPixel { value, index } => grid.update(index as int, value),
        DisplayInstruction::Clear => blank_grid(),
    }
}

/// A frame after a run of changes from the feed, oldest first.
pub open spec fn replay(grid: Seq<bool>, changes: Seq<DisplayInstruction>) -> Seq<bool>
    decreases changes.len(),
{
    if changes.len() == 0 {
        grid
    } else {
        changed(replay(grid, changes.drop_last()), changes.last())
    }
}

/// Whether someone who started from a blank frame and followed the feed
/// has the frame that the display holds.
pub open spec fn faithful(display: DisplayView) -> bool {
    display.grid == replay(blank_grid(), display.emitted)
}

/// Following two runs of changes one after the other is following them
/// joined.
pub proof fn lemma_replay_joined(
    grid: Seq<bool>,
    first: Seq<DisplayInstruction>,
    second: Seq<DisplayInstruction>,
)
    ensures
        replay(grid, first + second) == replay(replay(grid, first), second),
    decreases second.len(),
{
    if second.len() == 0 {
        assert(first + second =~= first);
    } else {
        lemma_replay_joined(grid, first, second.drop_last());
        assert((first + second).drop_last() =~= first + second.drop_last());
        assert((first + second).last() == second.last());
    }
}

/// Following the changes that drawing the first `count` pixels of a sprite
/// sends gives the frame that this drawing leaves.
pub proof fn lemma_replay_draw(grid: Seq<bool>, sprite: Seq<u8>, x0: int, y0: int, count: int)
    requires
        grid.len() == 2048,
        0 <= x0 < 64,
        0 <= y0 < 32,
        0 <= count <= 8 * sprite.len(),
    ensures
        replay(grid, draw_events(grid, sprite, x0, y0, count)) == drawn_within(
            grid,
            sprite,
            x0,
            y0,
            count,
        ),
    decreases count,
{
    if count == 0 {
        assert(drawn_within(grid, sprite, x0, y0, 0) =~= grid);
    } else {
        lemma_replay_draw(grid, sprite, x0, y0, count - 1);
        lemma_next_pixel(grid, sprite, x0, y0, count - 1);
        let before = draw_events(grid, sprite, x0, y0, count - 1);
        let now = draw_events(grid, sprite, x0, y0, count);
        if now != before {
            let row = (count - 1) / 8;
            let column = (count - 1) % 8;
            let index = cell_index(x0 + column, y0 + row);
            let change = DisplayInstruction::SetPixel {
                value: !grid[index],
                index: index as usize,
            };
            assert(now == before.push(change));
            assert(now.drop_last() =~= before);
            assert(now.last() == change);
        }
    }
}

/// A machine that has just been built has told the feed nothing, and its
/// frame is blank.
pub proof fn lemma_fresh_is_faithful(settings: Settings, program: Seq<u8>)
    ensures
        faithful(fresh(settings, program).display),
{
}

/// Whatever the machine does, the feed keeps up with the frame: if
/// following the feed gave the frame before an operation, it gives the frame
/// after it.
pub proof fn lemma_feed_keeps_up(machine: Machine, operation: Operation, random: u8)
    requires
        machine.well_formed(),
        operation.well_formed(),
        faithful(machine.display),
    ensures
        faithful(after(machine, operation, random).display),
{
    let next = after(machine, operation, random);
    match operation {
        Operation::ClearDisplay => {
            assert(next.display.emitted.drop_last() =~= machine.display.emitted);
        },
        Operation::Draw { x, y, height } => {
            let x0 = (machine.registers[x as int] % 64) as int;
            let y0 = (machine.registers[y as int] % 32) as int;
            let sprite = sprite_at(machine.memory, machine.index_register, height);
            let grid = machine.display.grid;
            let sent = draw_events(grid, sprite, x0, y0, 8 * height);
            lemma_replay_joined(blank_grid(), machine.display.emitted, sent);
            lemma_replay_draw(grid, sprite, x0, y0, 8 * height);
            lemma_within_all(grid, sprite, x0, y0);
            assert(next.display.grid == drawn(grid, sprite, x0, y0));
        },
        _ => {
            assert(next.display == machine.display);
        },
    }
}

} // verus!
