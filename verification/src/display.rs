use crate::channel::send_instruction;
use crossbeam_channel::Sender;
use vstd::prelude::*;

verus! {

/// One change of the frame, as the display feed carries it.
#[derive(Clone, Copy, Debug, PartialEq, Eq)]
pub enum DisplayInstruction {
    /// The cell `index` (`x + 64 * y`) now holds `value`.
    SetPixel { value: bool, index: usize },
    /// Every cell is now unset.
    Clear,
}

/// What a display holds and has done.
pub struct DisplayView {
    /// The 64x32 cells, row by row.
    pub grid: Seq<bool>,
    /// Every change handed to the feed so far, oldest first.
    pub emitted: Seq<DisplayInstruction>,
}

/// A frame with no cell set.
pub open spec fn blank_grid() -> Seq<bool> {
    Seq::new(2048, |i: int| false)
}

/// Where the cell in column `x` of row `y` lies in the grid.
pub open spec fn cell_index(x: int, y: int) -> int {
    x + y * 64
}

/// The glyph that stands for a set cell in a rendered frame.
pub const SET_GLYPH: char = '\u{25FD}';

/// The glyph that stands for an unset cell in a rendered frame.
pub const UNSET_GLYPH: char = '\u{25FE}';

/// The frame as text: 32 lines, each of 64 glyphs and a line feed.
pub open spec fn rendered(grid: Seq<bool>) -> Seq<char> {
    Seq::new(
        32 * 65,
        |i: int|
            if i % 65 == 64 {
                '\n'
            } else if grid[cell_index(i % 65, i / 65)] {
                SET_GLYPH
            } else {
                UNSET_GLYPH
            },
    )
}

/// Calls `String::push`, which appends one character to the text.
#[verifier::external_body]
fn push_char(text: &mut String, character: char)
    ensures
        final(text)@ == old(text)@.push(character),
{
    text.push(character)
}

/// The frame buffer. Each change made to it is also sent down the feed, so
/// that whoever replays the feed in order has the same frame.
pub struct Chip8Display {
    buffer: [bool; 2048],
    sender: Sender<DisplayInstruction>,
    emitted: Ghost<Seq<DisplayInstruction>>,
    open: bool,
}

impl View for Chip8Display {
    type V = DisplayView;

    closed spec fn view(&self) -> DisplayView {
        DisplayView { grid: self.buffer@, emitted: self.emitted@ }
    }
}

impl Chip8Display {
    /// Whether the feed has taken every change so far. Once it has refused
    /// one, nobody is listening any more.
    pub closed spec fn feed_open(&self) -> bool {
        self.open
    }

    pub fn new(sender: Sender<DisplayInstruction>) -> (display: Self)
        ensures
            display@ == (DisplayView { grid: blank_grid(), emitted: Seq::empty() }),
            display.feed_open(),
    {
        let display = Self {
            buffer: [false; 2048],
            sender,
            emitted: Ghost(Seq::empty()),
            open: true,
        };
        assert(display.buffer@ =~= blank_grid());
        display
    }

    /// A frame always has 2048 cells.
    pub proof fn lemma_len(&self)
        ensures
            self@.grid.len() == 2048,
    {
    }

    /// Flips the cell in column `x` of row `y`, reports the change to the
    /// feed, and returns what the cell held before.
    pub fn set(&mut self, x: usize, y: usize) -> (existing: bool)
        requires
            x < 64,
            y < 32,
        ensures
            existing == old(self)@.grid[cell_index(x as int, y as int)],
            final(self)@.grid == old(self)@.grid.update(cell_index(x as int, y as int), !existing),
            final(self)@.emitted == old(self)@.emitted.push(
                DisplayInstruction::SetPixel { value: !existing, index: (x + y * 64) as usize },
            ),
            final(self).feed_open() ==> old(self).feed_open(),
    {
        let index = x + y * 64;
        let existing = self.buffer[index];
        self.buffer[index] = !existing;
        let change = DisplayInstruction::SetPixel { value: !existing, index };
        let accepted = send_instruction(&self.sender, change);
        proof {
            self.emitted@ = self.emitted@.push(change);
        }
        self.open = self.open && accepted;
        existing
    }

    /// Unsets every cell and reports one `Clear` to the feed.
    pub fn clear(&mut self)
        ensures
            final(self)@.grid == blank_grid(),
            final(self)@.emitted == old(self)@.emitted.push(DisplayInstruction::Clear),
            final(self).feed_open() ==> old(self).feed_open(),
    {
        self.buffer = [false; 2048];
        assert(self.buffer@ =~= blank_grid());
        let accepted = send_instruction(&self.sender, DisplayInstruction::Clear);
        proof {
            self.emitted@ = self.emitted@.push(DisplayInstruction::Clear);
        }
        self.open = self.open && accepted;
    }

    /// Reads the cell in column `x` of row `y`.
    pub fn get(&self, x: usize, y: usize) -> (value: bool)
        requires
            x < 64,
            y < 32,
        ensures
            value == self@.grid[cell_index(x as int, y as int)],
    {
        self.buffer[x + y * 64]
    }

    /// The frame as text, for a terminal: a set cell is a light square,
    /// an unset one a dark square.
    pub fn render(&self) -> (text: String)
        ensures
            text@ == rendered(self@.grid),
    {
        let mut text = String::new();
        let mut y: usize = 0;
        while y < 32
            invariant
                y <= 32,
                text@ == rendered(self@.grid).take(65 * y),
            decreases 32 - y,
        {
            let mut x: usize = 0;
            while x < 64
                invariant
                    x <= 64,
                    y < 32,
                    text@ == rendered(self@.grid).take(65 * y + x),
                decreases 64 - x,
            {
                let value = self.buffer[x + y * 64];
                let icon = if value { SET_GLYPH } else { UNSET_GLYPH };
                push_char(&mut text, icon);
                assert(text@ =~= rendered(self@.grid).take(65 * y + x + 1)) by {
                    assert((65 * y + x) % 65 == x && (65 * y + x) / 65 == y);
                }
                x += 1;
            }
            push_char(&mut text, '\n');
            assert(text@ =~= rendered(self@.grid).take(65 * (y + 1))) by {
                assert((65 * y + 64) % 65 == 64);
            }
            y += 1;
        }
        assert(text@ =~= rendered(self@.grid));
        text
    }

    /// False once the feed has refused a change.
    pub fn is_open(&self) -> (open: bool)
        ensures
            open == self.feed_open(),
    {
        self.open
    }
}

} // verus!
