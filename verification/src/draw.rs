//! Drawing commands: what a frame asks the terminal to show.

use vstd::prelude::*;

verus! {

/// The colours the game draws with.
#[derive(Clone, Copy, Debug, PartialEq, Eq, Structural)]
pub enum Color {
    Black,
    Navy,
    Red,
    Yellow,
}

/// One request to the terminal.  A frame is a list of these, in the order in
/// which they are to be carried out.
#[derive(Debug, PartialEq, Eq)]
pub enum DrawCommand {
    /// Wipe the screen.
    Clear,
    /// Wipe the screen and paint it in one colour.
    Fill { background: Color },
    /// Put one glyph of the terminal's code page into the cell `(x, y)`.
    Glyph { x: i32, y: i32, fg: Color, bg: Color, glyph: u16 },
    /// Write `text` starting at the cell `(x, y)`.
    Text { x: i32, y: i32, text: String },
    /// Write `text` on row `y`, centred.
    Centered { y: i32, text: String },
}

/// The mathematical content of a [`DrawCommand`].
pub enum DrawCommandView {
    Clear,
    Fill { background: Color },
    Glyph { x: int, y: int, fg: Color, bg: Color, glyph: int },
    Text { x: int, y: int, text: Seq<char> },
    Centered { y: int, text: Seq<char> },
}

impl View for DrawCommand {
    type V = DrawCommandView;

    open spec fn view(&self) -> DrawCommandView {
        match *self {
            DrawCommand::Clear => DrawCommandView::Clear,
            DrawCommand::Fill { background } => DrawCommandView::Fill { background },
            DrawCommand::Glyph { x, y, fg, bg, glyph } => DrawCommandView::Glyph {
                x: x as int,
                y: y as int,
                fg,
                bg,
                glyph: glyph as int,
            },
            DrawCommand::Text { x, y, text } => DrawCommandView::Text {
                x: x as int,
                y: y as int,
                text: text@,
            },
            DrawCommand::Centered { y, text } => DrawCommandView::Centered {
                y: y as int,
                text: text@,
            },
        }
    }
}

/// The contents of a list of commands, command by command.
pub open spec fn views(commands: Seq<DrawCommand>) -> Seq<DrawCommandView> {
    commands.map_values(|c: DrawCommand| c@)
}

/// The glyph the player is drawn with: `@` in code page 437.
pub const PLAYER_GLYPH: u16 = 64;

/// The glyph a wall is built from: `|` in code page 437.
pub const WALL_GLYPH: u16 = 124;

/// The code that `bracket_lib::prelude::to_cp437` gives a character in code
/// page 437.
pub uninterp spec fn cp437(c: char) -> u16;

/// Calls `bracket_lib::prelude::to_cp437`, which looks the character up in a
/// fixed table and answers 0 for a character the code page lacks.  The result
/// depends on the character alone; the two entries the game draws with are
/// spelled out.
#[verifier::external_body]
pub(crate) fn to_glyph(c: char) -> (glyph: u16)
    ensures
        glyph == cp437(c),
        c == '@' ==> glyph == 64,
        c == '|' ==> glyph == 124,
{
    bracket_lib::prelude::to_cp437(c)
}

} // verus!
