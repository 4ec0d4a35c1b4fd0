use vstd::prelude::*;

use crate::geometry::Var;

verus! {

/// A terminal colour.
#[derive(Clone, Copy, Debug, PartialEq, Eq, Structural)]
pub enum Color {
    Rgb { r: u8, g: u8, b: u8 },
    Magenta,
    White,
    Green,
}

/// A piece of text that a drawing plan prints.
#[derive(Clone, Copy, Debug, PartialEq, Eq, Structural)]
pub enum Glyph {
    /// Arrow pointing up: `/\`.
    ArrowUp,
    /// Arrow pointing left: `<═`.
    ArrowLeft,
    /// Arrow pointing down: `\/`.
    ArrowDown,
    /// Arrow pointing right: `═>`.
    ArrowRight,
    /// A body segment of the given shape.
    Segment(Var),
    /// Two blanks: an empty cell.
    Blank,
    /// `##`: the head.
    Hash,
    /// `┌`
    CornerTopLeft,
    /// `┐`
    CornerTopRight,
    /// `└`
    CornerBottomLeft,
    /// `┘`
    CornerBottomRight,
    /// `─`
    Horizontal,
    /// `│`
    Vertical,
    /// `█`
    Block,
    /// `██`
    DoubleBlock,
    /// One blank.
    Space,
    /// The hint on how to leave the frame demo.
    ExitHint,
}

/// One terminal command of a drawing plan.
#[derive(Clone, Copy, Debug, PartialEq, Eq, Structural)]
pub enum Draw {
    /// Move the cursor to column, row.
    MoveTo(u16, u16),
    Foreground(Color),
    Background(Color),
    Print(Glyph),
    ResetColor,
}

/// The characters of each glyph.
pub open spec fn glyph_text(g: Glyph) -> Seq<char> {
    match g {
        Glyph::ArrowUp => seq!['/', '\\'],
        Glyph::ArrowLeft => seq!['<', '═'],
        Glyph::ArrowDown => seq!['\\', '/'],
        Glyph::ArrowRight => seq!['═', '>'],
        Glyph::Segment(v) => match v {
            Var::Lr => seq!['═', '═'],
            Var::Ud => seq!['│', '│'],
            Var::Lu => seq!['╧', '┘'],
            Var::Ld => seq!['╤', '┐'],
            Var::Ur => seq!['└', '╧'],
            Var::Dr => seq!['┌', '╤'],
        },
        Glyph::Blank => seq![' ', ' '],
        Glyph::Hash => seq!['#', '#'],
        Glyph::CornerTopLeft => seq!['┌'],
        Glyph::CornerTopRight => seq!['┐'],
        Glyph::CornerBottomLeft => seq!['└'],
        Glyph::CornerBottomRight => seq!['┘'],
        Glyph::Horizontal => seq!['─'],
        Glyph::Vertical => seq!['│'],
        Glyph::Block => seq!['█'],
        Glyph::DoubleBlock => seq!['█', '█'],
        Glyph::Space => seq![' '],
        Glyph::ExitHint => seq![
            'В', 'ы', 'х', 'о', 'д', ':', ' ', 'E', 's', 'c', ' ', 'и', 'л', 'и', ' ', 'Q',
        ],
    }
}

impl Glyph {
    /// The text that is printed for this glyph.
    pub fn text(&self) -> (t: &'static str)
        ensures
            t@ == glyph_text(*self),
    {
        match self {
            Glyph::ArrowUp => {
                proof { reveal_strlit("/\\"); }
                "/\\"
            },
            Glyph::ArrowLeft => {
                proof { reveal_strlit("<═"); }
                "<═"
            },
            Glyph::ArrowDown => {
                proof { reveal_strlit("\\/"); }
                "\\/"
            },
            Glyph::ArrowRight => {
                proof { reveal_strlit("═>"); }
                "═>"
            },
            Glyph::Segment(v) => match v {
                Var::Lr => {
                    proof { reveal_strlit("══"); }
                    "══"
                },
                Var::Ud => {
                    proof { reveal_strlit("││"); }
                    "││"
                },
                Var::Lu => {
                    proof { reveal_strlit("╧┘"); }
                    "╧┘"
                },
                Var::Ld => {
                    proof { reveal_strlit("╤┐"); }
                    "╤┐"
                },
                Var::Ur => {
                    proof { reveal_strlit("└╧"); }
                    "└╧"
                },
                Var::Dr => {
                    proof { reveal_strlit("┌╤"); }
                    "┌╤"
                },
            },
            Glyph::Blank => {
                proof { reveal_strlit("  "); }
                "  "
            },
            Glyph::Hash => {
                proof { reveal_strlit("##"); }
                "##"
            },
            Glyph::CornerTopLeft => {
                proof { reveal_strlit("┌"); }
                "┌"
            },
            Glyph::CornerTopRight => {
                proof { reveal_strlit("┐"); }
                "┐"
            },
            Glyph::CornerBottomLeft => {
                proof { reveal_strlit("└"); }
                "└"
            },
            Glyph::CornerBottomRight => {
                proof { reveal_strlit("┘"); }
                "┘"
            },
            Glyph::Horizontal => {
                proof { reveal_strlit("─"); }
                "─"
            },
            Glyph::Vertical => {
                proof { reveal_strlit("│"); }
                "│"
            },
            Glyph::Block => {
                proof { reveal_strlit("█"); }
                "█"
            },
            Glyph::DoubleBlock => {
                proof { reveal_strlit("██"); }
                "██"
            },
            Glyph::Space => {
                proof { reveal_strlit(" "); }
                " "
            },
            Glyph::ExitHint => {
                proof { reveal_strlit("Выход: Esc или Q"); }
                "Выход: Esc или Q"
            },
        }
    }
}

/// The colour of the snake's body lines.
pub open spec fn snake_color() -> Color {
    Color::Rgb { r: 66, g: 111, b: 227 }
}

/// The background of a light field cell.
pub open spec fn light_color() -> Color {
    Color::Rgb { r: 170, g: 215, b: 81 }
}

/// The background of a dark field cell.
pub open spec fn dark_color() -> Color {
    Color::Rgb { r: 162, g: 209, b: 73 }
}

/// The background of the field's border.
pub open spec fn border_background() -> Color {
    Color::Rgb { r: 60, g: 60, b: 60 }
}

/// The colour of the field's border lines.
pub open spec fn border_foreground() -> Color {
    Color::Rgb { r: 200, g: 200, b: 200 }
}

/// Field cells form a checkerboard: a cell is light where the sum of its
/// coordinates is even and dark where it is odd.
pub open spec fn cell_shade(x: int, y: int) -> Color {
    if (x + y) % 2 == 0 { light_color() } else { dark_color() }
}

/// Two cells that share a side have different shades.
pub proof fn lemma_checkerboard(x: int, y: int)
    ensures
        cell_shade(x, y) != cell_shade(x + 1, y),
        cell_shade(x, y) != cell_shade(x, y + 1),
        cell_shade(x, y) == cell_shade(x + 1, y + 1),
{
}

} // verus!
