use vstd::prelude::*;

verus! {

/// Eight standard colors and default.
#[allow(missing_docs)]
#[derive(Clone, Copy, Debug, Default, PartialEq, Eq, Structural)]
pub enum Color {
    #[default]
    Default,
    Black,
    Red,
    Green,
    Yellow,
    Blue,
    Magenta,
    Cyan,
    White,
}

/// The terminal foreground escape sequence a color maps to.
/// `Default` maps to the reset sequence.
pub open spec fn color_code(c: Color) -> Seq<char> {
    match c {
        Color::Black => "\u{1b}[30m"@,
        Color::Red => "\u{1b}[31m"@,
        Color::Green => "\u{1b}[32m"@,
        Color::Yellow => "\u{1b}[33m"@,
        Color::Blue => "\u{1b}[34m"@,
        Color::Magenta => "\u{1b}[35m"@,
        Color::Cyan => "\u{1b}[36m"@,
        Color::White => "\u{1b}[37m"@,
        Color::Default => "\u{1b}[0m"@,
    }
}

impl Color {
    /// The foreground escape sequence for this color.
    pub fn into_fg_str(self) -> (r: &'static str)
        ensures
            r@ == color_code(self),
    {
        match self {
            Color::Black => "\u{1b}[30m",
            Color::Red => "\u{1b}[31m",
            Color::Green => "\u{1b}[32m",
            Color::Yellow => "\u{1b}[33m",
            Color::Blue => "\u{1b}[34m",
            Color::Magenta => "\u{1b}[35m",
            Color::Cyan => "\u{1b}[36m",
            Color::White => "\u{1b}[37m",
            Color::Default => "\u{1b}[0m",
        }
    }
}

} // verus!
