//! The VGA text-mode attribute byte: colors and the packed
//! foreground/background code, plus the cell-offset arithmetic the
//! console renderer needs.

use vstd::prelude::*;

verus! {

/// The sixteen VGA text-mode colors.
#[derive(Debug, Clone, Copy, PartialEq, Eq, Structural)]
pub enum Color {
    Black,
    Blue,
    Green,
    Cyan,
    Red,
    Magenta,
    Brown,
    LightGray,
    DarkGray,
    LightBlue,
    LightGreen,
    LightCyan,
    LightRed,
    Pink,
    Yellow,
    White,
}

impl Color {
    /// The 4-bit hardware code of the color.
    pub open spec fn value_spec(self) -> u8 {
        match self {
            Color::Black => 0,
            Color::Blue => 1,
            Color::Green => 2,
            Color::Cyan => 3,
            Color::Red => 4,
            Color::Magenta => 5,
            Color::Brown => 6,
            Color::LightGray => 7,
            Color::DarkGray => 8,
            Color::LightBlue => 9,
            Color::LightGreen => 10,
            Color::LightCyan => 11,
            Color::LightRed => 12,
            Color::Pink => 13,
            Color::Yellow => 14,
            Color::White => 15,
        }
    }

    /// The color's 4-bit hardware code as a machine value.
    pub fn value(self) -> (r: u8)
        ensures
            r == self.value_spec(),
            r < 16,
    {
        match self {
            Self::Black => 0,
            Self::Blue => 1,
            Self::Green => 2,
            Self::Cyan => 3,
            Self::Red => 4,
            Self::Magenta => 5,
            Self::Brown => 6,
            Self::LightGray => 7,
            Self::DarkGray => 8,
            Self::LightBlue => 9,
            Self::LightGreen => 10,
            Self::LightCyan => 11,
            Self::LightRed => 12,
            Self::Pink => 13,
            Self::Yellow => 14,
            Self::White => 15,
        }
    }
}

/// A packed VGA attribute byte: background color in the high nibble,
/// foreground color in the low nibble.
#[derive(Debug, Clone, Copy, PartialEq, Eq, Structural)]
pub struct ColorCode(pub u8);

impl ColorCode {
    /// Set the VGA char Background and Foreground
    ///
    /// # Parameters
    ///
    /// - `foreground`: The color of the character itself
    /// - `background`: The background color of the character
    pub fn new(foreground: Color, background: Color) -> (r: Self)
        ensures
            r.0 == background.value_spec() * 16 + foreground.value_spec(),
    {
        let fg = foreground.value();
        let bg = background.value();
        proof {
            assert(fg < 16 && bg < 16 ==> (bg << 4) | fg == bg * 16 + fg) by (bit_vector);
        }
        Self((bg << 4) | fg)
    }
}

impl Default for ColorCode {
    /// White text on a black background.
    fn default() -> (r: Self)
        ensures
            r.0 == 15,
    {
        ColorCode::new(Color::White, Color::Black)
    }
}

/// Byte offset of the character cell at `row`, `col` in the 80x25 VGA
/// text buffer: two bytes per cell, row-major.
pub fn cell_offset(row: usize, col: usize) -> (r: usize)
    requires
        row < 25,
        col < 80,
    ensures
        r == (row * 80 + col) * 2,
        r < 4000,
{
    (row * 80 + col) * 2
}

/// Which of the eight rainbow bar colors paints column `col` of an
/// 80-cell row: the palette is stretched evenly across the row.
pub fn rainbow_color_index(col: usize) -> (r: usize)
    requires
        col < 80,
    ensures
        r == (col * 8) / 80,
        r < 8,
{
    (col * 8) / 80
}

} // verus!
