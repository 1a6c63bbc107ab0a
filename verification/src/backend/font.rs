//! The 5x7 bitmap font used to letter synthesized button art, and drawing
//! text with it onto an RGBA8 surface.
use vstd::prelude::*;

verus! {

/// `c` with ASCII lower-case letters made upper-case.
pub open spec fn ascii_upper(c: char) -> char {
    if 'a' <= c && c <= 'z' {
        ((c as u32) - 32) as char
    } else {
        c
    }
}

/// The seven rows of the glyph of (upper-cased) `c`; bit 4 of a row is its
/// leftmost column. Characters without a glyph are blank.
pub open spec fn glyph_rows(c: char) -> Seq<u8> {
    match c {
        'A' => seq![0b01110u8, 0b10001, 0b10001, 0b11111, 0b10001, 0b10001, 0b10001],
        'B' => seq![0b11110u8, 0b10001, 0b10001, 0b11110, 0b10001, 0b10001, 0b11110],
        'C' => seq![0b01110u8, 0b10001, 0b10000, 0b10000, 0b10000, 0b10001, 0b01110],
        'D' => seq![0b11110u8, 0b10001, 0b10001, 0b10001, 0b10001, 0b10001, 0b11110],
        'E' => seq![0b11111u8, 0b10000, 0b10000, 0b11110, 0b10000, 0b10000, 0b11111],
        'F' => seq![0b11111u8, 0b10000, 0b10000, 0b11110, 0b10000, 0b10000, 0b10000],
        'G' => seq![0b01110u8, 0b10001, 0b10000, 0b10111, 0b10001, 0b10001, 0b01110],
        'H' => seq![0b10001u8, 0b10001, 0b10001, 0b11111, 0b10001, 0b10001, 0b10001],
        'I' => seq![0b11111u8, 0b00100, 0b00100, 0b00100, 0b00100, 0b00100, 0b11111],
        'J' => seq![0b00111u8, 0b00010, 0b00010, 0b00010, 0b10010, 0b10010, 0b01100],
        'K' => seq![0b10001u8, 0b10010, 0b10100, 0b11000, 0b10100, 0b10010, 0b10001],
        'L' => seq![0b10000u8, 0b10000, 0b10000, 0b10000, 0b10000, 0b10000, 0b11111],
        'M' => seq![0b10001u8, 0b11011, 0b10101, 0b10101, 0b10001, 0b10001, 0b10001],
        'N' => seq![0b10001u8, 0b11001, 0b10101, 0b10011, 0b10001, 0b10001, 0b10001],
        'O' => seq![0b01110u8, 0b10001, 0b10001, 0b10001, 0b10001, 0b10001, 0b01110],
        'P' => seq![0b11110u8, 0b10001, 0b10001, 0b11110, 0b10000, 0b10000, 0b10000],
        'Q' => seq![0b01110u8, 0b10001, 0b10001, 0b10001, 0b10101, 0b10010, 0b01101],
        'R' => seq![0b11110u8, 0b10001, 0b10001, 0b11110, 0b10100, 0b10010, 0b10001],
        'S' => seq![0b01111u8, 0b10000, 0b10000, 0b01110, 0b00001, 0b00001, 0b11110],
        'T' => seq![0b11111u8, 0b00100, 0b00100, 0b00100, 0b00100, 0b00100, 0b00100],
        'U' => seq![0b10001u8, 0b10001, 0b10001, 0b10001, 0b10001, 0b10001, 0b01110],
        'V' => seq![0b10001u8, 0b10001, 0b10001, 0b10001, 0b10001, 0b01010, 0b00100],
        'W' => seq![0b10001u8, 0b10001, 0b10001, 0b10101, 0b10101, 0b10101, 0b01010],
        'X' => seq![0b10001u8, 0b10001, 0b01010, 0b00100, 0b01010, 0b10001, 0b10001],
        'Y' => seq![0b10001u8, 0b10001, 0b01010, 0b00100, 0b00100, 0b00100, 0b00100],
        'Z' => seq![0b11111u8, 0b00001, 0b00010, 0b00100, 0b01000, 0b10000, 0b11111],
        '0' => seq![0b01110u8, 0b10001, 0b10011, 0b10101, 0b11001, 0b10001, 0b01110],
        '1' => seq![0b00100u8, 0b01100, 0b00100, 0b00100, 0b00100, 0b00100, 0b01110],
        '2' => seq![0b01110u8, 0b10001, 0b00001, 0b00010, 0b00100, 0b01000, 0b11111],
        '3' => seq![0b11110u8, 0b00001, 0b00001, 0b01110, 0b00001, 0b00001, 0b11110],
        '4' => seq![0b00010u8, 0b00110, 0b01010, 0b10010, 0b11111, 0b00010, 0b00010],
        '5' => seq![0b11111u8, 0b10000, 0b10000, 0b11110, 0b00001, 0b00001, 0b11110],
        '6' => seq![0b00110u8, 0b01000, 0b10000, 0b11110, 0b10001, 0b10001, 0b01110],
        '7' => seq![0b11111u8, 0b00001, 0b00010, 0b00100, 0b01000, 0b01000, 0b01000],
        '8' => seq![0b01110u8, 0b10001, 0b10001, 0b01110, 0b10001, 0b10001, 0b01110],
        '9' => seq![0b01110u8, 0b10001, 0b10001, 0b01111, 0b00001, 0b00010, 0b11100],
        '.' => seq![0u8, 0, 0, 0, 0, 0b01100, 0b01100],
        ':' => seq![0u8, 0b01100, 0b01100, 0, 0b01100, 0b01100, 0],
        '-' => seq![0u8, 0, 0, 0b11111, 0, 0, 0],
        '_' => seq![0u8, 0, 0, 0, 0, 0, 0b11111],
        '/' => seq![0b00001u8, 0b00010, 0b00100, 0b01000, 0b10000, 0, 0],
        '%' => seq![0b11001u8, 0b11010, 0b00100, 0b01000, 0b10110, 0b00110, 0],
        '(' => seq![0b00010u8, 0b00100, 0b01000, 0b01000, 0b01000, 0b00100, 0b00010],
        ')' => seq![0b01000u8, 0b00100, 0b00010, 0b00010, 0b00010, 0b00100, 0b01000],
        '!' => seq![0b00100u8, 0b00100, 0b00100, 0b00100, 0b00100, 0, 0b00100],
        ' ' => seq![0u8, 0, 0, 0, 0, 0, 0],
        _ => seq![0u8, 0, 0, 0, 0, 0, 0],
    }
}

/// The seven rows of the 5x7 glyph of `ch`, case folded.
pub fn ab_font5x7_rows(ch: char) -> (rows: [u8; 7])
    ensures
        rows@ == glyph_rows(ascii_upper(ch)),
{
    let rows: [u8; 7] = match ch {
        'A' | 'a' => [0b01110u8, 0b10001, 0b10001, 0b11111, 0b10001, 0b10001, 0b10001],
        'B' | 'b' => [0b11110u8, 0b10001, 0b10001, 0b11110, 0b10001, 0b10001, 0b11110],
        'C' | 'c' => [0b01110u8, 0b10001, 0b10000, 0b10000, 0b10000, 0b10001, 0b01110],
        'D' | 'd' => [0b11110u8, 0b10001, 0b10001, 0b10001, 0b10001, 0b10001, 0b11110],
        'E' | 'e' => [0b11111u8, 0b10000, 0b10000, 0b11110, 0b10000, 0b10000, 0b11111],
        'F' | 'f' => [0b11111u8, 0b10000, 0b10000, 0b11110, 0b10000, 0b10000, 0b10000],
        'G' | 'g' => [0b01110u8, 0b10001, 0b10000, 0b10111, 0b10001, 0b10001, 0b01110],
        'H' | 'h' => [0b10001u8, 0b10001, 0b10001, 0b11111, 0b10001, 0b10001, 0b10001],
        'I' | 'i' => [0b11111u8, 0b00100, 0b00100, 0b00100, 0b00100, 0b00100, 0b11111],
        'J' | 'j' => [0b00111u8, 0b00010, 0b00010, 0b00010, 0b10010, 0b10010, 0b01100],
        'K' | 'k' => [0b10001u8, 0b10010, 0b10100, 0b11000, 0b10100, 0b10010, 0b10001],
        'L' | 'l' => [0b10000u8, 0b10000, 0b10000, 0b10000, 0b10000, 0b10000, 0b11111],
        'M' | 'm' => [0b10001u8, 0b11011, 0b10101, 0b10101, 0b10001, 0b10001, 0b10001],
        'N' | 'n' => [0b10001u8, 0b11001, 0b10101, 0b10011, 0b10001, 0b10001, 0b10001],
        'O' | 'o' => [0b01110u8, 0b10001, 0b10001, 0b10001, 0b10001, 0b10001, 0b01110],
        'P' | 'p' => [0b11110u8, 0b10001, 0b10001, 0b11110, 0b10000, 0b10000, 0b10000],
        'Q' | 'q' => [0b01110u8, 0b10001, 0b10001, 0b10001, 0b10101, 0b10010, 0b01101],
        'R' | 'r' => [0b11110u8, 0b10001, 0b10001, 0b11110, 0b10100, 0b10010, 0b10001],
        'S' | 's' => [0b01111u8, 0b10000, 0b10000, 0b01110, 0b00001, 0b00001, 0b11110],
        'T' | 't' => [0b11111u8, 0b00100, 0b00100, 0b00100, 0b00100, 0b00100, 0b00100],
        'U' | 'u' => [0b10001u8, 0b10001, 0b10001, 0b10001, 0b10001, 0b10001, 0b01110],
        'V' | 'v' => [0b10001u8, 0b10001, 0b10001, 0b10001, 0b10001, 0b01010, 0b00100],
        'W' | 'w' => [0b10001u8, 0b10001, 0b10001, 0b10101, 0b10101, 0b10101, 0b01010],
        'X' | 'x' => [0b10001u8, 0b10001, 0b01010, 0b00100, 0b01010, 0b10001, 0b10001],
        'Y' | 'y' => [0b10001u8, 0b10001, 0b01010, 0b00100, 0b00100, 0b00100, 0b00100],
        'Z' | 'z' => [0b11111u8, 0b00001, 0b00010, 0b00100, 0b01000, 0b10000, 0b11111],
        '0' => [0b01110u8, 0b10001, 0b10011, 0b10101, 0b11001, 0b10001, 0b01110],
        '1' => [0b00100u8, 0b01100, 0b00100, 0b00100, 0b00100, 0b00100, 0b01110],
        '2' => [0b01110u8, 0b10001, 0b00001, 0b00010, 0b00100, 0b01000, 0b11111],
        '3' => [0b11110u8, 0b00001, 0b00001, 0b01110, 0b00001, 0b00001, 0b11110],
        '4' => [0b00010u8, 0b00110, 0b01010, 0b10010, 0b11111, 0b00010, 0b00010],
        '5' => [0b11111u8, 0b10000, 0b10000, 0b11110, 0b00001, 0b00001, 0b11110],
        '6' => [0b00110u8, 0b01000, 0b10000, 0b11110, 0b10001, 0b10001, 0b01110],
        '7' => [0b11111u8, 0b00001, 0b00010, 0b00100, 0b01000, 0b01000, 0b01000],
        '8' => [0b01110u8, 0b10001, 0b10001, 0b01110, 0b10001, 0b10001, 0b01110],
        '9' => [0b01110u8, 0b10001, 0b10001, 0b01111, 0b00001, 0b00010, 0b11100],
        '.' => [0u8, 0, 0, 0, 0, 0b01100, 0b01100],
        ':' => [0u8, 0b01100, 0b01100, 0, 0b01100, 0b01100, 0],
        '-' => [0u8, 0, 0, 0b11111, 0, 0, 0],
        '_' => [0u8, 0, 0, 0, 0, 0, 0b11111],
        '/' => [0b00001u8, 0b00010, 0b00100, 0b01000, 0b10000, 0, 0],
        '%' => [0b11001u8, 0b11010, 0b00100, 0b01000, 0b10110, 0b00110, 0],
        '(' => [0b00010u8, 0b00100, 0b01000, 0b01000, 0b01000, 0b00100, 0b00010],
        ')' => [0b01000u8, 0b00100, 0b00010, 0b00010, 0b00010, 0b00100, 0b01000],
        '!' => [0b00100u8, 0b00100, 0b00100, 0b00100, 0b00100, 0, 0b00100],
        ' ' => [0u8, 0, 0, 0, 0, 0, 0],
        _ => [0u8, 0, 0, 0, 0, 0, 0],
    };
    assert(rows@ =~= glyph_rows(ascii_upper(ch)));
    rows
}

} // verus!
