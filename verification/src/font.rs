//! The built-in glyph table: one 4x5-pixel glyph per hexadecimal digit,
//! five bytes per glyph, written once to the bottom of memory.

use vstd::prelude::*;

verus! {

/// Byte `r` (0..5) of the glyph for hexadecimal digit `d` (0..16). Each
/// byte's top four bits are one pixel row of the glyph.
pub open spec fn glyph_row(d: int, r: int) -> u8 {
    if d == 0x0 {
        if r == 0 { 0xF0 } else if r == 1 { 0x90 } else if r == 2 { 0x90 }
        else if r == 3 { 0x90 } else { 0xF0 }
    } else if d == 0x1 {
        if r == 0 { 0x20 } else if r == 1 { 0x60 } else if r == 2 { 0x20 }
        else if r == 3 { 0x20 } else { 0x70 }
    } else if d == 0x2 {
        if r == 0 { 0xF0 } else if r == 1 { 0x10 } else if r == 2 { 0xF0 }
        else if r == 3 { 0x80 } else { 0xF0 }
    } else if d == 0x3 {
        if r == 0 { 0xF0 } else if r == 1 { 0x10 } else if r == 2 { 0xF0 }
        else if r == 3 { 0x10 } else { 0xF0 }
    } else if d == 0x4 {
        if r == 0 { 0x90 } else if r == 1 { 0x90 } else if r == 2 { 0xF0 }
        else if r == 3 { 0x10 } else { 0x10 }
    } else if d == 0x5 {
        if r == 0 { 0xF0 } else if r == 1 { 0x80 } else if r == 2 { 0xF0 }
        else if r == 3 { 0x10 } else { 0xF0 }
    } else if d == 0x6 {
        if r == 0 { 0xF0 } else if r == 1 { 0x80 } else if r == 2 { 0xF0 }
        else if r == 3 { 0x90 } else { 0xF0 }
    } else if d == 0x7 {
        if r == 0 { 0xF0 } else if r == 1 { 0x10 } else if r == 2 { 0x20 }
        else if r == 3 { 0x40 } else { 0x40 }
    } else if d == 0x8 {
        if r == 0 { 0xF0 } else if r == 1 { 0x90 } else if r == 2 { 0xF0 }
        else if r == 3 { 0x90 } else { 0xF0 }
    } else if d == 0x9 {
        if r == 0 { 0xF0 } else if r == 1 { 0x90 } else if r == 2 { 0xF0 }
        else if r == 3 { 0x10 } else { 0xF0 }
    } else if d == 0xA {
        if r == 0 { 0xF0 } else if r == 1 { 0x90 } else if r == 2 { 0xF0 }
        else if r == 3 { 0x90 } else { 0x90 }
    } else if d == 0xB {
        if r == 0 { 0xE0 } else if r == 1 { 0x90 } else if r == 2 { 0xE0 }
        else if r == 3 { 0x90 } else { 0xE0 }
    } else if d == 0xC {
        if r == 0 { 0xF0 } else if r == 1 { 0x80 } else if r == 2 { 0x80 }
        else if r == 3 { 0x80 } else { 0xF0 }
    } else if d == 0xD {
        if r == 0 { 0xE0 } else if r == 1 { 0x90 } else if r == 2 { 0x90 }
        else if r == 3 { 0x90 } else { 0xE0 }
    } else if d == 0xE {
        if r == 0 { 0xF0 } else if r == 1 { 0x80 } else if r == 2 { 0xF0 }
        else if r == 3 { 0x80 } else { 0xF0 }
    } else {
        if r == 0 { 0xF0 } else if r == 1 { 0x80 } else if r == 2 { 0xF0 }
        else if r == 3 { 0x80 } else { 0x80 }
    }
}

/// Fetch one glyph byte at run time.
pub fn glyph_byte(d: u8, r: u8) -> (b: u8)
    requires
        d < 16,
        r < 5,
    ensures
        b == glyph_row(d as int, r as int),
{
    match d {
        0x0 => match r { 0 => 0xF0, 1 => 0x90, 2 => 0x90, 3 => 0x90, _ => 0xF0 },
        0x1 => match r { 0 => 0x20, 1 => 0x60, 2 => 0x20, 3 => 0x20, _ => 0x70 },
        0x2 => match r { 0 => 0xF0, 1 => 0x10, 2 => 0xF0, 3 => 0x80, _ => 0xF0 },
        0x3 => match r { 0 => 0xF0, 1 => 0x10, 2 => 0xF0, 3 => 0x10, _ => 0xF0 },
        0x4 => match r { 0 => 0x90, 1 => 0x90, 2 => 0xF0, 3 => 0x10, _ => 0x10 },
        0x5 => match r { 0 => 0xF0, 1 => 0x80, 2 => 0xF0, 3 => 0x10, _ => 0xF0 },
        0x6 => match r { 0 => 0xF0, 1 => 0x80, 2 => 0xF0, 3 => 0x90, _ => 0xF0 },
        0x7 => match r { 0 => 0xF0, 1 => 0x10, 2 => 0x20, 3 => 0x40, _ => 0x40 },
        0x8 => match r { 0 => 0xF0, 1 => 0x90, 2 => 0xF0, 3 => 0x90, _ => 0xF0 },
        0x9 => match r { 0 => 0xF0, 1 => 0x90, 2 => 0xF0, 3 => 0x10, _ => 0xF0 },
        0xA => match r { 0 => 0xF0, 1 => 0x90, 2 => 0xF0, 3 => 0x90, _ => 0x90 },
        0xB => match r { 0 => 0xE0, 1 => 0x90, 2 => 0xE0, 3 => 0x90, _ => 0xE0 },
        0xC => match r { 0 => 0xF0, 1 => 0x80, 2 => 0x80, 3 => 0x80, _ => 0xF0 },
        0xD => match r { 0 => 0xE0, 1 => 0x90, 2 => 0x90, 3 => 0x90, _ => 0xE0 },
        0xE => match r { 0 => 0xF0, 1 => 0x80, 2 => 0xF0, 3 => 0x80, _ => 0xF0 },
        _ => match r { 0 => 0xF0, 1 => 0x80, 2 => 0xF0, 3 => 0x80, _ => 0x80 },
    }
}

} // verus!
