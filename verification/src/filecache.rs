//! The file-backed tile cache's path layout: a tile's payload lives under
//! `basepath/tileset/zoom/x_hi/x_lo/y_hi/y_lo.pbf`, where `x` and `y` are
//! each split into two 3-digit groups to bound directory fan-out.
//!
//! The file operations themselves (open, create, write) are I/O and live
//! outside this library; only the path derivation is defined here.

use vstd::prelude::*;

verus! {

/// Relies on String::push: appends the given character to the end of the
/// string.
pub assume_specification[ String::push ](s: &mut String, ch: char)
    ensures
        final(s)@ == old(s)@.push(ch),
;

/// Relies on String::push_str: appends the given string slice onto the end
/// of the string.
pub assume_specification[ String::push_str ](s: &mut String, other: &str)
    ensures
        final(s)@ == old(s)@ + other@,
;

/// The decimal digit character for a value between 0 and 9.
pub open spec fn digit_char(d: int) -> char {
    if d == 0 {
        '0'
    } else if d == 1 {
        '1'
    } else if d == 2 {
        '2'
    } else if d == 3 {
        '3'
    } else if d == 4 {
        '4'
    } else if d == 5 {
        '5'
    } else if d == 6 {
        '6'
    } else if d == 7 {
        '7'
    } else if d == 8 {
        '8'
    } else {
        '9'
    }
}

/// A value below 1000 written as exactly three decimal digits, zero-padded.
pub open spec fn pad3(v: int) -> Seq<char>
    recommends
        0 <= v < 1000,
{
    seq![digit_char(v / 100), digit_char((v / 10) % 10), digit_char(v % 10)]
}

/// A value below 256 written in decimal without padding.
pub open spec fn dec_u8(v: int) -> Seq<char>
    recommends
        0 <= v < 256,
{
    if v < 10 {
        seq![digit_char(v)]
    } else if v < 100 {
        seq![digit_char(v / 10), digit_char(v % 10)]
    } else {
        seq![digit_char(v / 100), digit_char((v / 10) % 10), digit_char(v % 10)]
    }
}

/// The sharded path of a tile's payload below `base`.
pub open spec fn tile_path(base: Seq<char>, tileset: Seq<char>, zoom: u8, x: u16, y: u16) -> Seq<
    char,
> {
    base + "/"@ + tileset + "/"@ + dec_u8(zoom as int) + "/"@ + pad3((x / 1000) as int) + "/"@
        + pad3((x % 1000) as int) + "/"@ + pad3((y / 1000) as int) + "/"@ + pad3(
        (y % 1000) as int,
    ) + ".pbf"@
}

fn push_digit(s: &mut String, d: u16)
    requires
        d < 10,
    ensures
        final(s)@ == old(s)@.push(digit_char(d as int)),
{
    let c: char = match d {
        0 => '0',
        1 => '1',
        2 => '2',
        3 => '3',
        4 => '4',
        5 => '5',
        6 => '6',
        7 => '7',
        8 => '8',
        _ => '9',
    };
    s.push(c);
}

fn push_pad3(s: &mut String, v: u16)
    requires
        v < 1000,
    ensures
        final(s)@ == old(s)@ + pad3(v as int),
{
    push_digit(s, v / 100);
    push_digit(s, (v / 10) % 10);
    push_digit(s, v % 10);
    proof {
        assert(s@ =~= old(s)@ + pad3(v as int));
    }
}

fn push_dec_u8(s: &mut String, v: u8)
    ensures
        final(s)@ == old(s)@ + dec_u8(v as int),
{
    if v < 10 {
        push_digit(s, v as u16);
    } else if v < 100 {
        push_digit(s, (v / 10) as u16);
        push_digit(s, (v % 10) as u16);
    } else {
        push_digit(s, (v / 100) as u16);
        push_digit(s, ((v / 10) % 10) as u16);
        push_digit(s, (v % 10) as u16);
    }
    proof {
        assert(s@ =~= old(s)@ + dec_u8(v as int));
    }
}

/// The file-backed tile cache: payloads live in files below `basepath`.
/// Only the path layout is defined here; the file operations themselves
/// are performed by the storage layer around this library.
pub struct Filecache {
    pub basepath: String,
}

impl Filecache {
    /// The full path of the file holding the tile's payload.
    pub fn path_for_tile(&self, tileset_name: &str, zoom: u8, x: u16, y: u16) -> (r: String)
        ensures
            r@ == tile_path(self.basepath@, tileset_name@, zoom, x, y),
    {
        let mut s = self.basepath.clone();
        s.push('/');
        s.push_str(tileset_name);
        s.push('/');
        push_dec_u8(&mut s, zoom);
        s.push('/');
        push_pad3(&mut s, x / 1000);
        s.push('/');
        push_pad3(&mut s, x % 1000);
        s.push('/');
        push_pad3(&mut s, y / 1000);
        s.push('/');
        push_pad3(&mut s, y % 1000);
        s.push_str(".pbf");
        proof {
            reveal_strlit("/");
            assert("/"@ =~= seq!['/']);
            assert(s@ =~= tile_path(self.basepath@, tileset_name@, zoom, x, y));
        }
        s
    }
}

} // verus!
