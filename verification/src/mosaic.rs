//! A fixed, total mapping from image-reference identifiers to single
//! display glyphs approximating block-mosaic teletext graphics.

use vstd::prelude::*;

verus! {

/// The identifiers with a glyph of their own; everything else, the
/// sentinel `0` included, draws the default glyph.
pub open spec fn known_mosaic_id(id: u64) -> bool {
    1 <= id <= 15
}

/// The glyph drawn for an image-reference identifier: the four low bits
/// of a known identifier pick a quadrant-block character, and every other
/// identifier falls back to the default.
pub open spec fn spec_glyph_for(id: u64) -> char {
    if id == 1 {
        '\u{2598}'
    } else if id == 2 {
        '\u{259d}'
    } else if id == 3 {
        '\u{2580}'
    } else if id == 4 {
        '\u{2596}'
    } else if id == 5 {
        '\u{258c}'
    } else if id == 6 {
        '\u{259e}'
    } else if id == 7 {
        '\u{259b}'
    } else if id == 8 {
        '\u{2597}'
    } else if id == 9 {
        '\u{259a}'
    } else if id == 10 {
        '\u{2590}'
    } else if id == 11 {
        '\u{259c}'
    } else if id == 12 {
        '\u{2584}'
    } else if id == 13 {
        '\u{2599}'
    } else if id == 14 {
        '\u{259f}'
    } else if id == 15 {
        '\u{2588}'
    } else {
        '\u{2591}'
    }
}

/// The fixed glyph table.
pub struct MosaicTable;

impl MosaicTable {
    /// The glyph for one identifier; total, with a fixed fallback.
    pub fn glyph_for(id: u64) -> (c: char)
        ensures
            c == spec_glyph_for(id),
    {
        if id == 1 {
            '\u{2598}'
        } else if id == 2 {
            '\u{259d}'
        } else if id == 3 {
            '\u{2580}'
        } else if id == 4 {
            '\u{2596}'
        } else if id == 5 {
            '\u{258c}'
        } else if id == 6 {
            '\u{259e}'
        } else if id == 7 {
            '\u{259b}'
        } else if id == 8 {
            '\u{2597}'
        } else if id == 9 {
            '\u{259a}'
        } else if id == 10 {
            '\u{2590}'
        } else if id == 11 {
            '\u{259c}'
        } else if id == 12 {
            '\u{2584}'
        } else if id == 13 {
            '\u{2599}'
        } else if id == 14 {
            '\u{259f}'
        } else if id == 15 {
            '\u{2588}'
        } else {
            '\u{2591}'
        }
    }
}

/// The fallback is idempotent: the sentinel identifier `0` and every
/// identifier outside the known set draw one and the same default glyph.
pub proof fn lemma_glyph_fallback(id: u64)
    requires
        !known_mosaic_id(id),
    ensures
        spec_glyph_for(id) == spec_glyph_for(0),
{
}

} // verus!
