use crate::color::Color;
use vstd::prelude::*;

verus! {

/// Band that position `pos` falls in when `extent` positions are cut into
/// `count` equal bands.
pub open spec fn band_of(pos: int, extent: int, count: int) -> int {
    pos * count / extent
}

/// Index of the band that position `pos` falls in when `extent` positions are
/// cut into `count` equal bands: `pos * count / extent`.
pub fn stripe(pos: usize, extent: usize, count: usize) -> (r: usize)
    requires
        pos < extent,
        pos * count <= usize::MAX,
    ensures
        r == band_of(pos as int, extent as int, count as int),
        count > 0 ==> r < count,
{
    proof {
        if count > 0 {
            assert(pos * count < extent * count) by (nonlinear_arith)
                requires
                    pos < extent,
                    count > 0,
            ;
            assert(band_of(pos as int, extent as int, count as int) < count) by (nonlinear_arith)
                requires
                    pos * count < extent * count,
                    extent > 0,
            ;
        }
    }
    pos * count / extent
}

/// Colour of band `i` of the five-band trans flag.
pub open spec fn trans_band(i: int) -> Color {
    if i == 0 || i == 4 {
        Color { r: 85, g: 205, b: 252 }
    } else if i == 1 || i == 3 {
        Color { r: 247, g: 168, b: 184 }
    } else {
        Color { r: 255, g: 255, b: 255 }
    }
}

/// Colour of band `i` of the four-band nonbinary flag.
pub open spec fn nonbinary_band(i: int) -> Color {
    if i == 0 {
        Color { r: 33, g: 33, b: 33 }
    } else if i == 1 {
        Color { r: 155, g: 89, b: 208 }
    } else if i == 2 {
        Color { r: 255, g: 255, b: 255 }
    } else {
        Color { r: 255, g: 244, b: 51 }
    }
}

/// Colour of band `i` of the five-band lesbian flag.
pub open spec fn lesbian_band(i: int) -> Color {
    if i == 0 {
        Color { r: 163, g: 2, b: 98 }
    } else if i == 1 {
        Color { r: 211, g: 98, b: 164 }
    } else if i == 2 {
        Color { r: 255, g: 255, b: 255 }
    } else if i == 3 {
        Color { r: 255, g: 154, b: 86 }
    } else {
        Color { r: 213, g: 45, b: 0 }
    }
}

/// Colour of the trans flag, of `height` rows, at row `y`.
pub fn trans_flag(y: usize, height: usize) -> (c: Color)
    requires
        y < height,
        y * 5 <= usize::MAX,
    ensures
        c == trans_band(band_of(y as int, height as int, 5)),
{
    let i = stripe(y, height, 5);
    if i == 0 || i == 4 {
        Color::rgb(85, 205, 252)
    } else if i == 1 || i == 3 {
        Color::rgb(247, 168, 184)
    } else {
        Color::rgb(255, 255, 255)
    }
}

/// Colour at pixel (`x`, `y`) of three flags side by side, each a third of the
/// `width`: trans, then nonbinary, then lesbian, all `height` rows tall.
pub fn flag_triptych(x: usize, y: usize, width: usize, height: usize) -> (c: Color)
    requires
        x < width,
        y < height,
        x * 3 <= usize::MAX,
        y * 5 <= usize::MAX,
    ensures
        band_of(x as int, width as int, 3) == 0 ==> c == trans_band(band_of(y as int, height as int, 5)),
        band_of(x as int, width as int, 3) == 1 ==> c == nonbinary_band(band_of(y as int, height as int, 4)),
        band_of(x as int, width as int, 3) == 2 ==> c == lesbian_band(band_of(y as int, height as int, 5)),
{
    let column = stripe(x, width, 3);
    if column == 0 {
        trans_flag(y, height)
    } else if column == 1 {
        let i = stripe(y, height, 4);
        if i == 0 {
            Color::rgb(33, 33, 33)
        } else if i == 1 {
            Color::rgb(155, 89, 208)
        } else if i == 2 {
            Color::rgb(255, 255, 255)
        } else {
            Color::rgb(255, 244, 51)
        }
    } else {
        let i = stripe(y, height, 5);
        if i == 0 {
            Color::rgb(163, 2, 98)
        } else if i == 1 {
            Color::rgb(211, 98, 164)
        } else if i == 2 {
            Color::rgb(255, 255, 255)
        } else if i == 3 {
            Color::rgb(255, 154, 86)
        } else {
            Color::rgb(213, 45, 0)
        }
    }
}

} // verus!
