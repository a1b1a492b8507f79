//! The icons, drawn in code so that no image has to be shipped: a purple dot
//! with a white bar.
use vstd::prelude::*;

verus! {

/// What a pixel of an icon belongs to.
#[derive(Clone, Copy, Debug, PartialEq, Eq, Structural)]
pub enum Pixel {
    Bar,
    Dot,
    Outside,
}

/// What a pixel of a square icon belongs to. Its middle lies in the dot when it
/// is at most half of `width` away from the middle of the icon, and in the bar
/// when its row is one of the bar's too.
pub open spec fn pixel_at(x: int, y: int, size: int, width: int, top: int, bottom: int) -> Pixel {
    let dx = 2 * x - (size - 1);
    let dy = 2 * y - (size - 1);
    if dx * dx + dy * dy > width * width {
        Pixel::Outside
    } else if top <= y <= bottom {
        Pixel::Bar
    } else {
        Pixel::Dot
    }
}

fn find_pixel(x: i32, y: i32, size: i32, width: i32, top: i32, bottom: i32) -> (r: Pixel)
    requires
        0 <= x < size <= 64,
        0 <= y < size,
        0 <= width <= 64,
    ensures
        r == pixel_at(x as int, y as int, size as int, width as int, top as int, bottom as int),
{
    let dx: i32 = 2 * x - (size - 1);
    let dy: i32 = 2 * y - (size - 1);
    assert(-64 <= dx <= 64 && -64 <= dy <= 64);
    assert(0 <= dx * dx <= 4096) by (nonlinear_arith)
        requires
            -64 <= dx <= 64,
    ;
    assert(0 <= dy * dy <= 4096) by (nonlinear_arith)
        requires
            -64 <= dy <= 64,
    ;
    assert(0 <= width * width <= 4096) by (nonlinear_arith)
        requires
            0 <= width <= 64,
    ;
    if dx * dx + dy * dy > width * width {
        Pixel::Outside
    } else if top <= y && y <= bottom {
        Pixel::Bar
    } else {
        Pixel::Dot
    }
}

/// The bytes of a pixel, its opacity first.
pub open spec fn argb(pixel: Pixel) -> Seq<u8> {
    match pixel {
        Pixel::Bar => seq![255, 255, 255, 255],
        Pixel::Dot => seq![255, 110, 70, 160],
        Pixel::Outside => seq![0, 0, 0, 0],
    }
}

/// The bytes of a pixel, its opacity last.
pub open spec fn rgba(pixel: Pixel) -> Seq<u8> {
    match pixel {
        Pixel::Bar => seq![255, 255, 255, 255],
        Pixel::Dot => seq![110, 70, 160, 255],
        Pixel::Outside => seq![0, 0, 0, 0],
    }
}

/// The width of the tray icon in pixels, and its height.
pub const TRAY_ICON_SIZE: u32 = 16;

/// The width of the window icon in pixels, and its height.
pub const WINDOW_ICON_SIZE: u32 = 32;

/// What a pixel of the tray icon belongs to, the pixels counted row by row.
pub open spec fn tray_pixel(p: int) -> Pixel {
    pixel_at(p % 16, p / 16, 16, 13, 8, 11)
}

/// What a pixel of the window icon belongs to, the pixels counted row by row.
pub open spec fn window_pixel(p: int) -> Pixel {
    pixel_at(p % 32, p / 32, 32, 27, 17, 23)
}

fn push_pixel(data: &mut Vec<u8>, a: u8, b: u8, c: u8, d: u8)
    ensures
        final(data)@ == old(data)@ + seq![a, b, c, d],
{
    let ghost before = data@;
    data.push(a);
    data.push(b);
    data.push(c);
    data.push(d);
    assert(data@ =~= before + seq![a, b, c, d]);
}

/// The tray icon: 16 by 16 pixels, four bytes each, opacity first.
pub fn tray_icon() -> (r: Vec<u8>)
    ensures
        r@.len() == 4 * 16 * 16,
        forall|i: int| 0 <= i < r@.len() ==> #[trigger] r@[i] == argb(tray_pixel(i / 4))[i % 4],
{
    let mut data: Vec<u8> = Vec::new();
    let mut p: i32 = 0;
    while p < 256
        invariant
            0 <= p <= 256,
            data@.len() == 4 * p,
            forall|i: int|
                0 <= i < data@.len() ==> #[trigger] data@[i] == argb(tray_pixel(i / 4))[i % 4],
        decreases 256 - p,
    {
        let pixel = find_pixel(p % 16, p / 16, 16, 13, 8, 11);
        assert(pixel == tray_pixel(p as int));
        let ghost before = data@;
        match pixel {
            Pixel::Bar => push_pixel(&mut data, 255, 255, 255, 255),
            Pixel::Dot => push_pixel(&mut data, 255, 110, 70, 160),
            Pixel::Outside => push_pixel(&mut data, 0, 0, 0, 0),
        }
        assert(data@ =~= before + argb(pixel));
        assert forall|i: int| 0 <= i < data@.len() implies #[trigger] data@[i] == argb(
            tray_pixel(i / 4),
        )[i % 4] by {
            if i < before.len() {
                assert(data@[i] == before[i]);
            } else {
                assert(i / 4 == p as int && i % 4 == i - before.len());
            }
        }
        p += 1;
    }
    data
}

/// The window icon: 32 by 32 pixels, four bytes each, opacity last.
pub fn window_icon() -> (r: Vec<u8>)
    ensures
        r@.len() == 4 * 32 * 32,
        forall|i: int| 0 <= i < r@.len() ==> #[trigger] r@[i] == rgba(window_pixel(i / 4))[i % 4],
{
    let mut data: Vec<u8> = Vec::new();
    let mut p: i32 = 0;
    while p < 1024
        invariant
            0 <= p <= 1024,
            data@.len() == 4 * p,
            forall|i: int|
                0 <= i < data@.len() ==> #[trigger] data@[i] == rgba(window_pixel(i / 4))[i % 4],
        decreases 1024 - p,
    {
        let pixel = find_pixel(p % 32, p / 32, 32, 27, 17, 23);
        assert(pixel == window_pixel(p as int));
        let ghost before = data@;
        match pixel {
            Pixel::Bar => push_pixel(&mut data, 255, 255, 255, 255),
            Pixel::Dot => push_pixel(&mut data, 110, 70, 160, 255),
            Pixel::Outside => push_pixel(&mut data, 0, 0, 0, 0),
        }
        assert(data@ =~= before + rgba(pixel));
        assert forall|i: int| 0 <= i < data@.len() implies #[trigger] data@[i] == rgba(
            window_pixel(i / 4),
        )[i % 4] by {
            if i < before.len() {
                assert(data@[i] == before[i]);
            } else {
                assert(i / 4 == p as int && i % 4 == i - before.len());
            }
        }
        p += 1;
    }
    data
}

/// The icon is a round dot with a bar across it: a pixel lies outside exactly where
/// it is farther from the middle than half the width, and the bar is what lies
/// inside between its top and its bottom.
pub proof fn the_icon_is_a_dot_with_a_bar(
    x: int,
    y: int,
    size: int,
    width: int,
    top: int,
    bottom: int,
)
    ensures
        pixel_at(x, y, size, width, top, bottom) == Pixel::Outside <==> (2 * x - size + 1) * (2 * x
            - size + 1) + (2 * y - size + 1) * (2 * y - size + 1) > width * width,
        pixel_at(x, y, size, width, top, bottom) == pixel_at(
            size - 1 - x,
            y,
            size,
            width,
            top,
            bottom,
        ),
        pixel_at(x, y, size, width, top, bottom) == Pixel::Bar ==> top <= y <= bottom,
        pixel_at(x, y, size, width, top, bottom) == Pixel::Dot ==> y < top || bottom < y,
{
    let dx = 2 * x - (size - 1);
    let mirrored = 2 * (size - 1 - x) - (size - 1);
    assert(mirrored == -dx);
    assert((-dx) * (-dx) == dx * dx) by (nonlinear_arith);
}

/// Both icons have the same colours, with the opacity first or last: what lies
/// outside is not seen at all, everything else is solid, and the bar is white.
pub proof fn icons_agree_on_colours(pixel: Pixel)
    ensures
        argb(pixel).len() == 4 && rgba(pixel).len() == 4,
        rgba(pixel) == argb(pixel).drop_first().push(argb(pixel)[0]),
        pixel == Pixel::Outside <==> argb(pixel)[0] == 0,
        pixel != Pixel::Outside <==> argb(pixel)[0] == 255,
        pixel == Pixel::Bar <==> argb(pixel) == seq![255u8, 255u8, 255u8, 255u8],
{
    assert(rgba(pixel) =~= argb(pixel).drop_first().push(argb(pixel)[0]));
    if pixel == Pixel::Dot {
        assert(argb(pixel)[1] == 110);
    }
}

/// The tray icon is drawn row by row: a dot that leaves about a pixel free on
/// every side, with a bar over four rows below its middle.
pub proof fn the_tray_icon_is_drawn_row_by_row(x: int, y: int)
    requires
        0 <= x < 16,
        0 <= y < 16,
    ensures
        ({
            let far = (2 * x - 15) * (2 * x - 15) + (2 * y - 15) * (2 * y - 15);
            let pixel = tray_pixel(16 * y + x);
            &&& pixel == Pixel::Outside <==> far > 169
            &&& pixel == Pixel::Bar <==> far <= 169 && 8 <= y <= 11
        }),
{
    assert((16 * y + x) % 16 == x && (16 * y + x) / 16 == y);
}

/// The window icon is drawn the same way, twice as large.
pub proof fn the_window_icon_is_drawn_row_by_row(x: int, y: int)
    requires
        0 <= x < 32,
        0 <= y < 32,
    ensures
        ({
            let far = (2 * x - 31) * (2 * x - 31) + (2 * y - 31) * (2 * y - 31);
            let pixel = window_pixel(32 * y + x);
            &&& pixel == Pixel::Outside <==> far > 729
            &&& pixel == Pixel::Bar <==> far <= 729 && 17 <= y <= 23
        }),
{
    assert((32 * y + x) % 32 == x && (32 * y + x) / 32 == y);
}

} // verus!
