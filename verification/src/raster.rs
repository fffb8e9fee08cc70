use crate::keyframe::Keyframe;
use crate::pixel::{Pixel, OPAQUE};
use vstd::prelude::*;

verus! {

/// `pixel` is the pixel of column `x` in row `y`: the colour that `shade`
/// returns for that position, made fully opaque.
pub open spec fn is_shaded<V, S: Fn(&V, u32, u32, u32, u32) -> Pixel>(
    width: u32,
    height: u32,
    viewport: V,
    shade: &S,
    x: u32,
    y: u32,
    pixel: Pixel,
) -> bool {
    exists|shaded: Pixel| #[trigger]
        shade.ensures((&viewport, x, y, width, height), shaded) && pixel == shaded.opaque()
}

/// `pixels` is a rendering of `viewport` at `width` x `height`: row-major,
/// row 0 first, every pixel opaque, and the pixel of column `x` in row `y`
/// has the colour that `shade` returns for that position.
pub open spec fn is_drawing<V, S: Fn(&V, u32, u32, u32, u32) -> Pixel>(
    width: u32,
    height: u32,
    viewport: V,
    shade: &S,
    pixels: Seq<Pixel>,
) -> bool {
    &&& pixels.len() == width * height
    &&& forall|i: int| 0 <= i < pixels.len() ==> (#[trigger] pixels[i]).a == OPAQUE
    &&& forall|x: u32, y: u32|
        x < width && y < height ==> is_shaded(
            width,
            height,
            viewport,
            shade,
            x,
            y,
            #[trigger] pixels[y * width + x],
        )
}

/// Rasterises one frame: every pixel of the `width` x `height` grid, row by
/// row, each shaded on its own. Whatever alpha `shade` returns, the pixel
/// that is stored is opaque.
pub fn draw_frame<V, S: Fn(&V, u32, u32, u32, u32) -> Pixel>(
    width: u32,
    height: u32,
    keyframe: &Keyframe<V>,
    shade: &S,
) -> (pixels: Vec<Pixel>)
    requires
        forall|x: u32, y: u32|
            x < width && y < height ==> #[trigger] shade.requires(
                (&keyframe.viewport, x, y, width, height),
            ),
    ensures
        is_drawing(width, height, keyframe.viewport, shade, pixels@),
{
    let mut pixels: Vec<Pixel> = Vec::new();
    let mut y: u32 = 0;
    while y < height
        invariant
            y <= height,
            pixels@.len() == y * width,
            forall|x: u32, y: u32|
                x < width && y < height ==> #[trigger] shade.requires(
                    (&keyframe.viewport, x, y, width, height),
                ),
            forall|i: int| 0 <= i < pixels@.len() ==> (#[trigger] pixels@[i]).a == OPAQUE,
            forall|a: u32, b: u32|
                a < width && b < y ==> is_shaded(
                    width,
                    height,
                    keyframe.viewport,
                    shade,
                    a,
                    b,
                    #[trigger] pixels@[b * width + a],
                ),
        decreases height - y,
    {
        let ghost rows = pixels@;
        let mut x: u32 = 0;
        while x < width
            invariant
                y < height,
                x <= width,
                rows.len() == y * width,
                pixels@.len() == y * width + x,
                forall|x: u32, y: u32|
                    x < width && y < height ==> #[trigger] shade.requires(
                        (&keyframe.viewport, x, y, width, height),
                    ),
                forall|i: int| 0 <= i < pixels@.len() ==> (#[trigger] pixels@[i]).a == OPAQUE,
                forall|k: int| 0 <= k < rows.len() ==> #[trigger] pixels@[k] == rows[k],
                forall|a: u32|
                    a < x ==> is_shaded(
                        width,
                        height,
                        keyframe.viewport,
                        shade,
                        a,
                        y,
                        #[trigger] pixels@[y * width + a],
                    ),
            decreases width - x,
        {
            let shaded = shade(&keyframe.viewport, x, y, width, height);
            let pixel = Pixel::from_rgb(shaded.r, shaded.g, shaded.b);
            assert(is_shaded(width, height, keyframe.viewport, shade, x, y, pixel));
            pixels.push(pixel);
            x = x + 1;
        }
        proof {
            assert((y + 1) * width == y * width + width) by (nonlinear_arith);
            assert forall|a: u32, b: u32| a < width && b < y + 1 implies is_shaded(
                width,
                height,
                keyframe.viewport,
                shade,
                a,
                b,
                #[trigger] pixels@[b * width + a],
            ) by {
                if b < y {
                    assert(b * width + a < y * width) by (nonlinear_arith)
                        requires
                            a < width,
                            b < y,
                    ;
                    assert(pixels@[b * width + a] == rows[b * width + a]);
                }
            }
        }
        y = y + 1;
    }
    assert(height * width == width * height) by (nonlinear_arith);
    pixels
}

} // verus!
