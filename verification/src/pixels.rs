//! Images as the networks take them: one plane per colour channel.

use vstd::prelude::*;
use crate::error::Error;

verus! {

/// Row `y` of the plane of colour channel `channel`: the channel's value of
/// each pixel of the image's row, and 0 beyond the image.
pub open spec fn plane_row(
    pixels: Seq<u8>,
    width: int,
    height: int,
    canvas: int,
    channel: int,
    y: int,
) -> Seq<u8> {
    Seq::new(
        canvas as nat,
        |x: int|
            if x < width && y < height {
                pixels[(y * width + x) * 3 + channel]
            } else {
                0u8
            },
    )
}

/// The first `count` rows of the plane of colour channel `channel`.
pub open spec fn plane_rows(
    pixels: Seq<u8>,
    width: int,
    height: int,
    canvas: int,
    channel: int,
    count: nat,
) -> Seq<u8>
    decreases count,
{
    if count == 0 {
        Seq::empty()
    } else {
        plane_rows(pixels, width, height, canvas, channel, (count - 1) as nat) + plane_row(
            pixels,
            width,
            height,
            canvas,
            channel,
            count - 1,
        )
    }
}

/// The planes of the first `count` colour channels, one after the other.
pub open spec fn planes(pixels: Seq<u8>, width: int, height: int, canvas: int, count: nat) -> Seq<
    u8,
>
    decreases count,
{
    if count == 0 {
        Seq::empty()
    } else {
        planes(pixels, width, height, canvas, (count - 1) as nat) + plane_rows(
            pixels,
            width,
            height,
            canvas,
            count - 1,
            canvas as nat,
        )
    }
}

/// Whether an image of `width` by `height` pixels, three bytes each, can
/// be laid out on a square canvas of side `canvas`.
pub open spec fn fits(pixels: Seq<u8>, width: usize, height: usize, canvas: usize) -> bool {
    &&& width <= canvas
    &&& height <= canvas
    &&& pixels.len() == 3 * width * height
    &&& 3 * canvas * canvas <= usize::MAX
}

/// The planes have a row of `canvas` values for each of `canvas` rows and
/// each channel.
pub proof fn lemma_planes_len(pixels: Seq<u8>, width: int, height: int, canvas: int, count: nat)
    requires
        canvas >= 0,
    ensures
        planes(pixels, width, height, canvas, count).len() == count * canvas * canvas,
    decreases count,
{
    if count > 0 {
        lemma_planes_len(pixels, width, height, canvas, (count - 1) as nat);
        lemma_plane_rows_len(pixels, width, height, canvas, count - 1, canvas as nat);
        assert((count - 1) * canvas * canvas + canvas * canvas == count * canvas * canvas)
            by (nonlinear_arith);
    } else {
        assert(0 * canvas * canvas == 0) by (nonlinear_arith);
    }
}

proof fn lemma_plane_rows_len(
    pixels: Seq<u8>,
    width: int,
    height: int,
    canvas: int,
    channel: int,
    count: nat,
)
    requires
        canvas >= 0,
    ensures
        plane_rows(pixels, width, height, canvas, channel, count).len() == count * canvas,
    decreases count,
{
    if count > 0 {
        lemma_plane_rows_len(pixels, width, height, canvas, channel, (count - 1) as nat);
        assert((count - 1) * canvas + canvas == count * canvas) by (nonlinear_arith);
    } else {
        assert(0 * canvas == 0) by (nonlinear_arith);
    }
}

/// Lays an image out in planes, one per colour channel, on a square canvas:
/// the image in the top left corner, zeros elsewhere. `pixels` holds the
/// image row by row, three bytes per pixel. An image that does not fit the
/// canvas, or whose bytes are not three per pixel, is rejected.
pub fn channel_planes(pixels: &[u8], width: usize, height: usize, canvas: usize) -> (r: Result<
    Vec<u8>,
    Error,
>)
    ensures
        match r {
            Ok(data) => fits(pixels@, width, height, canvas) && data@ == planes(
                pixels@,
                width as int,
                height as int,
                canvas as int,
                3,
            ) && data.len() == 3 * canvas * canvas,
            Err(e) => !fits(pixels@, width, height, canvas) && e == Error::Shape,
        },
{
    if width > canvas || height > canvas {
        return Err(Error::Shape);
    }
    let plane = match canvas.checked_mul(canvas) {
        Some(n) => n,
        None => {
            assert(3 * canvas * canvas > usize::MAX) by (nonlinear_arith)
                requires
                    canvas * canvas > usize::MAX,
            ;
            return Err(Error::Shape);
        },
    };
    if plane.checked_mul(3).is_none() {
        assert(3 * canvas * canvas == plane * 3) by (nonlinear_arith)
            requires
                plane == canvas * canvas,
        ;
        return Err(Error::Shape);
    }
    assert(3 * canvas * canvas == plane * 3) by (nonlinear_arith)
        requires
            plane == canvas * canvas,
    ;
    assert(width * height <= canvas * canvas) by (nonlinear_arith)
        requires
            width <= canvas,
            height <= canvas,
    ;
    let area: usize = width * height;
    assert(3 * width * height == area * 3) by (nonlinear_arith)
        requires
            area == width * height,
    ;
    if pixels.len() != area * 3 {
        return Err(Error::Shape);
    }
    let ghost w = width as int;
    let ghost h = height as int;
    let ghost side = canvas as int;
    let mut data: Vec<u8> = Vec::new();
    let mut channel: usize = 0;
    while channel < 3
        invariant
            channel <= 3,
            width <= canvas,
            height <= canvas,
            pixels.len() == 3 * width * height,
            w == width,
            h == height,
            side == canvas,
            data@ == planes(pixels@, w, h, side, channel as nat),
        decreases 3 - channel,
    {
        let ghost done = data@;
        let mut y: usize = 0;
        while y < canvas
            invariant
                y <= canvas,
                channel < 3,
                width <= canvas,
                height <= canvas,
                pixels.len() == 3 * width * height,
                w == width,
                h == height,
                side == canvas,
                data@ == done + plane_rows(pixels@, w, h, side, channel as int, y as nat),
            decreases canvas - y,
        {
            let ghost above = data@;
            let ghost row = plane_row(pixels@, w, h, side, channel as int, y as int);
            let mut x: usize = 0;
            while x < canvas
                invariant
                    x <= canvas,
                    y < canvas,
                    channel < 3,
                    width <= canvas,
                    height <= canvas,
                    pixels.len() == 3 * width * height,
                    w == width,
                    h == height,
                    side == canvas,
                    row == plane_row(pixels@, w, h, side, channel as int, y as int),
                    data@ == above + row.take(x as int),
                decreases canvas - x,
            {
                let value: u8 = if x < width && y < height {
                    assert((y * width + x) * 3 + channel < 3 * width * height) by (nonlinear_arith)
                        requires
                            x < width,
                            y < height,
                            channel < 3,
                    ;
                    assert(y * width + x < width * height) by (nonlinear_arith)
                        requires
                            x < width,
                            y < height,
                    ;
                    assert(y * width <= width * height) by (nonlinear_arith)
                        requires
                            y < height,
                    ;
                    pixels[(y * width + x) * 3 + channel]
                } else {
                    0
                };
                data.push(value);
                x = x + 1;
                assert(data@ =~= above + row.take(x as int));
            }
            assert(row.take(canvas as int) == row);
            y = y + 1;
            assert(data@ =~= done + plane_rows(pixels@, w, h, side, channel as int, y as nat));
        }
        channel = channel + 1;
    }
    proof {
        lemma_planes_len(pixels@, w, h, side, 3);
    }
    Ok(data)
}

} // verus!
