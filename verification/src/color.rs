use vstd::prelude::*;
use crate::bitmap::{pixel_in, Bitmap, Pixel};

verus! {

/// A pixel mixed half and half with a colour, each channel halved before it
/// is added; the result is opaque.
pub open spec fn blended(p: Pixel, color: [u8; 3]) -> Pixel {
    (
        (p.0 / 2 + color[0] / 2) as u8,
        (p.1 / 2 + color[1] / 2) as u8,
        (p.2 / 2 + color[2] / 2) as u8,
        255u8,
    )
}

/// Mixes every pixel of an image half and half with a colour.
pub fn blend(image: &Bitmap, color: [u8; 3]) -> (out: Bitmap)
    requires
        image.wf(),
    ensures
        out.wf(),
        out.width == image.width,
        out.height == image.height,
        forall|x: int, y: int|
            0 <= x < image.width && 0 <= y < image.height ==> #[trigger] out.pixel(x, y)
                == blended(image.pixel(x, y), color),
{
    let mut data: Vec<u8> = Vec::new();
    let total = image.data.len();
    let mut at: usize = 0;
    proof {
        let pixels = image.width as int * image.height as int;
        assert(total == pixels * 4);
    }
    while at < total
        invariant
            total == image.data@.len(),
            at <= total,
            at % 4 == 0,
            total % 4 == 0,
            data@.len() == at,
            forall|q: int|
                0 <= q && q * 4 < at ==> (
                    #[trigger] data@[q * 4],
                    data@[q * 4 + 1],
                    data@[q * 4 + 2],
                    data@[q * 4 + 3],
                ) == blended(
                    (
                        image.data@[q * 4],
                        image.data@[q * 4 + 1],
                        image.data@[q * 4 + 2],
                        image.data@[q * 4 + 3],
                    ),
                    color,
                ),
        decreases total - at,
    {
        let ghost before = data@;
        data.push(image.data[at] / 2 + color[0] / 2);
        data.push(image.data[at + 1] / 2 + color[1] / 2);
        data.push(image.data[at + 2] / 2 + color[2] / 2);
        data.push(255u8);
        proof {
            assert forall|q: int| 0 <= q && q * 4 < at + 4 implies (
                #[trigger] data@[q * 4],
                data@[q * 4 + 1],
                data@[q * 4 + 2],
                data@[q * 4 + 3],
            ) == blended(
                (
                    image.data@[q * 4],
                    image.data@[q * 4 + 1],
                    image.data@[q * 4 + 2],
                    image.data@[q * 4 + 3],
                ),
                color,
            ) by {
                if q * 4 < at {
                    assert(data@[q * 4] == before[q * 4]);
                } else {
                    assert(q * 4 == at);
                }
            }
        }
        at = at + 4;
    }
    let out = Bitmap { width: image.width, height: image.height, data };
    proof {
        let w = image.width as int;
        let h = image.height as int;
        assert(total == w * h * 4);
        assert(at == total);
        assert forall|x: int, y: int| 0 <= x < w && 0 <= y < h implies #[trigger] out.pixel(x, y)
            == blended(image.pixel(x, y), color) by {
            let q = y * w + x;
            assert(0 <= q && q * 4 < w * h * 4) by (nonlinear_arith)
                requires
                    q == y * w + x,
                    0 <= x < w,
                    0 <= y < h,
            ;
            assert(out.pixel(x, y) == pixel_in(out.data@, w, x, y));
            assert(image.pixel(x, y) == pixel_in(image.data@, w, x, y));
            assert(data@[q * 4] == data@[q * 4]);
        }
    }
    out
}

} // verus!
