//! The source raster: RGBA samples in row-major order.
use vstd::prelude::*;

verus! {

/// One RGBA sample of a source raster.
#[derive(Clone, Copy, Debug, PartialEq, Eq, Structural)]
pub struct Pixel {
    pub r: u8,
    pub g: u8,
    pub b: u8,
    pub a: u8,
}

/// What a raster is: its size and its samples, row-major.
pub struct RasterModel {
    pub width: nat,
    pub height: nat,
    pub pixels: Seq<Pixel>,
}

impl RasterModel {
    /// The samples cover the whole `width` x `height` area exactly.
    pub open spec fn wf(self) -> bool {
        self.pixels.len() == self.width * self.height
    }

    /// The sample at column `x` of row `y`.
    pub open spec fn pixel(self, x: int, y: int) -> Pixel {
        self.pixels[y * self.width + x]
    }
}

/// A read-only two-dimensional array of RGBA samples, stored row-major.
pub struct Raster {
    width: u32,
    height: u32,
    pixels: Vec<Pixel>,
}

impl View for Raster {
    type V = RasterModel;

    closed spec fn view(&self) -> RasterModel {
        RasterModel { width: self.width as nat, height: self.height as nat, pixels: self.pixels@ }
    }
}

/// The number of samples of a `width` x `height` raster.
fn area(width: u32, height: u32) -> (r: u64)
    ensures
        r == width * height,
{
    proof {
        assert(width * height <= u32::MAX * u32::MAX) by (nonlinear_arith)
            requires width <= u32::MAX, height <= u32::MAX;
    }
    (width as u64) * (height as u64)
}

impl Raster {
    /// The samples cover the raster's area exactly.
    pub open spec fn wf(&self) -> bool {
        self@.wf()
    }

    /// Builds a raster from its samples in row-major order; `None` when their
    /// number is not `width * height`.
    pub fn new(width: u32, height: u32, pixels: Vec<Pixel>) -> (r: Option<Raster>)
        ensures
            pixels@.len() == width * height <==> r is Some,
            r matches Some(img) ==> img.wf() && img@ == (RasterModel {
                width: width as nat,
                height: height as nat,
                pixels: pixels@,
            }),
    {
        let area: u64 = area(width, height);
        if pixels.len() as u64 == area {
            Some(Raster { width, height, pixels })
        } else {
            None
        }
    }

    /// Builds a raster from interleaved `r, g, b, a` bytes in row-major order;
    /// `None` when their number is not `4 * width * height`.
    pub fn from_rgba_bytes(width: u32, height: u32, bytes: &Vec<u8>) -> (r: Option<Raster>)
        ensures
            bytes@.len() == 4 * width * height <==> r is Some,
            r matches Some(img) ==> img.wf() && img@.width == width && img@.height == height
                && forall|i: int| 0 <= i < width * height ==> (#[trigger] img@.pixels[i]) == (Pixel {
                    r: bytes@[4 * i],
                    g: bytes@[4 * i + 1],
                    b: bytes@[4 * i + 2],
                    a: bytes@[4 * i + 3],
                }),
    {
        let area: u64 = area(width, height);
        let n: usize = bytes.len();
        proof {
            assert(4 * width * height == 4 * (width * height)) by (nonlinear_arith);
            assert(n == 4 * area <==> (n % 4 == 0 && n / 4 == area)) by (nonlinear_arith);
        }
        if n % 4 != 0 || (n / 4) as u64 != area {
            return None;
        }
        let count: usize = n / 4;
        let mut pixels: Vec<Pixel> = Vec::with_capacity(count);
        let mut i: usize = 0;
        while i < count
            invariant
                n == bytes@.len(),
                count == bytes@.len() / 4,
                bytes@.len() % 4 == 0,
                i <= count,
                pixels@.len() == i,
                forall|j: int| 0 <= j < i ==> (#[trigger] pixels@[j]) == (Pixel {
                    r: bytes@[4 * j],
                    g: bytes@[4 * j + 1],
                    b: bytes@[4 * j + 2],
                    a: bytes@[4 * j + 3],
                }),
            decreases count - i,
        {
            proof {
                assert(4 * i + 3 < n) by (nonlinear_arith)
                    requires i < count, count == n / 4, n % 4 == 0;
            }
            let k: usize = 4 * i;
            pixels.push(Pixel { r: bytes[k], g: bytes[k + 1], b: bytes[k + 2], a: bytes[k + 3] });
            i = i + 1;
        }
        Some(Raster { width, height, pixels })
    }

    pub fn width(&self) -> (r: u32)
        ensures
            r == self@.width,
    {
        self.width
    }

    pub fn height(&self) -> (r: u32)
        ensures
            r == self@.height,
    {
        self.height
    }

    /// The sample at column `x` of row `y`.
    pub fn pixel(&self, x: u32, y: u32) -> (r: Pixel)
        requires
            self.wf(),
            x < self@.width,
            y < self@.height,
        ensures
            r == self@.pixel(x as int, y as int),
    {
        proof {
            let w = self.width as int;
            let h = self.height as int;
            assert(y * w + x < w * h) by (nonlinear_arith)
                requires 0 <= x < w, 0 <= y < h;
            assert(y * w + x <= u32::MAX * u32::MAX) by (nonlinear_arith)
                requires 0 <= x < w, 0 <= y < h, w <= u32::MAX, h <= u32::MAX;
        }
        let index: u64 = (y as u64) * (self.width as u64) + (x as u64);
        let n: usize = self.pixels.len();
        assert(index < n);
        self.pixels[index as usize]
    }
}

} // verus!
