use vstd::prelude::*;
use image::RgbImage;
use crate::color::Color;

verus! {

/// A read-only RGB image used as a texture.
#[verifier::external_body]
pub struct Texture {
    img: RgbImage,
}

/// The pixels of a texture, keyed by column and row.
pub uninterp spec fn texels(t: Texture) -> Map<(u32, u32), (u8, u8, u8)>;

/// Width and height of a texture.
pub uninterp spec fn dimensions(t: Texture) -> (u32, u32);

pub open spec fn texel_color(t: Texture, x: u32, y: u32) -> Color {
    let p = texels(t)[(x, y)];
    Color { r: p.0, g: p.1, b: p.2 }
}

pub open spec fn nonempty(t: Texture) -> bool {
    dimensions(t).0 >= 1 && dimensions(t).1 >= 1
}

impl Texture {
    /// A texture `width` by `height` from `data`, which holds the rows top to
    /// bottom, three bytes (red, green, blue) per pixel; `None` when `data` is
    /// too short.
    pub fn new(width: u32, height: u32, data: Vec<u8>) -> (r: Option<Texture>)
        ensures
            r is Some <==> 3 * width * height <= data@.len(),
            r is Some ==> dimensions(r->0) == (width, height),
            r is Some ==> forall|x: u32, y: u32|
                x < width && y < height ==> #[trigger] texel_color(r->0, x, y) == (Color {
                    r: data@[3 * (y * width + x)],
                    g: data@[3 * (y * width + x) + 1],
                    b: data@[3 * (y * width + x) + 2],
                }),
    {
        assert((width as u128) * (height as u128) <= 0xffff_ffff_ffff_ffff) by (nonlinear_arith)
            requires width <= 0xffff_ffff, height <= 0xffff_ffff;
        let needed: u128 = 3 * ((width as u128) * (height as u128));
        assert(needed == 3 * width * height) by (nonlinear_arith)
            requires needed == 3 * ((width as int) * (height as int));
        if needed > data.len() as u128 {
            return None;
        }
        let r = Texture::from_raw(width, height, data);
        r
    }

    /// Relies on `ImageBuffer::from_raw`: `data` holds the rows top to bottom,
    /// three bytes per pixel; `None` when it is shorter than `3 * width * height`.
    #[verifier::external_body]
    fn from_raw(width: u32, height: u32, data: Vec<u8>) -> (r: Option<Texture>)
        ensures
            r is Some <==> 3 * width * height <= data@.len(),
            r is Some ==> dimensions(r->0) == (width, height),
            r is Some ==> forall|x: u32, y: u32|
                x < width && y < height ==> #[trigger] texels(r->0)[(x, y)] == (
                    data@[3 * (y * width + x)],
                    data@[3 * (y * width + x) + 1],
                    data@[3 * (y * width + x) + 2],
                ),
    {
        match RgbImage::from_raw(width, height, data) {
            Some(img) => Some(Texture { img }),
            None => None,
        }
    }

    /// Relies on `ImageBuffer::width`: the number of columns.
    #[verifier::external_body]
    pub(crate) fn width(&self) -> (r: u32)
        ensures
            r == dimensions(*self).0,
    {
        self.img.width()
    }

    /// Relies on `ImageBuffer::height`: the number of rows.
    #[verifier::external_body]
    pub(crate) fn height(&self) -> (r: u32)
        ensures
            r == dimensions(*self).1,
    {
        self.img.height()
    }

    /// Relies on `ImageBuffer::get_pixel`: the pixel at column `x`, row `y`,
    /// which panics outside the image.
    #[verifier::external_body]
    pub(crate) fn texel(&self, x: u32, y: u32) -> (r: Color)
        requires
            x < dimensions(*self).0,
            y < dimensions(*self).1,
        ensures
            (r.r, r.g, r.b) == texels(*self)[(x, y)],
    {
        let p = self.img.get_pixel(x, y);
        Color { r: p[0], g: p[1], b: p[2] }
    }
}

} // verus!
