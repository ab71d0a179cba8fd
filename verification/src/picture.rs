//! Pixel buffers, and what the `image` crate does to them.

use vstd::prelude::*;
use crate::size::Size;

verus! {

/// An image of 8-bit RGBA pixels, row by row from the top left.
#[derive(Debug)]
pub struct Picture {
    width: u32,
    height: u32,
    data: Vec<u8>,
}

/// What a `Picture` holds, as plain values.
pub struct PictureView {
    pub width: int,
    pub height: int,
    pub data: Seq<u8>,
}

impl PictureView {
    /// There are four bytes for every pixel, and no more.
    pub open spec fn wf(self) -> bool {
        &&& 0 <= self.width <= u32::MAX
        &&& 0 <= self.height <= u32::MAX
        &&& self.data.len() == self.width * self.height * 4
    }

    /// Where channel `c` of the pixel in column `x` of row `y` lies in `data`.
    pub open spec fn offset(self, x: int, y: int, c: int) -> int {
        (y * self.width + x) * 4 + c
    }

    /// Channel `c` of the pixel in column `x` of row `y`.
    pub open spec fn channel(self, x: int, y: int, c: int) -> u8 {
        self.data[self.offset(x, y, c)]
    }

    /// The column of the pixel that byte `i` of `data` belongs to.
    pub open spec fn column_of(self, i: int) -> int {
        (i / 4) % self.width
    }

    /// The row of the pixel that byte `i` of `data` belongs to.
    pub open spec fn row_of(self, i: int) -> int {
        (i / 4) / self.width
    }

    /// A picture of this size with every byte zero.
    pub open spec fn blank(width: int, height: int) -> PictureView {
        PictureView { width, height, data: Seq::new((width * height * 4) as nat, |i: int| 0u8) }
    }
}

/// The bytes of `dst` after `src` was copied into it with its top left corner
/// at column `x` of row `y`: inside that rectangle the pixels of `src`,
/// outside it those of `dst`.
pub open spec fn spec_blit(dst: PictureView, src: PictureView, x: int, y: int) -> Seq<u8> {
    Seq::new(
        dst.data.len(),
        |i: int|
            {
                let px = dst.column_of(i);
                let py = dst.row_of(i);
                if x <= px < x + src.width && y <= py < y + src.height {
                    src.channel(px - x, py - y, i % 4)
                } else {
                    dst.data[i]
                }
            },
    )
}

/// The formats that a still image may be in.
#[derive(Clone, Copy, Debug, PartialEq, Eq, Structural)]
pub enum StillFormat {
    Jpeg,
    Png,
}

/// One decoded frame of an animation, and how long it is shown, in
/// milliseconds.
#[derive(Debug)]
pub struct AnimationFrame {
    pub picture: Picture,
    pub delay_ms: u32,
}

/// What an `AnimationFrame` holds, as plain values.
pub struct FrameView {
    pub picture: PictureView,
    pub delay_ms: int,
}

impl View for AnimationFrame {
    type V = FrameView;

    open spec fn view(&self) -> FrameView {
        FrameView { picture: self.picture@, delay_ms: self.delay_ms as int }
    }
}

/// `image::ImageError`, what the codecs of the `image` crate fail with.
/// Nothing is known of what is inside.
#[verifier::external_type_specification]
#[verifier::external_body]
pub struct ExImageError(image::ImageError);

/// The picture that the `image` crate decodes from the bytes of a file in
/// the given format; `None` where it rejects them.
pub uninterp spec fn still_decoding(bytes: Seq<u8>, format: StillFormat) -> Option<PictureView>;

/// The frames that the `image` crate decodes from the bytes of a GIF file;
/// `None` where it rejects them.
pub uninterp spec fn animation_decoding(bytes: Seq<u8>) -> Option<Seq<FrameView>>;

/// The bytes of the picture that the `image` crate samples from `src` at
/// another size, each pixel from the nearest one.
pub uninterp spec fn nearest_resampling(src: PictureView, width: int, height: int) -> Seq<u8>;

impl View for Picture {
    type V = PictureView;

    closed spec fn view(&self) -> PictureView {
        PictureView { width: self.width as int, height: self.height as int, data: self.data@ }
    }
}

impl Picture {
    #[verifier::type_invariant]
    spec fn valid(self) -> bool {
        self@.wf()
    }

    /// The picture of the given size over `data`, where `data` has four
    /// bytes for each of its pixels and no more.
    pub fn from_rgba(width: u32, height: u32, data: Vec<u8>) -> (r: Option<Picture>)
        ensures
            r is Some <==> data.len() == width * height * 4,
            r matches Some(p) ==> p@ == (PictureView {
                width: width as int,
                height: height as int,
                data: data@,
            }),
    {
        proof {
            vstd::arithmetic::mul::lemma_mul_upper_bound(
                width as int,
                u32::MAX as int,
                height as int,
                u32::MAX as int,
            );
        }
        let pixels: u64 = width as u64 * height as u64;
        if pixels > (u64::MAX / 4) || data.len() as u64 != pixels * 4 {
            return None;
        }
        Some(Picture { width, height, data })
    }

    pub fn width(&self) -> (r: u32)
        ensures
            r == self@.width,
            self@.wf(),
    {
        proof {
            use_type_invariant(self);
        }
        self.width
    }

    pub fn height(&self) -> (r: u32)
        ensures
            r == self@.height,
            self@.wf(),
    {
        proof {
            use_type_invariant(self);
        }
        self.height
    }

    pub fn size(&self) -> (r: Size)
        ensures
            r.width == self@.width,
            r.height == self@.height,
            self@.wf(),
    {
        proof {
            use_type_invariant(self);
        }
        Size { width: self.width, height: self.height }
    }

    /// The bytes of the pixels, row by row.
    pub fn as_bytes(&self) -> (r: &Vec<u8>)
        ensures
            r@ == self@.data,
            self@.wf(),
    {
        proof {
            use_type_invariant(self);
        }
        &self.data
    }

    /// The bytes of the pixels, row by row.
    pub fn into_bytes(self) -> (r: Vec<u8>)
        ensures
            r@ == self@.data,
            self@.wf(),
    {
        proof {
            use_type_invariant(&self);
        }
        self.data
    }

    /// A picture of the given size with every byte zero: transparent black.
    ///
    /// Trusted: calls `image::ImageBuffer::new`, which allocates a zeroed
    /// buffer of four bytes a pixel and panics where that many bytes
    /// cannot be allocated.
    #[verifier::external_body]
    pub(crate) fn blank(size: Size) -> (r: Picture)
        requires
            size.width * size.height * 4 <= isize::MAX,
        ensures
            r@ == PictureView::blank(size.width as int, size.height as int),
    {
        let buffer = image::RgbaImage::new(size.width, size.height);
        Picture { width: size.width, height: size.height, data: buffer.into_raw() }
    }

    /// Decodes a still image from the bytes of a file.
    ///
    /// Trusted: calls `image::load_from_memory_with_format` and turns what
    /// it gives into 8-bit RGBA with `DynamicImage::into_rgba8`. The result
    /// depends on the bytes and the format alone, so it has a name; the
    /// buffer has four bytes for each pixel.
    #[verifier::external_body]
    pub(crate) fn decode_still(bytes: &Vec<u8>, format: StillFormat) -> (r: Result<
        Picture,
        image::ImageError,
    >)
        ensures
            r is Ok <==> still_decoding(bytes@, format) is Some,
            r matches Ok(p) ==> Some(p@) == still_decoding(bytes@, format) && p@.wf(),
    {
        let outside = match format {
            StillFormat::Jpeg => image::ImageFormat::Jpeg,
            StillFormat::Png => image::ImageFormat::Png,
        };
        let buffer = image::load_from_memory_with_format(bytes.as_slice(), outside)?.into_rgba8();
        Ok(Picture { width: buffer.width(), height: buffer.height(), data: buffer.into_raw() })
    }

    /// Decodes every frame of an animation from the bytes of a GIF file.
    ///
    /// Trusted: calls `image::codecs::gif::GifDecoder::new`,
    /// `AnimationDecoder::into_frames` and `Frames::collect_frames`, and
    /// takes from each frame its RGBA buffer and the numerator of its delay
    /// in milliseconds. The result depends on the bytes alone, so it has a
    /// name; each buffer has four bytes for each pixel.
    #[verifier::external_body]
    pub(crate) fn decode_animation(bytes: &Vec<u8>) -> (r: Result<
        Vec<AnimationFrame>,
        image::ImageError,
    >)
        ensures
            r is Ok <==> animation_decoding(bytes@) is Some,
            r matches Ok(frames) ==> {
                &&& Some(frames@.map_values(|f: AnimationFrame| f@)) == animation_decoding(bytes@)
                &&& forall|i: int| 0 <= i < frames.len() ==> (#[trigger] frames[i]).picture@.wf()
            },
    {
        let reader = std::io::Cursor::new(bytes.as_slice());
        let decoder = image::codecs::gif::GifDecoder::new(reader)?;
        let frames = image::AnimationDecoder::into_frames(decoder).collect_frames()?;
        Ok(frames.into_iter().map(|frame| {
            let delay_ms = frame.delay().numer_denom_ms().0;
            let buffer = frame.into_buffer();
            let (width, height) = buffer.dimensions();
            AnimationFrame { picture: Picture { width, height, data: buffer.into_raw() }, delay_ms }
        }).collect())
    }

    /// This picture at another size, each pixel taken from the nearest one.
    ///
    /// Trusted: calls `image::imageops::resize` with `FilterType::Nearest`,
    /// which gives a buffer of exactly the size asked for. Its result
    /// depends on the pixels and the two sizes alone, so it has a name. On
    /// the way it allocates 16 bytes for each pixel of an image as wide as
    /// this one and as high as the new one, and panics where that cannot be
    /// allocated.
    #[verifier::external_body]
    pub(crate) fn resample(&self, size: Size) -> (r: Picture)
        requires
            self@.width * size.height * 16 <= isize::MAX,
            size.width * size.height * 4 <= isize::MAX,
        ensures
            r@ == (PictureView {
                width: size.width as int,
                height: size.height as int,
                data: nearest_resampling(self@, size.width as int, size.height as int),
            }),
            r@.wf(),
    {
        let source = image::ImageBuffer::<image::Rgba<u8>, &[u8]>::from_raw(
            self.width,
            self.height,
            self.data.as_slice(),
        ).unwrap();
        let filter = image::imageops::FilterType::Nearest;
        let buffer = image::imageops::resize(&source, size.width, size.height, filter);
        Picture { width: size.width, height: size.height, data: buffer.into_raw() }
    }

    /// Copies `src` into this picture, its top left corner at column `x` of
    /// row `y`.
    ///
    /// Trusted: calls `image::GenericImage::copy_from`, which replaces the
    /// pixels of that rectangle by those of `src` and leaves the others, and
    /// fails only where the rectangle does not lie inside this picture.
    #[verifier::external_body]
    pub(crate) fn blit(&mut self, src: &Picture, x: u32, y: u32)
        requires
            x + src@.width <= old(self)@.width,
            y + src@.height <= old(self)@.height,
        ensures
            final(self)@ == (PictureView {
                data: spec_blit(old(self)@, src@, x as int, y as int),
                ..old(self)@
            }),
    {
        let data = std::mem::take(&mut self.data);
        let mut canvas = image::RgbaImage::from_raw(self.width, self.height, data).unwrap();
        let tile = image::ImageBuffer::<image::Rgba<u8>, &[u8]>::from_raw(
            src.width,
            src.height,
            src.data.as_slice(),
        ).unwrap();
        image::GenericImage::copy_from(&mut canvas, &tile, x, y).unwrap();
        self.data = canvas.into_raw();
    }
}

} // verus!
