//! From the bytes of a file to an asset that can be shown.

use vstd::prelude::*;
use crate::atlas::{
    cap_size, exceeds_usable, fit_frame_size, lemma_fit_within, lemma_plan_within_limits,
    plan_atlas, spec_cap_size, spec_fit_frame_size, spec_plan_atlas, AtlasError, AtlasLayout,
    LayoutView, Limits, LimitsView,
};
use crate::delay::Millis;
use crate::pack::{frames_match, pack_frames, spec_pack, views};
use crate::picture::{
    animation_decoding, nearest_resampling, still_decoding, AnimationFrame, FrameView, Picture,
    PictureView, StillFormat,
};
use crate::scan::{
    spec_supported_extension, supported_extension, CandidateKind, CandidatePath, Extension,
};
use crate::size::Size;

verus! {

/// How long the one frame is shown that stands for an animation whose frames
/// did not fit in a texture: 99999 seconds, in milliseconds.
pub const STILL_FRAME_DELAY_MS: u64 = 99_999_000;

/// Why a file gave no asset.
#[derive(Clone, Copy, Debug, PartialEq, Eq, Structural)]
pub enum DecodeError {
    /// The file could not be read.
    Unreadable,
    /// The codec rejected the bytes.
    Malformed,
    /// The file's extension names no format that is loaded.
    Unsupported,
    /// The animation has no frame.
    NoFrames,
    /// The first frame of the animation has no pixels.
    EmptyImage,
    /// A buffer that is needed on the way cannot be allocated on this
    /// machine, or there are more frames than a `u32` counts.
    TooLarge,
}

/// What the loader hands over for one file, and at the end of a scan.
#[derive(Debug)]
pub enum DecodedAsset {
    Static { path: String, pixels: Picture },
    Animated {
        path: String,
        atlas_pixels: Picture,
        layout: AtlasLayout,
        per_frame_delay: Vec<Millis>,
    },
    ScanComplete,
}

/// What a `DecodedAsset` holds, as plain values.
pub enum AssetView {
    Static { path: Seq<char>, pixels: PictureView },
    Animated {
        path: Seq<char>,
        atlas_pixels: PictureView,
        layout: LayoutView,
        per_frame_delay: Seq<Millis>,
    },
    ScanComplete,
}

impl View for DecodedAsset {
    type V = AssetView;

    open spec fn view(&self) -> AssetView {
        match *self {
            DecodedAsset::Static { path, pixels } => AssetView::Static {
                path: path@,
                pixels: pixels@,
            },
            DecodedAsset::Animated {
                path,
                atlas_pixels,
                layout,
                per_frame_delay,
            } => AssetView::Animated {
                path: path@,
                atlas_pixels: atlas_pixels@,
                layout: layout@,
                per_frame_delay: per_frame_delay@,
            },
            DecodedAsset::ScanComplete => AssetView::ScanComplete,
        }
    }
}

/// Whether a picture `src_width` wide can be sampled at the size `target` on
/// this machine: the sampler needs 16 bytes for each pixel of a picture as
/// wide as the source and as high as the target, and 4 for each pixel of the
/// target.
pub open spec fn spec_can_resample(src_width: int, target: Size) -> bool {
    &&& src_width * target.height * 16 <= isize::MAX
    &&& target.width * target.height * 4 <= isize::MAX
}

/// `src` sampled at the size `target`.
pub open spec fn spec_resampled(src: PictureView, target: Size) -> PictureView {
    PictureView {
        width: target.width as int,
        height: target.height as int,
        data: nearest_resampling(src, target.width as int, target.height as int),
    }
}

/// The size as a `Size`.
pub open spec fn size_of(width: int, height: int) -> Size {
    Size { width: width as u32, height: height as u32 }
}

/// A still image as it is handed over: sampled at the capped size where a
/// side is over its usable limit, else as it is.
pub open spec fn spec_shrink_still(picture: PictureView, limits: LimitsView) -> Result<
    PictureView,
    DecodeError,
> {
    let size = size_of(picture.width, picture.height);
    let target = size_of(spec_cap_size(size, limits).0, spec_cap_size(size, limits).1);
    if picture.width <= limits.max_usable_width && picture.height <= limits.max_usable_height {
        Ok(picture)
    } else if spec_can_resample(picture.width, target) {
        Ok(spec_resampled(picture, target))
    } else {
        Err(DecodeError::TooLarge)
    }
}

/// Every frame sampled at the size `cell`.
pub open spec fn spec_resized_frames(frames: Seq<FrameView>, cell: Size) -> Seq<PictureView> {
    frames.map_values(|f: FrameView| spec_resampled(f.picture, cell))
}

/// The delay of every frame.
pub open spec fn spec_delays(frames: Seq<FrameView>) -> Seq<Millis> {
    frames.map_values(|f: FrameView| Millis(f.delay_ms as u64))
}

/// Every frame can be sampled at the size `cell`.
pub open spec fn all_can_resample(frames: Seq<FrameView>, cell: Size) -> bool {
    forall|j: int|
        0 <= j < frames.len() ==> spec_can_resample((#[trigger] frames[j]).picture.width, cell)
}

/// The asset that the frames of an animation give. The first frame's size,
/// fitted to the usable limits, is the size of a cell. Where the grid of all
/// frames fits in a texture, every frame is sampled at that size and packed.
/// Where it does not, the first frame alone is kept, as an animation of one
/// frame.
pub open spec fn spec_build_animation(path: Seq<char>, frames: Seq<FrameView>, limits: LimitsView) -> Result<
    AssetView,
    DecodeError,
> {
    if frames.len() == 0 {
        Err(DecodeError::NoFrames)
    } else if frames[0].picture.width == 0 || frames[0].picture.height == 0 {
        Err(DecodeError::EmptyImage)
    } else if frames.len() > u32::MAX {
        Err(DecodeError::TooLarge)
    } else {
        let first = size_of(frames[0].picture.width, frames[0].picture.height);
        let fitted = spec_fit_frame_size(first, limits);
        let cell = size_of(fitted.0, fitted.1);
        match spec_plan_atlas(frames.len() as int, cell, limits) {
            Ok(layout) => if all_can_resample(frames, cell) {
                Ok(
                    AssetView::Animated {
                        path,
                        atlas_pixels: spec_pack(spec_resized_frames(frames, cell), layout),
                        layout,
                        per_frame_delay: spec_delays(frames),
                    },
                )
            } else {
                Err(DecodeError::TooLarge)
            },
            Err(_) => if spec_can_resample(frames[0].picture.width, cell) {
                Ok(
                    AssetView::Animated {
                        path,
                        atlas_pixels: spec_resampled(frames[0].picture, cell),
                        layout: LayoutView::single(cell),
                        per_frame_delay: seq![Millis(STILL_FRAME_DELAY_MS)],
                    },
                )
            } else {
                Err(DecodeError::TooLarge)
            },
        }
    }
}

/// The result as plain values.
pub open spec fn outcome_view(r: Result<DecodedAsset, DecodeError>) -> Result<
    AssetView,
    DecodeError,
> {
    match r {
        Ok(asset) => Ok(asset@),
        Err(e) => Err(e),
    }
}

fn can_resample(src: Size, target: Size) -> (b: bool)
    ensures
        b == spec_can_resample(src.width as int, target),
{
    proof {
        vstd::arithmetic::mul::lemma_mul_upper_bound(
            src.width as int,
            u32::MAX as int,
            target.height as int,
            u32::MAX as int,
        );
        vstd::arithmetic::mul::lemma_mul_upper_bound(
            target.width as int,
            u32::MAX as int,
            target.height as int,
            u32::MAX as int,
        );
    }
    let rows: u64 = src.width as u64 * target.height as u64;
    let pixels: u64 = target.width as u64 * target.height as u64;
    let most: u64 = isize::MAX as u64;
    rows <= most / 16 && pixels <= most / 4
}

/// Shrinks a still image that is over a usable limit, each side on its own.
pub fn shrink_still(picture: Picture, limits: &Limits) -> (r: Result<Picture, DecodeError>)
    ensures
        match r {
            Ok(p) => Ok::<PictureView, DecodeError>(p@) == spec_shrink_still(picture@, limits@),
            Err(e) => Err::<PictureView, DecodeError>(e) == spec_shrink_still(picture@, limits@),
        },
{
    let size = picture.size();
    if !exceeds_usable(size, limits) {
        return Ok(picture);
    }
    let target = cap_size(size, limits);
    if !can_resample(size, target) {
        return Err(DecodeError::TooLarge);
    }
    Ok(picture.resample(target))
}

/// The asset of a still image that was decoded.
pub fn finish_static(path: String, picture: Picture, limits: &Limits) -> (r: Result<
    DecodedAsset,
    DecodeError,
>)
    ensures
        match spec_shrink_still(picture@, limits@) {
            Ok(pixels) => outcome_view(r) == Ok::<AssetView, DecodeError>(
                AssetView::Static { path: path@, pixels },
            ),
            Err(e) => outcome_view(r) == Err::<AssetView, DecodeError>(e),
        },
{
    match shrink_still(picture, limits) {
        Ok(pixels) => Ok(DecodedAsset::Static { path, pixels }),
        Err(e) => Err(e),
    }
}

/// Decodes a still image from the bytes of its file and shrinks it where it
/// is over a usable limit.
pub fn load_static(path: String, bytes: &Vec<u8>, format: StillFormat, limits: &Limits) -> (r:
    Result<DecodedAsset, DecodeError>)
    ensures
        match still_decoding(bytes@, format) {
            Some(picture) => match spec_shrink_still(picture, limits@) {
                Ok(pixels) => outcome_view(r) == Ok::<AssetView, DecodeError>(
                    AssetView::Static { path: path@, pixels },
                ),
                Err(e) => outcome_view(r) == Err::<AssetView, DecodeError>(e),
            },
            None => outcome_view(r) == Err::<AssetView, DecodeError>(DecodeError::Malformed),
        },
{
    match Picture::decode_still(bytes, format) {
        Ok(picture) => finish_static(path, picture, limits),
        Err(_) => Err(DecodeError::Malformed),
    }
}

/// The frames as plain values.
pub open spec fn frame_views(frames: Seq<AnimationFrame>) -> Seq<FrameView> {
    frames.map_values(|f: AnimationFrame| f@)
}

/// Samples every frame at the size of a cell and collects the delays; gives
/// nothing where a frame cannot be sampled on this machine.
fn resize_frames(frames: &Vec<AnimationFrame>, cell: Size) -> (r: Option<
    (Vec<Picture>, Vec<Millis>),
>)
    requires
        cell.width * cell.height * 4 <= isize::MAX,
    ensures
        r is Some <==> all_can_resample(frame_views(frames@), cell),
        r matches Some((pictures, delays)) ==> {
            &&& views(pictures@) == spec_resized_frames(frame_views(frames@), cell)
            &&& delays@ == spec_delays(frame_views(frames@))
        },
{
    let ghost all = frame_views(frames@);
    let mut pictures: Vec<Picture> = Vec::new();
    let mut delays: Vec<Millis> = Vec::new();
    let mut i: usize = 0;
    while i < frames.len()
        invariant
            i <= frames.len(),
            all == frame_views(frames@),
            pictures.len() == i,
            delays.len() == i,
            forall|j: int|
                0 <= j < i ==> (#[trigger] pictures[j])@ == spec_resampled(all[j].picture, cell),
            forall|j: int| 0 <= j < i ==> #[trigger] delays[j] == Millis(all[j].delay_ms as u64),
            forall|j: int| 0 <= j < i ==> spec_can_resample((#[trigger] all[j]).picture.width, cell),
        decreases frames.len() - i,
    {
        let frame = &frames[i];
        assert(all[i as int] == frame@);
        if !can_resample(frame.picture.size(), cell) {
            return None;
        }
        pictures.push(frame.picture.resample(cell));
        delays.push(Millis(frame.delay_ms as u64));
        i += 1;
    }
    proof {
        assert(views(pictures@) =~= spec_resized_frames(all, cell));
        assert(delays@ =~= spec_delays(all));
    }
    Some((pictures, delays))
}

/// The asset of an animation whose frames were decoded.
pub fn build_animation(path: String, frames: Vec<AnimationFrame>, limits: &Limits) -> (r: Result<
    DecodedAsset,
    DecodeError,
>)
    ensures
        outcome_view(r) == spec_build_animation(path@, frame_views(frames@), limits@),
{
    let ghost all = frame_views(frames@);
    if frames.len() == 0 {
        return Err(DecodeError::NoFrames);
    }
    let first = frames[0].picture.size();
    assert(all[0] == frames[0]@);
    if !first.is_solid() {
        return Err(DecodeError::EmptyImage);
    }
    if frames.len() > u32::MAX as usize {
        return Err(DecodeError::TooLarge);
    }
    let cell = fit_frame_size(first, limits);
    let max_w = limits.max_texture_width();
    proof {
        assert(first == size_of(all[0].picture.width, all[0].picture.height));
        assert(cell == size_of(
            spec_fit_frame_size(first, limits@).0,
            spec_fit_frame_size(first, limits@).1,
        ));
        assert(cell.width * cell.height * 4 <= i32::MAX) by (nonlinear_arith)
            requires
                0 < cell.width <= limits@.max_texture_width,
                0 < cell.height <= limits@.max_texture_height,
                limits@.max_texture_width * limits@.max_texture_height * 4 <= i32::MAX,
        ;
    }
    match plan_atlas(frames.len() as u32, cell, limits) {
        Ok(layout) => {
            match resize_frames(&frames, cell) {
                Some((pictures, per_frame_delay)) => {
                    proof {
                        assert(frames_match(views(pictures@), layout@));
                    }
                    match pack_frames(&pictures, &layout) {
                        Some(atlas_pixels) => Ok(
                            DecodedAsset::Animated { path, atlas_pixels, layout, per_frame_delay },
                        ),
                        None => Err(DecodeError::TooLarge),
                    }
                },
                None => Err(DecodeError::TooLarge),
            }
        },
        Err(_) => {
            if !can_resample(first, cell) {
                return Err(DecodeError::TooLarge);
            }
            let atlas_pixels = frames[0].picture.resample(cell);
            match AtlasLayout::single(cell) {
                Some(layout) => {
                    let mut per_frame_delay: Vec<Millis> = Vec::new();
                    per_frame_delay.push(Millis(STILL_FRAME_DELAY_MS));
                    proof {
                        assert(per_frame_delay@ =~= seq![Millis(STILL_FRAME_DELAY_MS)]);
                    }
                    Ok(DecodedAsset::Animated { path, atlas_pixels, layout, per_frame_delay })
                },
                None => Err(DecodeError::TooLarge),
            }
        },
    }
}

/// Decodes the frames of an animation from the bytes of its file and packs
/// them into one texture.
pub fn load_animated(path: String, bytes: &Vec<u8>, limits: &Limits) -> (r: Result<
    DecodedAsset,
    DecodeError,
>)
    ensures
        match animation_decoding(bytes@) {
            Some(frames) => outcome_view(r) == spec_build_animation(path@, frames, limits@),
            None => outcome_view(r) == Err::<AssetView, DecodeError>(DecodeError::Malformed),
        },
{
    match Picture::decode_animation(bytes) {
        Ok(frames) => build_animation(path, frames, limits),
        Err(_) => Err(DecodeError::Malformed),
    }
}

/// The format that a still image is decoded in, by the extension of its
/// path.
pub open spec fn spec_still_format(path: Seq<char>) -> Option<StillFormat> {
    match spec_supported_extension(path) {
        Some(Extension::Jpg) => Some(StillFormat::Jpeg),
        Some(Extension::Png) => Some(StillFormat::Png),
        _ => None,
    }
}

/// The asset that a candidate gives. `readable` says whether its file could
/// be read; `still` is what the codec made of the bytes as a still image in
/// the format of the extension, `animation` what it made of them as an
/// animation.
pub open spec fn spec_load_candidate(
    candidate: CandidatePath,
    readable: bool,
    still: Option<PictureView>,
    animation: Option<Seq<FrameView>>,
    limits: LimitsView,
) -> Result<AssetView, DecodeError> {
    if !readable {
        Err(DecodeError::Unreadable)
    } else {
        match candidate.kind {
            CandidateKind::StaticImage => match spec_still_format(candidate.path@) {
                Some(format) => match still {
                    Some(picture) => match spec_shrink_still(picture, limits) {
                        Ok(pixels) => Ok(AssetView::Static { path: candidate.path@, pixels }),
                        Err(e) => Err(e),
                    },
                    None => Err(DecodeError::Malformed),
                },
                None => Err(DecodeError::Unsupported),
            },
            CandidateKind::AnimatedImage => match animation {
                Some(frames) => spec_build_animation(candidate.path@, frames, limits),
                None => Err(DecodeError::Malformed),
            },
        }
    }
}

/// The bytes of a file that was read; none of one that was not.
pub open spec fn bytes_of(file: Option<&Vec<u8>>) -> Seq<u8> {
    match file {
        Some(bytes) => bytes@,
        None => Seq::empty(),
    }
}

/// Loads one candidate from the bytes of its file, `None` standing for a
/// file that could not be read: a still image in the format that its
/// extension names, an animation as a GIF.
pub fn load_candidate(candidate: &CandidatePath, file: Option<&Vec<u8>>, limits: &Limits) -> (r:
    Result<DecodedAsset, DecodeError>)
    ensures
        outcome_view(r) == spec_load_candidate(
            *candidate,
            file is Some,
            match spec_still_format(candidate.path@) {
                Some(format) => still_decoding(bytes_of(file), format),
                None => None,
            },
            animation_decoding(bytes_of(file)),
            limits@,
        ),
{
    let bytes = match file {
        Some(bytes) => bytes,
        None => {
            return Err(DecodeError::Unreadable);
        },
    };
    match candidate.kind {
        CandidateKind::StaticImage => {
            let format = match supported_extension(candidate.path.as_str()) {
                Some(Extension::Jpg) => StillFormat::Jpeg,
                Some(Extension::Png) => StillFormat::Png,
                _ => {
                    return Err(DecodeError::Unsupported);
                },
            };
            load_static(candidate.path.clone(), bytes, format, limits)
        },
        CandidateKind::AnimatedImage => load_animated(candidate.path.clone(), bytes, limits),
    }
}

/// An animation is never handed over with a texture that is larger than a
/// texture may be: either all frames lie in a grid within the limits, or
/// there is one frame alone. Either way the pixels are exactly those of the
/// layout, and there is one delay for each frame.
pub proof fn lemma_animation_within_limits(
    path: Seq<char>,
    frames: Seq<FrameView>,
    limits: LimitsView,
)
    requires
        limits.wf(),
        forall|j: int| 0 <= j < frames.len() ==> (#[trigger] frames[j]).picture.wf(),
    ensures
        spec_build_animation(path, frames, limits) matches Ok(asset) ==> {
            &&& asset matches AssetView::Animated { path: p, atlas_pixels, layout, per_frame_delay }
            &&& layout.wf()
            &&& layout.frames_per_row * layout.frame_width <= limits.max_texture_width
            &&& layout.total_rows * layout.frame_height <= limits.max_texture_height
            &&& atlas_pixels.width == layout.atlas_width()
            &&& atlas_pixels.height == layout.atlas_height()
            &&& per_frame_delay.len() == layout.total_frames
            &&& (layout.total_frames == frames.len() || layout == LayoutView::single(
                size_of(layout.frame_width, layout.frame_height),
            ))
        },
{
    if spec_build_animation(path, frames, limits) is Ok {
        let picture = frames[0].picture;
        assert(picture.wf());
        let first = size_of(picture.width, picture.height);
        let fitted = spec_fit_frame_size(first, limits);
        lemma_fit_within(first, limits);
        let cell = size_of(fitted.0, fitted.1);
        assert(cell.width * cell.height * 4 <= i32::MAX) by (nonlinear_arith)
            requires
                0 < cell.width <= limits.max_texture_width,
                0 < cell.height <= limits.max_texture_height,
                limits.max_texture_width * limits.max_texture_height * 4 <= i32::MAX,
        ;
        if spec_plan_atlas(frames.len() as int, cell, limits) is Ok {
            lemma_plan_within_limits(frames.len() as int, cell, limits);
        } else {
            let single = LayoutView::single(cell);
            assert(single.atlas_width() == cell.width && single.atlas_height() == cell.height)
                by (nonlinear_arith)
                requires
                    single.atlas_width() == cell.width * 1,
                    single.atlas_height() == cell.height * 1,
            ;
            assert(single.frames_per_row * single.frame_width == cell.width) by (nonlinear_arith)
                requires
                    single.frames_per_row == 1,
                    single.frame_width == cell.width,
            ;
            assert(single.total_rows * single.frame_height == cell.height) by (nonlinear_arith)
                requires
                    single.total_rows == 1,
                    single.frame_height == cell.height,
            ;
        }
    }
}

} // verus!
