use gallery_assets::atlas::Limits;
use gallery_assets::delay::Millis;
use gallery_assets::loader::{
    build_animation, finish_static, load_animated, load_candidate, load_static, shrink_still,
    DecodeError, DecodedAsset, STILL_FRAME_DELAY_MS,
};
use gallery_assets::picture::{AnimationFrame, Picture, StillFormat};
use gallery_assets::scan::{CandidateKind, CandidatePath};
use gallery_assets::size::Size;
use image::codecs::gif::GifEncoder;
use image::{Delay, Frame, ImageFormat, Rgb, RgbImage, Rgba, RgbaImage};
use std::io::Cursor;

fn color_of(index: u32) -> [u8; 4] {
    [(index * 20) as u8, 255 - (index * 20) as u8, (index * 7) as u8, 255]
}

fn png_bytes(width: u32, height: u32) -> Vec<u8> {
    let image = RgbaImage::from_fn(width, height, |x, y| {
        Rgba([(x % 256) as u8, (y % 256) as u8, ((x + y) % 256) as u8, 255])
    });
    let mut bytes = Vec::new();
    image.write_to(&mut Cursor::new(&mut bytes), ImageFormat::Png).unwrap();
    bytes
}

fn jpeg_bytes(width: u32, height: u32) -> Vec<u8> {
    let image = RgbImage::from_pixel(width, height, Rgb([200, 100, 50]));
    let mut bytes = Vec::new();
    image.write_to(&mut Cursor::new(&mut bytes), ImageFormat::Jpeg).unwrap();
    bytes
}

fn gif_bytes(width: u32, height: u32, delays_ms: &[u32]) -> Vec<u8> {
    let mut bytes = Vec::new();
    {
        let mut encoder = GifEncoder::new(&mut bytes);
        for (index, delay) in delays_ms.iter().enumerate() {
            let buffer = RgbaImage::from_pixel(width, height, Rgba(color_of(index as u32)));
            let frame = Frame::from_parts(buffer, 0, 0, Delay::from_numer_denom_ms(*delay, 1));
            encoder.encode_frame(frame).unwrap();
        }
    }
    bytes
}

fn pixel(picture: &Picture, x: u32, y: u32) -> [u8; 4] {
    let at = ((y * picture.width() + x) * 4) as usize;
    let bytes = picture.as_bytes();
    [bytes[at], bytes[at + 1], bytes[at + 2], bytes[at + 3]]
}

fn solid_frame(width: u32, height: u32, color: [u8; 4], delay_ms: u32) -> AnimationFrame {
    let mut data = Vec::new();
    for _ in 0..width * height {
        data.extend_from_slice(&color);
    }
    AnimationFrame { picture: Picture::from_rgba(width, height, data).unwrap(), delay_ms }
}

#[test]
fn a_small_png_is_kept_as_it_is() {
    let asset =
        load_static("dir/a.png".to_string(), &png_bytes(100, 100), StillFormat::Png, &Limits::standard())
            .unwrap();
    match asset {
        DecodedAsset::Static { path, pixels } => {
            assert_eq!(path, "dir/a.png");
            assert_eq!(pixels.size(), Size::new(100, 100));
            assert_eq!(pixel(&pixels, 0, 0), [0, 0, 0, 255]);
            assert_eq!(pixel(&pixels, 7, 3), [7, 3, 10, 255]);
            assert_eq!(pixel(&pixels, 99, 99), [99, 99, 198, 255]);
        }
        other => panic!("not a still image: {:?}", other),
    }
}

#[test]
fn a_jpeg_is_decoded_to_rgba() {
    let asset =
        load_static("a.jpg".to_string(), &jpeg_bytes(40, 30), StillFormat::Jpeg, &Limits::standard())
            .unwrap();
    match asset {
        DecodedAsset::Static { pixels, .. } => {
            assert_eq!(pixels.size(), Size::new(40, 30));
            assert_eq!(pixels.as_bytes().len(), 40 * 30 * 4);
            let [r, g, b, a] = pixel(&pixels, 20, 15);
            assert!(r > 190 && r < 210);
            assert!(g > 90 && g < 110);
            assert!(b > 40 && b < 60);
            assert_eq!(a, 255);
        }
        other => panic!("not a still image: {:?}", other),
    }
}

#[test]
fn a_format_that_does_not_match_the_bytes_fails() {
    let limits = Limits::standard();
    let png = png_bytes(10, 10);
    assert_eq!(
        load_static("a.jpg".to_string(), &png, StillFormat::Jpeg, &limits).err(),
        Some(DecodeError::Malformed)
    );
    assert!(load_static("a.png".to_string(), &png, StillFormat::Png, &limits).is_ok());
}

#[test]
fn bytes_that_are_no_image_are_malformed() {
    let limits = Limits::standard();
    let garbage = vec![1u8, 2, 3, 4, 5, 6, 7, 8, 9];
    assert_eq!(
        load_static("a.png".to_string(), &garbage, StillFormat::Png, &limits).err(),
        Some(DecodeError::Malformed)
    );
    assert_eq!(
        load_static("a.jpg".to_string(), &Vec::new(), StillFormat::Jpeg, &limits).err(),
        Some(DecodeError::Malformed)
    );
    assert_eq!(load_animated("a.gif".to_string(), &garbage, &limits).err(), Some(DecodeError::Malformed));
    assert_eq!(
        load_animated("a.gif".to_string(), &Vec::new(), &limits).err(),
        Some(DecodeError::Malformed)
    );
}

#[test]
fn a_large_still_image_is_capped_side_by_side() {
    let limits = Limits::standard();
    let asset = load_static("wide.png".to_string(), &png_bytes(1000, 40), StillFormat::Png, &limits)
        .unwrap();
    match asset {
        DecodedAsset::Static { pixels, .. } => assert_eq!(pixels.size(), Size::new(960, 40)),
        other => panic!("not a still image: {:?}", other),
    }
    let asset = load_static("high.png".to_string(), &png_bytes(30, 1100), StillFormat::Png, &limits)
        .unwrap();
    match asset {
        DecodedAsset::Static { pixels, .. } => assert_eq!(pixels.size(), Size::new(30, 1080)),
        other => panic!("not a still image: {:?}", other),
    }
}

#[test]
fn shrinking_samples_the_picture() {
    let limits = Limits::new(2, 2, 16, 16).unwrap();
    let red = [255, 0, 0, 255];
    let picture = solid_frame(6, 4, red, 0).picture;
    let shrunk = shrink_still(picture, &limits).unwrap();
    assert_eq!(shrunk.size(), Size::new(2, 2));
    assert_eq!(shrunk.as_bytes().len(), 16);
    for y in 0..2 {
        for x in 0..2 {
            assert_eq!(pixel(&shrunk, x, y), red);
        }
    }
}

#[test]
fn shrinking_takes_the_nearest_pixel() {
    let limits = Limits::new(2, 1, 16, 16).unwrap();
    // four pixels in a row: two black, two white
    let data = vec![0, 0, 0, 255, 0, 0, 0, 255, 255, 255, 255, 255, 255, 255, 255, 255];
    let picture = Picture::from_rgba(4, 1, data).unwrap();
    let shrunk = shrink_still(picture, &limits).unwrap();
    assert_eq!(shrunk.size(), Size::new(2, 1));
    assert_eq!(pixel(&shrunk, 0, 0), [0, 0, 0, 255]);
    assert_eq!(pixel(&shrunk, 1, 0), [255, 255, 255, 255]);
}

#[test]
fn a_picture_within_the_limits_is_not_touched() {
    let limits = Limits::new(4, 4, 16, 16).unwrap();
    let data: Vec<u8> = (0..64).collect();
    let picture = Picture::from_rgba(4, 4, data.clone()).unwrap();
    let kept = shrink_still(picture, &limits).unwrap();
    assert_eq!(kept.size(), Size::new(4, 4));
    assert_eq!(kept.as_bytes(), &data);
}

#[test]
fn finishing_a_still_image_keeps_its_path() {
    let limits = Limits::new(4, 4, 16, 16).unwrap();
    let picture = solid_frame(8, 2, [1, 2, 3, 4], 0).picture;
    match finish_static("some/where.png".to_string(), picture, &limits).unwrap() {
        DecodedAsset::Static { path, pixels } => {
            assert_eq!(path, "some/where.png");
            assert_eq!(pixels.size(), Size::new(4, 2));
        }
        other => panic!("not a still image: {:?}", other),
    }
}

#[test]
fn a_gif_is_packed_into_a_grid() {
    let delays = [100, 100, 200, 200, 100, 100, 200, 200, 100, 100];
    let asset =
        load_animated("anim.gif".to_string(), &gif_bytes(50, 50, &delays), &Limits::standard())
            .unwrap();
    match asset {
        DecodedAsset::Animated { path, atlas_pixels, layout, per_frame_delay } => {
            assert_eq!(path, "anim.gif");
            assert_eq!(layout.total_frames(), 10);
            assert_eq!(layout.frames_per_row(), 163);
            assert_eq!(layout.total_rows(), 1);
            assert_eq!(layout.frame_size(), Size::new(50, 50));
            assert_eq!(atlas_pixels.size(), Size::new(8150, 50));
            let expected: Vec<Millis> = delays.iter().map(|ms| Millis(*ms as u64)).collect();
            assert_eq!(per_frame_delay, expected);
            for index in 0..10 {
                let (x, y) = layout.cell_origin(index).unwrap();
                assert_eq!(pixel(&atlas_pixels, x, y), color_of(index));
                assert_eq!(pixel(&atlas_pixels, x + 49, y + 49), color_of(index));
            }
            assert_eq!(pixel(&atlas_pixels, 500, 10), [0, 0, 0, 0]);
        }
        other => panic!("not an animation: {:?}", other),
    }
}

#[test]
fn a_gif_fills_several_rows() {
    let limits = Limits::new(8, 8, 20, 40).unwrap();
    let asset =
        load_animated("rows.gif".to_string(), &gif_bytes(8, 8, &[10, 20, 30, 40, 50]), &limits)
            .unwrap();
    match asset {
        DecodedAsset::Animated { atlas_pixels, layout, per_frame_delay, .. } => {
            assert_eq!(layout.frames_per_row(), 2);
            assert_eq!(layout.total_rows(), 3);
            assert_eq!(atlas_pixels.size(), Size::new(16, 24));
            assert_eq!(per_frame_delay.len(), 5);
            assert_eq!(pixel(&atlas_pixels, 0, 0), color_of(0));
            assert_eq!(pixel(&atlas_pixels, 8, 0), color_of(1));
            assert_eq!(pixel(&atlas_pixels, 7, 15), color_of(2));
            assert_eq!(pixel(&atlas_pixels, 15, 8), color_of(3));
            assert_eq!(pixel(&atlas_pixels, 0, 16), color_of(4));
            assert_eq!(pixel(&atlas_pixels, 8, 16), [0, 0, 0, 0]);
        }
        other => panic!("not an animation: {:?}", other),
    }
}

#[test]
fn large_frames_are_shrunk_before_they_are_packed() {
    let limits = Limits::new(10, 10, 40, 40).unwrap();
    let frames = vec![
        solid_frame(40, 20, color_of(1), 30),
        solid_frame(40, 20, color_of(2), 30),
        solid_frame(40, 20, color_of(3), 60),
    ];
    match build_animation("big.gif".to_string(), frames, &limits).unwrap() {
        DecodedAsset::Animated { atlas_pixels, layout, per_frame_delay, .. } => {
            assert_eq!(layout.frame_size(), Size::new(10, 5));
            assert_eq!(layout.frames_per_row(), 4);
            assert_eq!(layout.total_rows(), 1);
            assert_eq!(atlas_pixels.size(), Size::new(40, 5));
            assert_eq!(per_frame_delay, vec![Millis(30), Millis(30), Millis(60)]);
            assert_eq!(pixel(&atlas_pixels, 0, 0), color_of(1));
            assert_eq!(pixel(&atlas_pixels, 19, 4), color_of(2));
            assert_eq!(pixel(&atlas_pixels, 20, 0), color_of(3));
            assert_eq!(pixel(&atlas_pixels, 30, 2), [0, 0, 0, 0]);
        }
        other => panic!("not an animation: {:?}", other),
    }
}

#[test]
fn an_atlas_that_is_too_high_falls_back_to_one_frame() {
    let limits = Limits::new(50, 50, 100, 100).unwrap();
    let asset =
        load_animated("tall.gif".to_string(), &gif_bytes(50, 50, &[100; 10]), &limits).unwrap();
    match asset {
        DecodedAsset::Animated { atlas_pixels, layout, per_frame_delay, .. } => {
            assert_eq!(layout.total_frames(), 1);
            assert_eq!(layout.frames_per_row(), 1);
            assert_eq!(layout.total_rows(), 1);
            assert_eq!(layout.frame_size(), Size::new(50, 50));
            assert_eq!(atlas_pixels.size(), Size::new(50, 50));
            assert_eq!(pixel(&atlas_pixels, 25, 25), color_of(0));
            assert_eq!(per_frame_delay, vec![Millis(STILL_FRAME_DELAY_MS)]);
            assert_eq!(STILL_FRAME_DELAY_MS, 99_999 * 1000);
        }
        other => panic!("not an animation: {:?}", other),
    }
}

#[test]
fn the_last_grid_that_fits_is_packed() {
    let limits = Limits::new(50, 50, 100, 100).unwrap();
    match load_animated("fits.gif".to_string(), &gif_bytes(50, 50, &[100; 4]), &limits).unwrap() {
        DecodedAsset::Animated { layout, atlas_pixels, .. } => {
            assert_eq!(layout.total_frames(), 4);
            assert_eq!(atlas_pixels.size(), Size::new(100, 100));
        }
        other => panic!("not an animation: {:?}", other),
    }
    match load_animated("over.gif".to_string(), &gif_bytes(50, 50, &[100; 5]), &limits).unwrap() {
        DecodedAsset::Animated { layout, .. } => assert_eq!(layout.total_frames(), 1),
        other => panic!("not an animation: {:?}", other),
    }
}

#[test]
fn an_animation_without_frames_is_refused() {
    assert_eq!(
        build_animation("none.gif".to_string(), Vec::new(), &Limits::standard()).err(),
        Some(DecodeError::NoFrames)
    );
}

#[test]
fn an_animation_of_empty_frames_is_refused() {
    let frames = vec![AnimationFrame { picture: Picture::from_rgba(0, 0, Vec::new()).unwrap(), delay_ms: 10 }];
    assert_eq!(
        build_animation("empty.gif".to_string(), frames, &Limits::standard()).err(),
        Some(DecodeError::EmptyImage)
    );
    let frames = vec![AnimationFrame { picture: Picture::from_rgba(0, 9, Vec::new()).unwrap(), delay_ms: 10 }];
    assert_eq!(
        build_animation("empty.gif".to_string(), frames, &Limits::standard()).err(),
        Some(DecodeError::EmptyImage)
    );
}

#[test]
fn a_candidate_is_loaded_by_its_kind() {
    let limits = Limits::standard();
    let still = CandidatePath { path: "d/a.png".to_string(), kind: CandidateKind::StaticImage };
    let png = png_bytes(5, 5);
    assert!(matches!(
        load_candidate(&still, Some(&png), &limits),
        Ok(DecodedAsset::Static { .. })
    ));
    let animated = CandidatePath { path: "d/a.gif".to_string(), kind: CandidateKind::AnimatedImage };
    let gif = gif_bytes(5, 5, &[10, 20]);
    assert!(matches!(
        load_candidate(&animated, Some(&gif), &limits),
        Ok(DecodedAsset::Animated { .. })
    ));
    let jpeg = CandidatePath { path: "d/a.jpg".to_string(), kind: CandidateKind::StaticImage };
    assert!(matches!(
        load_candidate(&jpeg, Some(&jpeg_bytes(5, 5)), &limits),
        Ok(DecodedAsset::Static { .. })
    ));
    assert_eq!(load_candidate(&jpeg, Some(&png), &limits).err(), Some(DecodeError::Malformed));
}

#[test]
fn a_file_that_was_not_read_gives_no_asset() {
    let still = CandidatePath { path: "d/a.png".to_string(), kind: CandidateKind::StaticImage };
    assert_eq!(
        load_candidate(&still, None, &Limits::standard()).err(),
        Some(DecodeError::Unreadable)
    );
}

#[test]
fn a_still_image_needs_a_still_extension() {
    let limits = Limits::standard();
    let png = png_bytes(5, 5);
    for path in ["d/a.gif", "d/a.txt", "d/a", "d/a.PNG"] {
        let candidate = CandidatePath { path: path.to_string(), kind: CandidateKind::StaticImage };
        assert_eq!(
            load_candidate(&candidate, Some(&png), &limits).err(),
            Some(DecodeError::Unsupported)
        );
    }
}
