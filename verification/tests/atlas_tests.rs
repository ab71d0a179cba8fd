use gallery_assets::atlas::{
    cap_size, exceeds_usable, fit_frame_size, plan_atlas, AtlasError, AtlasLayout, Limits,
    MAX_TEXTURE_HEIGHT, MAX_TEXTURE_WIDTH, MAX_USABLE_IMAGE_HEIGHT, MAX_USABLE_IMAGE_WIDTH,
};
use gallery_assets::size::Size;

#[test]
fn standard_limits_are_the_constants() {
    let limits = Limits::standard();
    assert_eq!(limits.max_usable_width(), 960);
    assert_eq!(limits.max_usable_height(), 1080);
    assert_eq!(limits.max_texture_width(), 8192);
    assert_eq!(limits.max_texture_height(), 8192);
    assert_eq!(MAX_USABLE_IMAGE_WIDTH, 960);
    assert_eq!(MAX_USABLE_IMAGE_HEIGHT, 1080);
    assert_eq!(MAX_TEXTURE_WIDTH, 8192);
    assert_eq!(MAX_TEXTURE_HEIGHT, 8192);
}

#[test]
fn limits_are_checked() {
    assert!(Limits::new(960, 1080, 8192, 8192).is_some());
    assert!(Limits::new(1, 1, 1, 1).is_some());
    assert!(Limits::new(0, 1080, 8192, 8192).is_none());
    assert!(Limits::new(960, 0, 8192, 8192).is_none());
    assert!(Limits::new(9000, 1080, 8192, 8192).is_none());
    assert!(Limits::new(960, 9000, 8192, 8192).is_none());
    // 23170 * 23170 * 4 is the last product under 2^31.
    assert!(Limits::new(960, 1080, 23170, 23170).is_some());
    assert!(Limits::new(960, 1080, 23171, 23171).is_none());
    assert!(Limits::new(960, 1080, u32::MAX, u32::MAX).is_none());
}

#[test]
fn still_images_are_capped_side_by_side() {
    let limits = Limits::standard();
    assert!(!exceeds_usable(Size::new(960, 1080), &limits));
    assert!(exceeds_usable(Size::new(961, 1080), &limits));
    assert!(exceeds_usable(Size::new(960, 1081), &limits));
    assert_eq!(cap_size(Size::new(100, 100), &limits), Size::new(100, 100));
    assert_eq!(cap_size(Size::new(4000, 100), &limits), Size::new(960, 100));
    assert_eq!(cap_size(Size::new(100, 4000), &limits), Size::new(100, 1080));
    assert_eq!(cap_size(Size::new(4000, 4000), &limits), Size::new(960, 1080));
}

#[test]
fn frames_keep_their_shape() {
    let limits = Limits::standard();
    assert_eq!(fit_frame_size(Size::new(50, 50), &limits), Size::new(50, 50));
    assert_eq!(fit_frame_size(Size::new(960, 1080), &limits), Size::new(960, 1080));
    assert_eq!(fit_frame_size(Size::new(1920, 1080), &limits), Size::new(960, 540));
    assert_eq!(fit_frame_size(Size::new(2000, 4000), &limits), Size::new(540, 1080));
    assert_eq!(fit_frame_size(Size::new(1000, 2000), &limits), Size::new(540, 1080));
    // 1081 * 960 / 1921 is 540.2
    assert_eq!(fit_frame_size(Size::new(1921, 1081), &limits), Size::new(960, 540));
    // 3 * 960 / 1920 is 1.5, and a half goes up
    assert_eq!(fit_frame_size(Size::new(1920, 3), &limits), Size::new(960, 2));
}

#[test]
fn a_thin_frame_keeps_one_pixel() {
    let limits = Limits::standard();
    assert_eq!(fit_frame_size(Size::new(1, 20000), &limits), Size::new(1, 1080));
    assert_eq!(fit_frame_size(Size::new(20000, 1), &limits), Size::new(960, 1));
}

#[test]
fn an_empty_frame_is_left_alone() {
    let limits = Limits::standard();
    assert_eq!(fit_frame_size(Size::new(0, 5000), &limits), Size::new(0, 5000));
    assert_eq!(fit_frame_size(Size::new(5000, 0), &limits), Size::new(5000, 0));
    assert!(!Size::new(0, 1).is_solid());
    assert!(Size::new(1, 1).is_solid());
}

#[test]
fn small_frames_fill_one_row() {
    let layout = plan_atlas(10, Size::new(50, 50), &Limits::standard()).unwrap();
    assert_eq!(layout.total_frames(), 10);
    assert_eq!(layout.frames_per_row(), 163);
    assert_eq!(layout.total_rows(), 1);
    assert_eq!(layout.frame_size(), Size::new(50, 50));
    assert_eq!(layout.atlas_size(), Size::new(8150, 50));
}

#[test]
fn rows_are_rounded_up() {
    let limits = Limits::standard();
    assert_eq!(plan_atlas(163, Size::new(50, 50), &limits).unwrap().total_rows(), 1);
    assert_eq!(plan_atlas(164, Size::new(50, 50), &limits).unwrap().total_rows(), 2);
    assert_eq!(plan_atlas(326, Size::new(50, 50), &limits).unwrap().total_rows(), 2);
    assert_eq!(plan_atlas(327, Size::new(50, 50), &limits).unwrap().total_rows(), 3);
    assert_eq!(plan_atlas(1, Size::new(8192, 8192), &limits).unwrap().total_rows(), 1);
}

#[test]
fn a_grid_that_is_too_high_is_refused() {
    let limits = Limits::standard();
    // 8 frames a row, 13 rows of 1080 pixels
    assert_eq!(plan_atlas(100, Size::new(960, 1080), &limits).err(), Some(AtlasError::AtlasTooLarge));
    // 7 rows of 1080 pixels are 7560, 8 rows are 8640
    assert!(plan_atlas(56, Size::new(960, 1080), &limits).is_ok());
    assert_eq!(plan_atlas(57, Size::new(960, 1080), &limits).err(), Some(AtlasError::AtlasTooLarge));
}

#[test]
fn frames_that_cannot_be_laid_out() {
    let limits = Limits::standard();
    assert_eq!(plan_atlas(0, Size::new(50, 50), &limits).err(), Some(AtlasError::NoFrames));
    assert_eq!(plan_atlas(3, Size::new(0, 50), &limits).err(), Some(AtlasError::EmptyFrame));
    assert_eq!(plan_atlas(3, Size::new(50, 0), &limits).err(), Some(AtlasError::EmptyFrame));
    assert_eq!(plan_atlas(3, Size::new(9000, 50), &limits).err(), Some(AtlasError::FrameTooLarge));
    assert_eq!(plan_atlas(3, Size::new(50, 9000), &limits).err(), Some(AtlasError::FrameTooLarge));
}

#[test]
fn a_grid_never_passes_the_texture_limits() {
    let limits = Limits::new(64, 64, 200, 300).unwrap();
    for width in 1..65u32 {
        for height in [1u32, 7, 33, 64] {
            for count in [1u32, 2, 5, 17, 200] {
                match plan_atlas(count, Size::new(width, height), &limits) {
                    Ok(layout) => {
                        assert!(layout.frames_per_row() * width <= 200);
                        assert!(layout.total_rows() * height <= 300);
                        assert!(layout.frames_per_row() * layout.total_rows() >= count);
                        assert_eq!(layout.frames_per_row(), 200 / width);
                        assert_eq!(layout.total_frames(), count);
                    }
                    Err(error) => {
                        assert_eq!(error, AtlasError::AtlasTooLarge);
                        let per_row = 200 / width;
                        let rows = (count + per_row - 1) / per_row;
                        assert!(rows * height > 300);
                    }
                }
            }
        }
    }
}

#[test]
fn cells_are_filled_row_by_row() {
    let layout = AtlasLayout::new(7, 3, 3, Size::new(10, 20)).unwrap();
    assert_eq!(layout.atlas_size(), Size::new(30, 60));
    assert_eq!(layout.cell_origin(0), Some((0, 0)));
    assert_eq!(layout.cell_origin(1), Some((10, 0)));
    assert_eq!(layout.cell_origin(2), Some((20, 0)));
    assert_eq!(layout.cell_origin(3), Some((0, 20)));
    assert_eq!(layout.cell_origin(6), Some((0, 40)));
    assert_eq!(layout.cell_origin(7), None);
}

#[test]
fn layouts_are_checked() {
    assert!(AtlasLayout::new(1, 1, 1, Size::new(1, 1)).is_some());
    assert!(AtlasLayout::new(0, 1, 1, Size::new(1, 1)).is_none());
    assert!(AtlasLayout::new(1, 0, 1, Size::new(1, 1)).is_none());
    assert!(AtlasLayout::new(1, 1, 0, Size::new(1, 1)).is_none());
    assert!(AtlasLayout::new(1, 1, 1, Size::new(0, 1)).is_none());
    assert!(AtlasLayout::new(1, 1, 1, Size::new(1, 0)).is_none());
    // more frames than cells
    assert!(AtlasLayout::new(7, 3, 2, Size::new(1, 1)).is_none());
    // a row without a frame
    assert!(AtlasLayout::new(6, 3, 3, Size::new(1, 1)).is_none());
    assert!(AtlasLayout::new(6, 3, 2, Size::new(1, 1)).is_some());
    // too many bytes
    assert!(AtlasLayout::new(1, 1, 1, Size::new(23171, 23171)).is_none());
    assert!(AtlasLayout::new(4, 2, 2, Size::new(20000, 20000)).is_none());
}

#[test]
fn a_single_frame_has_one_cell() {
    let layout = AtlasLayout::single(Size::new(960, 540)).unwrap();
    assert_eq!(layout.total_frames(), 1);
    assert_eq!(layout.frames_per_row(), 1);
    assert_eq!(layout.total_rows(), 1);
    assert_eq!(layout.atlas_size(), Size::new(960, 540));
    assert_eq!(layout.cell_origin(0), Some((0, 0)));
    assert!(AtlasLayout::single(Size::new(0, 540)).is_none());
}
