//! Checkerboard and image texture sampling.

use tracerlib::fixed::SCALE;
use tracerlib::texture::{CheckerboardTexture, ImageTexture, Texture};
use tracerlib::vec3::Vec3;

const ONE: i64 = SCALE;
const WHITE: i64 = 255 * SCALE;

#[test]
fn checkerboard_same_cell_is_white() {
    let t = CheckerboardTexture::new(ONE);
    // Both folded coordinates land on the same sign: white.
    assert_eq!(t.color(ONE / 4, ONE / 4), Vec3::new(WHITE, WHITE, WHITE));
}

#[test]
fn checkerboard_opposite_cells_are_black() {
    let t = CheckerboardTexture::new(ONE);
    // One folded coordinate positive, the other negative: black.
    assert_eq!(t.color(ONE / 4, 3 * ONE / 4), Vec3::new(0, 0, 0));
    assert_eq!(t.color(3 * ONE / 4, ONE / 4), Vec3::new(0, 0, 0));
}

#[test]
fn checkerboard_periodicity() {
    // The pattern repeats with period dim in both axes.
    let t = CheckerboardTexture::new(ONE);
    assert_eq!(t.color(ONE / 4, ONE / 4), t.color(ONE + ONE / 4, ONE + ONE / 4));
    assert_eq!(t.color(ONE / 4, 3 * ONE / 4), t.color(ONE + ONE / 4, ONE + 3 * ONE / 4));
    let wide = CheckerboardTexture::new(4 * ONE);
    assert_eq!(wide.color(ONE, 3 * ONE), wide.color(5 * ONE, 7 * ONE));
}

#[test]
fn checkerboard_negative_coordinates() {
    let t = CheckerboardTexture::new(ONE);
    assert_eq!(t.color(-ONE / 4, -ONE / 4), Vec3::new(WHITE, WHITE, WHITE));
    assert_eq!(t.color(-ONE / 4, ONE / 4), t.color(3 * ONE / 4, ONE / 4));
}

fn three_pixel_row() -> ImageTexture {
    let pixels = vec![
        Vec3::new(10 * ONE, 0, 0),
        Vec3::new(0, 20 * ONE, 0),
        Vec3::new(0, 0, 30 * ONE),
    ];
    ImageTexture::new(pixels, 3, 1).unwrap()
}

#[test]
fn image_texture_rejects_wrong_length() {
    assert!(ImageTexture::new(vec![Vec3::new(0, 0, 0)], 2, 1).is_none());
    assert!(ImageTexture::new(vec![], 0, 1).is_none());
}

#[test]
fn image_texture_rejects_out_of_range_channels() {
    // Channels live on the 0-255 scale.
    assert!(ImageTexture::new(vec![Vec3::new(256 * ONE, 0, 0)], 1, 1).is_none());
    assert!(ImageTexture::new(vec![Vec3::new(0, -1, 0)], 1, 1).is_none());
    assert!(ImageTexture::new(vec![Vec3::new(WHITE, WHITE, WHITE)], 1, 1).is_some());
}

#[test]
fn image_texture_nearest_sample() {
    let t = three_pixel_row();
    // u wraps into [0,1) and scales by width-1 == 2, then truncates.
    assert_eq!(t.color(0, 0), Vec3::new(10 * ONE, 0, 0));
    // 0.6 * 2 == 1.2 -> pixel 1
    assert_eq!(t.color(3 * ONE / 5, 0), Vec3::new(0, 20 * ONE, 0));
    // 1.6 wraps to 0.6
    assert_eq!(t.color(8 * ONE / 5, 0), Vec3::new(0, 20 * ONE, 0));
}

#[test]
fn image_texture_negative_coordinate_clamps_to_zero() {
    let t = three_pixel_row();
    // A negative wrapped coordinate truncates to pixel 0, as the float cast
    // to an unsigned index does.
    assert_eq!(t.color(-ONE / 4, 0), Vec3::new(10 * ONE, 0, 0));
}

#[test]
fn texture_enum_dispatches() {
    let t = Texture::Checkerboard(CheckerboardTexture::new(ONE));
    assert_eq!(t.color(ONE / 4, 3 * ONE / 4), Vec3::new(0, 0, 0));
    let im = Texture::Image(three_pixel_row());
    assert_eq!(im.color(0, 0), Vec3::new(10 * ONE, 0, 0));
}
