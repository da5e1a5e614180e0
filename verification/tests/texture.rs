use image::{DynamicImage, GrayImage, Luma, Rgb, Rgb32FImage, Rgba, Rgba32FImage, RgbaImage};
use raycaster::grid::CellKind;
use raycaster::texture::{Texture, Textures, BLACK};

fn picture(width: u32, height: u32, seed: u8) -> DynamicImage {
    DynamicImage::ImageRgba8(RgbaImage::from_fn(width, height, |x, y| {
        Rgba([seed + x as u8, seed + 10 * y as u8, seed, 100 + x as u8 + y as u8])
    }))
}

#[test]
fn texture_takes_its_size_from_the_picture() {
    let texture = Texture::new(picture(3, 2, 0)).unwrap();
    assert_eq!(texture.width, 3);
    assert_eq!(texture.height, 2);
    let empty = Texture::new(picture(0, 0, 0)).unwrap();
    assert_eq!(empty.width, 0);
    assert_eq!(empty.height, 0);
}

#[test]
fn pixel_color_is_the_texel_made_opaque() {
    let texture = Texture::new(picture(3, 2, 40)).unwrap();
    assert_eq!(texture.get_pixel_color(0, 0), [40, 40, 40, 255]);
    assert_eq!(texture.get_pixel_color(2, 0), [42, 40, 40, 255]);
    assert_eq!(texture.get_pixel_color(0, 1), [40, 50, 40, 255]);
    assert_eq!(texture.get_pixel_color(2, 1), [42, 50, 40, 255]);
}

#[test]
fn gray_picture_gives_gray_colors() {
    let gray = DynamicImage::ImageLuma8(GrayImage::from_pixel(1, 1, Luma([77])));
    let texture = Texture::new(gray).unwrap();
    assert_eq!(texture.get_pixel_color(0, 0), [77, 77, 77, 255]);
}

#[test]
fn textures_refuse_an_empty_picture() {
    let full = |seed| Texture::new(picture(2, 2, seed)).unwrap();
    assert!(Textures::new(full(1), full(2), full(3), full(4)).is_some());
    assert!(Textures::new(Texture::new(picture(0, 2, 1)).unwrap(), full(2), full(3), full(4)).is_none());
    assert!(Textures::new(full(1), Texture::new(picture(2, 0, 1)).unwrap(), full(3), full(4)).is_none());
    assert!(Textures::new(full(1), full(2), Texture::new(picture(0, 0, 1)).unwrap(), full(4)).is_none());
    assert!(Textures::new(full(1), full(2), full(3), Texture::new(picture(0, 1, 1)).unwrap()).is_none());
}

#[test]
fn each_kind_has_its_texture() {
    let full = |seed| Texture::new(picture(1, 1, seed)).unwrap();
    let textures = Textures::new(full(1), full(2), full(3), full(4)).unwrap();
    let color = |kind| textures.for_kind(kind).map(|t| t.get_pixel_color(0, 0));
    assert_eq!(color(CellKind::WallA), Some([1, 1, 1, 255]));
    assert_eq!(color(CellKind::Door), Some([2, 2, 2, 255]));
    assert_eq!(color(CellKind::Goal), Some([2, 2, 2, 255]));
    assert_eq!(color(CellKind::Collectible), Some([3, 3, 3, 255]));
    assert_eq!(color(CellKind::Empty), None);
    assert_eq!(color(CellKind::SpawnMarker), None);
    assert_eq!(textures.sprite.get_pixel_color(0, 0), [4, 4, 4, 255]);
    assert_eq!(BLACK, [0, 0, 0, 255]);
}

#[test]
fn well_formed_textures_are_told_apart() {
    let mut texture = Texture::new(picture(3, 2, 0)).unwrap();
    assert!(texture.is_wf());
    assert!(texture.is_usable());
    texture.width = 4;
    assert!(!texture.is_wf());
    assert!(!texture.is_usable());
    let empty = Texture::new(picture(0, 5, 0)).unwrap();
    assert!(empty.is_wf());
    assert!(!empty.is_usable());
    let full = |seed| Texture::new(picture(2, 2, seed)).unwrap();
    let mut textures = Textures::new(full(1), full(2), full(3), full(4)).unwrap();
    assert!(textures.is_wf());
    textures.door.height = 1;
    assert!(!textures.is_wf());
    let mut stretched = full(1);
    stretched.width = 3;
    assert!(Textures::new(full(1), full(2), stretched, full(4)).is_none());
}

#[test]
fn sixteen_bit_picture_gives_rounded_colors() {
    let deep = DynamicImage::ImageRgba16(image::ImageBuffer::from_pixel(
        1,
        1,
        Rgba([0u16, 128, 65535, 7]),
    ));
    let texture = Texture::new(deep).unwrap();
    assert_eq!(texture.get_pixel_color(0, 0), [0, 0, 255, 255]);
}

// A picture of float samples can hold what is no number, of which no color
// can be made: such pictures are no textures.
#[test]
fn float_picture_is_no_texture() {
    let nan = DynamicImage::ImageRgb32F(Rgb32FImage::from_pixel(2, 2, Rgb([f32::NAN, 0.0, 1.0])));
    assert!(Texture::new(nan.clone()).is_none());
    let plain = DynamicImage::ImageRgba32F(Rgba32FImage::from_pixel(
        2,
        2,
        Rgba([0.5f32, 0.0, 1.0, 1.0]),
    ));
    assert!(Texture::new(plain).is_none());
    let forged = Texture { image: nan, width: 2, height: 2 };
    assert!(!forged.is_wf());
    assert!(!forged.is_usable());
    let full = |seed| Texture::new(picture(2, 2, seed)).unwrap();
    assert!(Textures::new(full(1), full(2), forged, full(4)).is_none());
}
