use vstd::prelude::*;
use image::ColorType;
use image::DynamicImage;
use image::GenericImageView;
use crate::grid::CellKind;

verus! {

/// `image::DynamicImage`, a decoded picture. The verifier sees nothing
/// inside it: what the library knows of a picture it has from the four
/// names below.
#[verifier::external_type_specification]
#[verifier::external_body]
pub struct ExDynamicImage(DynamicImage);

/// The number of pixel columns of a decoded image: what
/// `image::DynamicImage::width` returns for it.
pub uninterp spec fn image_width(image: DynamicImage) -> u32;

/// The number of pixel rows of a decoded image: what
/// `image::DynamicImage::height` returns for it.
pub uninterp spec fn image_height(image: DynamicImage) -> u32;

/// Whether a decoded image keeps its samples as 32-bit floats: whether
/// `image::DynamicImage::color` returns one of the two float color types
/// for it.
pub uninterp spec fn image_float(image: DynamicImage) -> bool;

/// The pixels of a decoded image of integer samples as red, green, blue and
/// alpha, by column and row: what `image::GenericImageView::get_pixel`
/// returns for each place inside it.
pub uninterp spec fn image_texels(image: DynamicImage) -> Map<(int, int), [u8; 4]>;

/// `image::DynamicImage::color`: the color type of the variant that the
/// image is, of which the wrapper tells the two with float samples from the
/// rest. Not proved: that the call returns what is named above.
#[verifier::external_body]
pub(crate) fn image_has_float_samples(image: &DynamicImage) -> (float: bool)
    ensures
        float == image_float(*image),
{
    match image.color() {
        ColorType::Rgb32F => true,
        ColorType::Rgba32F => true,
        _ => false,
    }
}

/// `image::DynamicImage::width`: the width of the underlying pixel buffer.
/// Not proved: that the call returns the width named above.
pub assume_specification[ DynamicImage::width ](image: &DynamicImage) -> (w: u32)
    ensures
        w == image_width(*image),
;

/// `image::DynamicImage::height`: the height of the underlying pixel buffer.
/// Not proved: that the call returns the height named above.
pub assume_specification[ DynamicImage::height ](image: &DynamicImage) -> (h: u32)
    ensures
        h == image_height(*image),
;

/// `image::GenericImageView::get_pixel` on a `DynamicImage`: the pixel at
/// column `x` and row `y`, converted to eight-bit RGBA. It panics outside the
/// image's bounds, and on a float sample that is no number, where the
/// conversion unwraps a failed cast: the precondition leaves out both, the
/// second with every image of float samples. Not proved: that the call
/// returns the texel named above.
#[verifier::external_body]
pub(crate) fn image_get_pixel(image: &DynamicImage, x: u32, y: u32) -> (texel: [u8; 4])
    requires
        !image_float(*image),
        x < image_width(*image),
        y < image_height(*image),
    ensures
        texel == image_texels(*image)[(x as int, y as int)],
{
    image.get_pixel(x, y).0
}

pub const BLACK: [u8; 4] = [0, 0, 0, 255];

/// A texel made opaque.
pub open spec fn opaque(texel: [u8; 4]) -> [u8; 4] {
    [texel[0], texel[1], texel[2], 255u8]
}

/// A decoded picture of integer samples to sample colors from.
pub struct Texture {
    pub image: DynamicImage,
    pub width: u32,
    pub height: u32,
}

impl Texture {
    /// A texture is well formed when its picture has integer samples and
    /// `width` and `height` are those of the picture.
    pub open spec fn wf(&self) -> bool {
        &&& !image_float(self.image)
        &&& self.width == image_width(self.image)
        &&& self.height == image_height(self.image)
    }

    /// The texels of the picture, by column and row.
    pub open spec fn texels(&self) -> Map<(int, int), [u8; 4]> {
        image_texels(self.image)
    }

    /// The color that the texture gives at column `x` and row `y`: that of
    /// its picture there, made opaque.
    pub open spec fn color_at(&self, x: int, y: int) -> [u8; 4] {
        opaque(self.texels()[(x, y)])
    }

    pub open spec fn is_empty(&self) -> bool {
        self.width == 0 || self.height == 0
    }

    /// Makes a texture of a picture, unless the picture keeps its samples as
    /// floats.
    pub fn new(image: DynamicImage) -> (r: Option<Texture>)
        ensures
            r is Some <==> !image_float(image),
            r matches Some(texture) ==> texture.wf() && texture.image == image && texture.width
                == image_width(image) && texture.height == image_height(image),
    {
        if image_has_float_samples(&image) {
            return None;
        }
        let width = image.width();
        let height = image.height();
        Some(Texture { image, width, height })
    }

    /// Whether the texture is well formed.
    pub fn is_wf(&self) -> (r: bool)
        ensures
            r == self.wf(),
    {
        !image_has_float_samples(&self.image) && self.width == self.image.width() && self.height
            == self.image.height()
    }

    /// Whether the texture is well formed and has a texel.
    pub fn is_usable(&self) -> (r: bool)
        ensures
            r == (self.wf() && !self.is_empty()),
    {
        self.is_wf() && self.width != 0 && self.height != 0
    }

    /// The color of the texture at column `x` and row `y`.
    pub fn get_pixel_color(&self, x: u32, y: u32) -> (color: [u8; 4])
        requires
            self.wf(),
            x < self.width,
            y < self.height,
        ensures
            color == self.color_at(x as int, y as int),
    {
        let texel = image_get_pixel(&self.image, x, y);
        [texel[0], texel[1], texel[2], 255]
    }
}

/// The textures of a scene: one for the walls, one for doors and the goal,
/// one for collectibles and one for the sprite.
pub struct Textures {
    pub wall: Texture,
    pub door: Texture,
    pub collectible: Texture,
    pub sprite: Texture,
}

impl Textures {
    /// The textures of a scene are well formed when each of them is, and
    /// none is empty.
    pub open spec fn wf(&self) -> bool {
        &&& self.wall.wf() && !self.wall.is_empty()
        &&& self.door.wf() && !self.door.is_empty()
        &&& self.collectible.wf() && !self.collectible.is_empty()
        &&& self.sprite.wf() && !self.sprite.is_empty()
    }

    /// Puts four textures together, unless one of them is empty or not well
    /// formed.
    pub fn new(wall: Texture, door: Texture, collectible: Texture, sprite: Texture) -> (r: Option<
        Textures,
    >)
        ensures
            r is Some <==> (Textures { wall, door, collectible, sprite }).wf(),
            r matches Some(t) ==> t.wall == wall && t.door == door && t.collectible == collectible
                && t.sprite == sprite,
    {
        let textures = Textures { wall, door, collectible, sprite };
        if textures.is_wf() {
            Some(textures)
        } else {
            None
        }
    }

    /// Whether the textures are well formed.
    pub fn is_wf(&self) -> (r: bool)
        ensures
            r == self.wf(),
    {
        self.wall.is_usable() && self.door.is_usable() && self.collectible.is_usable()
            && self.sprite.is_usable()
    }

    /// The texture that cells of this kind are drawn with, if they have one.
    pub open spec fn surface_of(&self, kind: CellKind) -> Option<Texture> {
        match kind {
            CellKind::WallA => Some(self.wall),
            CellKind::Door => Some(self.door),
            CellKind::Goal => Some(self.door),
            CellKind::Collectible => Some(self.collectible),
            _ => None,
        }
    }

    pub fn for_kind(&self, kind: CellKind) -> (r: Option<&Texture>)
        ensures
            match r {
                Some(texture) => self.surface_of(kind) == Some(*texture),
                None => self.surface_of(kind) is None,
            },
    {
        match kind {
            CellKind::WallA => Some(&self.wall),
            CellKind::Door => Some(&self.door),
            CellKind::Goal => Some(&self.door),
            CellKind::Collectible => Some(&self.collectible),
            _ => None,
        }
    }
}

} // verus!
