use vstd::prelude::*;
use crate::color::Color;
use crate::scalar::{Scalar, ONE_BITS};
use crate::textures::Texture;

verus! {

/// The textures of a scene. A material names its texture by the index that
/// `load_texture` gave.
pub struct TextureManager {
    pub textures: Vec<Texture>,
}

impl TextureManager {
    /// The textures in the order in which they were loaded.
    pub open spec fn view(&self) -> Seq<Texture> {
        self.textures@
    }

    /// Every texture held is well formed.
    pub open spec fn wf(&self) -> bool {
        forall|i: int| 0 <= i < self@.len() ==> (#[trigger] self@[i]).wf()
    }

    pub fn new() -> (m: TextureManager)
        ensures
            m@.len() == 0,
            m.wf(),
    {
        TextureManager { textures: Vec::new() }
    }

    /// Adds a texture and returns the index under which it is found again.
    pub fn load_texture(&mut self, texture: Texture) -> (index: usize)
        ensures
            index == old(self)@.len(),
            final(self)@ == old(self)@.push(texture),
            old(self).wf() && texture.wf() ==> final(self).wf(),
    {
        self.textures.push(texture);
        proof {
            if old(self).wf() && texture.wf() {
                assert forall|i: int| 0 <= i < self@.len() implies (#[trigger] self@[i]).wf() by {
                    if i < old(self)@.len() {
                        assert(self@[i] == old(self)@[i]);
                    }
                }
            }
        }
        self.textures.len() - 1
    }

    /// The texture that was loaded as number `index`.
    pub fn get_texture(&self, index: usize) -> (t: &Texture)
        requires
            index < self@.len(),
        ensures
            *t == self@[index as int],
    {
        &self.textures[index]
    }

    /// How many textures were loaded.
    pub fn len(&self) -> (n: usize)
        ensures
            n == self@.len(),
    {
        self.textures.len()
    }
}

/// How a surface answers to light.
#[derive(Debug, Clone, Copy)]
pub struct Material {
    pub diffuse: Color,
    pub specular: Scalar,
    pub albedo: [Scalar; 2],
    pub reflectivity: Scalar,
    pub transparency: Scalar,
    pub refraction_index: Scalar,
    pub texture_index: Option<usize>,
    pub emissive_color: Option<Color>,
    pub emissive_intensity: Scalar,
}

impl Material {
    /// Whether texel `(x, y)` of this material's texture can be read from
    /// `textures`. A material without a texture needs nothing.
    pub open spec fn texel_in_range(&self, x: usize, y: usize, textures: &TextureManager) -> bool {
        match self.texture_index {
            Some(i) => i < textures@.len() && textures@[i as int].wf() && x < textures@[i as int].width
                && y < textures@[i as int].height,
            None => true,
        }
    }

    /// Both albedo weights lie between zero and one, and a transparent
    /// material has a refraction index above zero.
    pub open spec fn valid(&self) -> bool {
        &&& (Scalar { bits: 0 }).le_spec(self.albedo[0]) && self.albedo[0].le_spec(Scalar { bits: ONE_BITS })
        &&& (Scalar { bits: 0 }).le_spec(self.albedo[1]) && self.albedo[1].le_spec(Scalar { bits: ONE_BITS })
        &&& self.transparency.positive() ==> self.refraction_index.positive()
    }

    pub fn is_valid(&self) -> (r: bool)
        ensures
            r == self.valid(),
    {
        let zero = Scalar::zero();
        let one = Scalar::from_bits(ONE_BITS);
        zero.le(self.albedo[0]) && self.albedo[0].le(one) && zero.le(self.albedo[1])
            && self.albedo[1].le(one) && (!self.transparency.is_positive()
            || self.refraction_index.is_positive())
    }

    /// A material with a flat colour, no texture and no emission.
    pub fn new(
        diffuse: Color,
        specular: Scalar,
        albedo: [Scalar; 2],
        reflectivity: Scalar,
        transparency: Scalar,
        refraction_index: Scalar,
    ) -> (m: Material)
        ensures
            m.diffuse == diffuse,
            m.specular == specular,
            m.albedo == albedo,
            m.reflectivity == reflectivity,
            m.transparency == transparency,
            m.refraction_index == refraction_index,
            m.texture_index.is_none(),
            m.emissive_color.is_none(),
            m.emissive_intensity.bits == 0,
    {
        Material {
            diffuse,
            specular,
            albedo,
            reflectivity,
            transparency,
            refraction_index,
            texture_index: None,
            emissive_color: None,
            emissive_intensity: Scalar::zero(),
        }
    }

    /// A textured material: opaque, not reflective, no emission. Its flat
    /// colour is black and is not used while the texture is there.
    pub fn new_with_texture(
        texture_index: usize,
        specular: Scalar,
        albedo: [Scalar; 2],
        refraction_index: Scalar,
    ) -> (m: Material)
        ensures
            m.diffuse == (Color { red: 0, green: 0, blue: 0 }),
            m.specular == specular,
            m.albedo == albedo,
            m.reflectivity.bits == 0,
            m.transparency.bits == 0,
            m.refraction_index == refraction_index,
            m.texture_index == Some(texture_index),
            m.emissive_color.is_none(),
            m.emissive_intensity.bits == 0,
    {
        Material {
            diffuse: Color::new(0, 0, 0),
            specular,
            albedo,
            reflectivity: Scalar::zero(),
            transparency: Scalar::zero(),
            refraction_index,
            texture_index: Some(texture_index),
            emissive_color: None,
            emissive_intensity: Scalar::zero(),
        }
    }

    /// A material with a flat colour that may give off light of its own.
    pub fn new_with_emission(
        diffuse: Color,
        specular: Scalar,
        albedo: [Scalar; 2],
        reflectivity: Scalar,
        transparency: Scalar,
        refraction_index: Scalar,
        emissive_color: Option<Color>,
        emissive_intensity: Scalar,
    ) -> (m: Material)
        ensures
            m.diffuse == diffuse,
            m.specular == specular,
            m.albedo == albedo,
            m.reflectivity == reflectivity,
            m.transparency == transparency,
            m.refraction_index == refraction_index,
            m.texture_index.is_none(),
            m.emissive_color == emissive_color,
            m.emissive_intensity == emissive_intensity,
    {
        Material {
            diffuse,
            specular,
            albedo,
            reflectivity,
            transparency,
            refraction_index,
            texture_index: None,
            emissive_color,
            emissive_intensity,
        }
    }

    /// Whether the surface gives off light: its emissive intensity is above zero.
    pub fn is_emissive(&self) -> (r: bool)
        ensures
            r == self.emissive_intensity.positive(),
    {
        self.emissive_intensity.is_positive()
    }

    /// Whether a share of the colour comes from a reflected ray.
    pub fn is_reflective(&self) -> (r: bool)
        ensures
            r == self.reflectivity.positive(),
    {
        self.reflectivity.is_positive()
    }

    /// Whether a share of the colour comes from a refracted ray.
    pub fn is_transparent(&self) -> (r: bool)
        ensures
            r == self.transparency.positive(),
    {
        self.transparency.is_positive()
    }

    /// The surface colour at texel `(x, y)`: read from the texture where the
    /// material has one, else the flat colour.
    pub fn get_diffuse_color(&self, x: usize, y: usize, texture_manager: &TextureManager) -> (c: Color)
        requires
            self.texel_in_range(x, y, texture_manager),
        ensures
            c == (match self.texture_index {
                Some(i) => texture_manager@[i as int]@[y * texture_manager@[i as int].width + x],
                None => self.diffuse,
            }),
    {
        if let Some(texture_index) = self.texture_index {
            let texture = texture_manager.get_texture(texture_index);
            texture.get_color(x, y)
        } else {
            self.diffuse
        }
    }

    /// The material of a surface that shows nothing: every weight is zero.
    pub fn black() -> (m: Material)
        ensures
            m.diffuse == (Color { red: 0, green: 0, blue: 0 }),
            m.specular.bits == 0,
            m.albedo[0].bits == 0,
            m.albedo[1].bits == 0,
            m.reflectivity.bits == 0,
            m.transparency.bits == 0,
            m.refraction_index.bits == 0,
            m.texture_index.is_none(),
            m.emissive_color.is_none(),
            m.emissive_intensity.bits == 0,
            m.valid(),
    {
        Material {
            diffuse: Color::new(0, 0, 0),
            specular: Scalar::zero(),
            albedo: [Scalar::zero(), Scalar::zero()],
            reflectivity: Scalar::zero(),
            transparency: Scalar::zero(),
            refraction_index: Scalar::zero(),
            texture_index: None,
            emissive_color: None,
            emissive_intensity: Scalar::zero(),
        }
    }
}

} // verus!
