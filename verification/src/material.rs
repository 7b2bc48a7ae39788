//! Materials: which surfaces emit, which scatter, and how.

use vstd::prelude::*;
use crate::pdf::PDF;

verus! {

/// The closed set of surface behaviours.
#[derive(Clone, Copy, Debug, PartialEq, Eq, Structural)]
pub enum Material {
    /// Shows the surface normal as if it were emitted light.
    Normal,
    /// Diffuse, with one albedo.
    Lambertian,
    /// Diffuse, with the albedo read from a texture.
    LambertianTexture,
    /// Mirror-like, blurred by a fuzz radius.
    Metal,
    /// Transparent, with a refractive index.
    Dielectric,
    /// A light of one color.
    DiffuseLight,
    /// A light with its color read from a texture.
    DiffuseLightTexture,
    /// The phase function of a thin medium.
    Isotropic,
}

/// Where the radiance that a surface emits is read from.
#[derive(Clone, Copy, Debug, PartialEq, Eq, Structural)]
pub enum Emission {
    /// Nothing is emitted.
    Zero,
    /// The surface normal at the hit.
    Normal,
    /// The color of the light.
    Solid,
    /// The texture of the light, at the texture coordinates of the hit.
    Textured,
}

/// What the geometry of one hit says about how the ray meets the surface.
/// Each flag is the outcome of one test on the incoming direction and the
/// normal.
#[derive(Clone, Copy, Debug, PartialEq, Eq, Structural)]
pub struct Incidence {
    /// The mirrored direction points into the surface.
    pub inward: bool,
    /// By Snell's law no refracted ray exists.
    pub total_internal_reflection: bool,
    /// The uniform draw fell below the Fresnel reflectance.
    pub fresnel_reflection: bool,
}

/// The direction in which a specular event continues.
#[derive(Clone, Copy, Debug, PartialEq, Eq, Structural)]
pub enum SpecularRay {
    /// The mirrored direction, moved by the fuzz radius times a random point
    /// of the unit ball.
    FuzzyReflection,
    /// The mirrored direction.
    Reflection,
    /// The refracted direction.
    Refraction,
    /// A random direction of the unit ball.
    Uniform,
}

/// How a surface scatters a ray.
#[derive(Debug, PartialEq, Eq)]
pub enum ScatterRecord {
    /// One continuation ray, weighted by the attenuation alone.
    Specular { specular_ray: SpecularRay },
    /// A distribution to draw the continuation from.
    Scatter { pdf: PDF },
}

/// The density with which a surface scatters into a given direction.
#[derive(Clone, Copy, Debug, PartialEq, Eq, Structural)]
pub enum Density {
    /// The cosine between normal and direction over pi, and zero below the
    /// surface.
    Cosine,
    /// Zero in every direction.
    Zero,
}

impl Material {
    /// Whether the material gives off light.
    pub open spec fn is_emissive(self) -> bool {
        self == Material::Normal || self == Material::DiffuseLight || self
            == Material::DiffuseLightTexture
    }

    /// Whether the material scatters diffusely.
    pub open spec fn is_diffuse(self) -> bool {
        self == Material::Lambertian || self == Material::LambertianTexture
    }

    /// What the material emits towards a ray that meets it on the front face
    /// (`front_face`) or from behind.
    pub open spec fn emission(self, front_face: bool) -> Emission {
        if !front_face {
            Emission::Zero
        } else {
            match self {
                Material::Normal => Emission::Normal,
                Material::DiffuseLight => Emission::Solid,
                Material::DiffuseLightTexture => Emission::Textured,
                _ => Emission::Zero,
            }
        }
    }

    /// How the material scatters a ray of the given incidence, if it does.
    pub open spec fn scattering(self, incidence: Incidence) -> Option<ScatterRecord> {
        match self {
            Material::Lambertian | Material::LambertianTexture => Some(
                ScatterRecord::Scatter { pdf: PDF::Cosine },
            ),
            Material::Metal => if incidence.inward {
                None
            } else {
                Some(ScatterRecord::Specular { specular_ray: SpecularRay::FuzzyReflection })
            },
            Material::Dielectric => if incidence.total_internal_reflection
                || incidence.fresnel_reflection {
                Some(ScatterRecord::Specular { specular_ray: SpecularRay::Reflection })
            } else {
                Some(ScatterRecord::Specular { specular_ray: SpecularRay::Refraction })
            },
            Material::Isotropic => Some(
                ScatterRecord::Specular { specular_ray: SpecularRay::Uniform },
            ),
            Material::Normal | Material::DiffuseLight | Material::DiffuseLightTexture => None,
        }
    }

    /// Tells where the emitted radiance is read from. Only an emissive
    /// material emits, and only from its front face.
    pub fn emitted(&self, front_face: bool) -> (r: Emission)
        ensures
            r == self.emission(front_face),
            r != Emission::Zero <==> front_face && self.is_emissive(),
    {
        if front_face {
            match self {
                Material::Normal => Emission::Normal,
                Material::DiffuseLight => Emission::Solid,
                Material::DiffuseLightTexture => Emission::Textured,
                _ => Emission::Zero,
            }
        } else {
            Emission::Zero
        }
    }

    /// Decides how a ray of the given incidence is scattered.
    ///
    /// A diffuse material hands out a cosine distribution. Metal reflects
    /// with fuzz unless the mirrored direction points into the surface, where
    /// it scatters nothing. A dielectric reflects on total internal
    /// reflection or when the draw against the Fresnel reflectance says so,
    /// and refracts otherwise. A medium scatters uniformly. Lights scatter
    /// nothing.
    pub fn scatter(&self, incidence: &Incidence) -> (r: Option<ScatterRecord>)
        ensures
            r == self.scattering(*incidence),
            r.is_none() <==> self.is_emissive() || (*self == Material::Metal && incidence.inward),
            r matches Some(ScatterRecord::Scatter { .. }) <==> self.is_diffuse(),
    {
        match self {
            Material::Lambertian | Material::LambertianTexture => Some(
                ScatterRecord::Scatter { pdf: PDF::Cosine },
            ),
            Material::Metal => {
                if incidence.inward {
                    None
                } else {
                    Some(ScatterRecord::Specular { specular_ray: SpecularRay::FuzzyReflection })
                }
            },
            Material::Dielectric => {
                if incidence.total_internal_reflection {
                    return Some(ScatterRecord::Specular { specular_ray: SpecularRay::Reflection });
                }
                if incidence.fresnel_reflection {
                    return Some(ScatterRecord::Specular { specular_ray: SpecularRay::Reflection });
                }
                Some(ScatterRecord::Specular { specular_ray: SpecularRay::Refraction })
            },
            Material::Isotropic => Some(
                ScatterRecord::Specular { specular_ray: SpecularRay::Uniform },
            ),
            _ => None,
        }
    }

    /// The density that weights a diffusely scattered ray: the cosine law
    /// for a diffuse material, zero for every other.
    pub fn scattering_pdf(&self) -> (r: Density)
        ensures
            r == if self.is_diffuse() {
                Density::Cosine
            } else {
                Density::Zero
            },
    {
        match self {
            Material::Lambertian | Material::LambertianTexture => Density::Cosine,
            _ => Density::Zero,
        }
    }
}

} // verus!
