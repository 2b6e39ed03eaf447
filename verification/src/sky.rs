//! Sky resources and fog records.

use vstd::prelude::*;
use crate::color::{ColorRgb, spec_lerp_rgb, spec_clamp_rgb, lerp_rgb, clamp_rgb};
use crate::error::{Error, MResult};
use crate::fixed::{FRAC_ONE, spec_lerp, lerp_frac};

verus! {

/// One fog configuration.
///
/// Distances are fixed-point world units; opacities are fixed-point
/// fractions.  A record whose `distance_to` is exactly 0 means "fog
/// disabled" and is normalized to the default record when a sky is inserted.
#[derive(Clone, Copy, PartialEq, Eq, Structural, Debug)]
pub struct FogData {
    /// Fog color.
    pub color: ColorRgb,
    /// Minimum distance at which fog is applied.
    pub distance_from: u32,
    /// Distance at which fog reaches its maximum opacity.
    pub distance_to: u32,
    /// Minimum fog opacity.
    pub min_opacity: u32,
    /// Maximum fog opacity.  At exactly `FRAC_ONE` the far draw distance is
    /// clamped to `distance_to`.
    pub max_opacity: u32,
}

impl FogData {
    /// The record's own validity invariant.
    pub open spec fn valid(&self) -> bool {
        &&& self.color.valid()
        &&& self.distance_from <= self.distance_to
        &&& self.min_opacity <= self.max_opacity
        &&& self.max_opacity <= FRAC_ONE
    }

    /// Check the invariant, failing with a validation error when it does not
    /// hold.
    pub fn validate(&self) -> (r: MResult<()>)
        ensures
            r is Ok <==> self.valid(),
    {
        if self.color.r > FRAC_ONE || self.color.g > FRAC_ONE || self.color.b > FRAC_ONE {
            return Err(Error::Validation);
        }
        if self.distance_to < self.distance_from {
            return Err(Error::Validation);
        }
        if self.min_opacity > FRAC_ONE {
            return Err(Error::Validation);
        }
        if self.max_opacity < self.min_opacity || self.max_opacity > FRAC_ONE {
            return Err(Error::Validation);
        }
        Ok(())
    }

    /// Clamp every field to the record's invariant: color channels to valid
    /// fractions, `distance_to` up to at least `distance_from`, opacities to
    /// valid fractions with `max_opacity` at least `min_opacity`.
    pub fn normalize(&mut self)
        ensures
            *final(self) == spec_normalize(*old(self)),
            final(self).valid(),
    {
        self.color = clamp_rgb(self.color);
        if self.distance_to < self.distance_from {
            self.distance_to = self.distance_from;
        }
        if self.min_opacity > FRAC_ONE {
            self.min_opacity = FRAC_ONE;
        }
        if self.max_opacity < self.min_opacity {
            self.max_opacity = self.min_opacity;
        } else if self.max_opacity > FRAC_ONE {
            self.max_opacity = FRAC_ONE;
        }
    }
}

/// The clamp pass over one fog record.
pub open spec fn spec_normalize(f: FogData) -> FogData {
    let min = if f.min_opacity > FRAC_ONE { FRAC_ONE } else { f.min_opacity };
    FogData {
        color: spec_clamp_rgb(f.color),
        distance_from: f.distance_from,
        distance_to: if f.distance_to < f.distance_from { f.distance_from } else { f.distance_to },
        min_opacity: min,
        max_opacity: if f.max_opacity < min {
            min
        } else if f.max_opacity > FRAC_ONE {
            FRAC_ONE
        } else {
            f.max_opacity
        },
    }
}

/// The clamp pass always establishes the fog invariant, whatever record it
/// is given: opacities end ordered within `[0, 1]`, distances ordered, and
/// every color channel within `[0, 1]`.
pub proof fn lemma_normalize_valid(f: FogData)
    ensures
        spec_normalize(f).valid(),
{
}

/// The clamp pass leaves a record that already satisfies the invariant
/// unchanged.
pub proof fn lemma_normalize_identity(f: FogData)
    requires
        f.valid(),
    ensures
        spec_normalize(f) == f,
{
}

/// Channel-wise interpolation of every fog field from `a` toward `b`.
pub open spec fn spec_fog_lerp(a: FogData, b: FogData, t: int) -> FogData {
    FogData {
        color: spec_lerp_rgb(a.color, b.color, t),
        distance_from: spec_lerp(a.distance_from as int, b.distance_from as int, t) as u32,
        distance_to: spec_lerp(a.distance_to as int, b.distance_to as int, t) as u32,
        min_opacity: spec_lerp(a.min_opacity as int, b.min_opacity as int, t) as u32,
        max_opacity: spec_lerp(a.max_opacity as int, b.max_opacity as int, t) as u32,
    }
}

/// Interpolate every fog field from `a` toward `b` by `t / FRAC_ONE`.
pub fn fog_lerp(a: &FogData, b: &FogData, t: u32) -> (r: FogData)
    requires
        t <= FRAC_ONE,
    ensures
        r == spec_fog_lerp(*a, *b, t as int),
{
    FogData {
        color: lerp_rgb(a.color, b.color, t),
        distance_from: lerp_frac(a.distance_from, b.distance_from, t),
        distance_to: lerp_frac(a.distance_to, b.distance_to, t),
        min_opacity: lerp_frac(a.min_opacity, b.min_opacity, t),
        max_opacity: lerp_frac(a.max_opacity, b.max_opacity, t),
    }
}

impl Default for FogData {
    /// The non-fogging record: black, zero opacity, unit span.
    fn default() -> (r: FogData)
        ensures
            r == spec_default_fog(),
    {
        FogData {
            color: ColorRgb { r: 0, g: 0, b: 0 },
            distance_from: 0,
            distance_to: FRAC_ONE,
            min_opacity: 0,
            max_opacity: 0,
        }
    }
}

/// The default (non-fogging) record.
pub open spec fn spec_default_fog() -> FogData {
    FogData {
        color: ColorRgb { r: 0, g: 0, b: 0 },
        distance_from: 0,
        distance_to: FRAC_ONE,
        min_opacity: 0,
        max_opacity: 0,
    }
}

/// A sky resource: an optional skybox geometry reference and the fog used
/// outdoors and indoors under this sky.
pub struct Sky {
    /// Key of the skybox geometry in the registry, if the sky has one.
    pub geometry: Option<String>,
    /// Fog applied in outdoor clusters.
    pub outdoor_fog: FogData,
    /// Fog applied in indoor clusters.
    pub indoor_fog: FogData,
}

/// Parameters for adding a sky resource.
pub struct AddSkyParameter {
    pub geometry: Option<String>,
    pub outdoor_fog: FogData,
    pub indoor_fog: FogData,
}

impl AddSkyParameter {
    /// Both fog records satisfy their invariant and the referenced skybox
    /// geometry, if any, is loaded.
    pub open spec fn valid(
        &self,
        geometries: Seq<(Seq<char>, crate::geometry::Geometry)>,
    ) -> bool {
        &&& self.outdoor_fog.valid()
        &&& self.indoor_fog.valid()
        &&& match self.geometry {
            Option::None => true,
            Option::Some(ref k) => crate::keymap::spec_contains_key(geometries, k@),
        }
    }

    /// Check both fog records and the geometry reference.
    pub fn validate(
        &self,
        geometries: &crate::keymap::KeyMap<crate::geometry::Geometry>,
    ) -> (r: MResult<()>)
        ensures
            r is Ok <==> self.valid(geometries@),
    {
        self.outdoor_fog.validate()?;
        self.indoor_fog.validate()?;
        match &self.geometry {
            Option::Some(s) => {
                if !geometries.contains_key(s) {
                    return Err(Error::Validation);
                }
            },
            Option::None => {},
        }
        Ok(())
    }
}

/// The record a sky stores for a supplied fog configuration: a
/// `distance_to` of exactly 0 means "fog disabled" and is replaced by the
/// default record.
pub open spec fn spec_normalize_disabled_fog(f: FogData) -> FogData {
    if f.distance_to == 0 {
        spec_default_fog()
    } else {
        f
    }
}

/// Replace a "fog disabled" record (one whose `distance_to` is exactly 0)
/// by the default record.
pub fn normalize_disabled_fog(f: FogData) -> (r: FogData)
    ensures
        r == spec_normalize_disabled_fog(f),
{
    if f.distance_to == 0 {
        FogData::default()
    } else {
        f
    }
}

} // verus!
