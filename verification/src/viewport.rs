//! Player viewports: screen layout, cameras, and per-viewport fog state.

use vstd::prelude::*;
use crate::error::{Error, MResult};
use crate::fixed::{
    FRAC_ONE, FRAC_HALF, PI_RADIANS, DEFAULT_VERTICAL_FOV, DRAW_DISTANCE_MINIMUM,
    MAX_DRAW_DISTANCE_LIMIT, FixedVec3,
};
use crate::sky::{FogData, spec_fog_lerp, spec_normalize, fog_lerp};

verus! {

/// A camera: vertical field of view in fixed-point radians, position and
/// facing in fixed-point world units, and per-viewport feature toggles.
#[derive(Clone, Copy, PartialEq, Eq, Structural, Debug)]
pub struct Camera {
    /// Vertical field of view in fixed-point radians; must lie strictly
    /// between 0 and `PI_RADIANS`.
    pub fov: u32,
    /// Position of the camera in the level.
    pub position: FixedVec3,
    /// Facing direction; scaled to unit length when the camera is set,
    /// with the zero vector falling back to the unit y axis.
    pub rotation: FixedVec3,
    /// Whether lightmaps are applied.
    pub lightmaps: bool,
    /// Whether fog is applied.
    pub fog: bool,
}

/// A field of view is valid when it lies strictly between 0 and pi.
pub open spec fn spec_fov_valid(fov: u32) -> bool {
    0 < fov < PI_RADIANS
}

impl Camera {
    /// Whether this camera's field of view is acceptable.  A camera with
    /// `fov <= 0` or `fov >= pi` is rejected by the contract of
    /// `set_camera_for_viewport`, never silently clamped.
    pub fn fov_valid(&self) -> (r: bool)
        ensures
            r == spec_fov_valid(self.fov),
    {
        0 < self.fov && self.fov < PI_RADIANS
    }
}

impl Default for Camera {
    /// Default field of view, at the origin, facing along the y axis, with
    /// lightmaps and fog enabled.
    fn default() -> (r: Camera)
        ensures
            r == spec_default_camera(),
    {
        Camera {
            fov: DEFAULT_VERTICAL_FOV,
            position: FixedVec3 { x: 0, y: 0, z: 0 },
            rotation: FixedVec3 { x: 0, y: FRAC_ONE as i32, z: 0 },
            lightmaps: true,
            fog: true,
        }
    }
}

/// The default camera.
pub open spec fn spec_default_camera() -> Camera {
    Camera {
        fov: DEFAULT_VERTICAL_FOV,
        position: FixedVec3 { x: 0, y: 0, z: 0 },
        rotation: FixedVec3 { x: 0, y: FRAC_ONE as i32, z: 0 },
        lightmaps: true,
        fog: true,
    }
}

/// Fog state of one viewport.
#[derive(Clone, Copy, PartialEq, Eq, Structural, Debug)]
pub struct ViewportFog {
    /// The fog currently displayed.
    pub current_fog_data: FogData,
    /// Outdoor fog of the sky last resolved for this viewport.
    pub outdoor_fog_data: FogData,
    /// Indoor fog of the sky last resolved for this viewport.
    pub indoor_fog_data: FogData,
    /// The fog the current record transitions toward.
    pub target_fog_data: FogData,
    /// Pending transition amount, accumulated from camera displacement and
    /// consumed in one shot; a fixed-point fraction.
    pub transition_amount: u32,
}

impl ViewportFog {
    /// The pending transition amount is a valid fraction.
    pub open spec fn wf(&self) -> bool {
        self.transition_amount <= FRAC_ONE
    }
}

/// A screen-space rectangle in fixed-point fractions of the output surface.
#[derive(Clone, Copy, PartialEq, Eq, Structural, Debug)]
pub struct NormRect {
    pub x: u32,
    pub y: u32,
    pub width: u32,
    pub height: u32,
}

/// One player viewport.
#[derive(Clone, Copy)]
pub struct PlayerViewport {
    /// Left edge of the viewport as a fraction of the surface.
    pub rel_x: u32,
    /// Top edge of the viewport as a fraction of the surface.
    pub rel_y: u32,
    /// Width of the viewport as a fraction of the surface.
    pub rel_width: u32,
    /// Height of the viewport as a fraction of the surface.
    pub rel_height: u32,
    /// Camera of this viewport.
    pub camera: Camera,
    /// Fog state; absent until a sky has been resolved for this viewport.
    pub viewport_fog: Option<ViewportFog>,
    /// Near and far draw distances in fixed-point world units.
    pub draw_distance: [u32; 2],
}

impl PlayerViewport {
    /// Any stored fog state is well formed.
    pub open spec fn wf(&self) -> bool {
        match self.viewport_fog {
            Option::Some(f) => f.wf(),
            Option::None => true,
        }
    }
}

impl Default for PlayerViewport {
    /// A full-surface viewport with the default camera and no fog state.
    fn default() -> (r: PlayerViewport)
        ensures
            r.rel_x == 0 && r.rel_y == 0,
            r.rel_width == FRAC_ONE && r.rel_height == FRAC_ONE,
            r.camera == spec_default_camera(),
            r.viewport_fog is None,
            r.draw_distance@ == seq![DRAW_DISTANCE_MINIMUM, MAX_DRAW_DISTANCE_LIMIT],
            r.wf(),
    {
        let r = PlayerViewport {
            rel_x: 0,
            rel_y: 0,
            rel_width: FRAC_ONE,
            rel_height: FRAC_ONE,
            camera: Camera::default(),
            viewport_fog: None,
            draw_distance: [DRAW_DISTANCE_MINIMUM, MAX_DRAW_DISTANCE_LIMIT],
        };
        proof {
            assert(r.draw_distance@ =~= seq![DRAW_DISTANCE_MINIMUM, MAX_DRAW_DISTANCE_LIMIT]);
        }
        r
    }
}

/// The fixed screen layout for `n` viewports: one full screen; two
/// horizontal halves; a full-width top half over two bottom quarters; or
/// four quarters.
pub open spec fn spec_viewport_rects(n: int) -> Seq<NormRect> {
    if n == 1 {
        seq![NormRect { x: 0, y: 0, width: FRAC_ONE, height: FRAC_ONE }]
    } else if n == 2 {
        seq![
            NormRect { x: 0, y: 0, width: FRAC_ONE, height: FRAC_HALF },
            NormRect { x: 0, y: FRAC_HALF, width: FRAC_ONE, height: FRAC_HALF },
        ]
    } else if n == 3 {
        seq![
            NormRect { x: 0, y: 0, width: FRAC_ONE, height: FRAC_HALF },
            NormRect { x: 0, y: FRAC_HALF, width: FRAC_HALF, height: FRAC_HALF },
            NormRect { x: FRAC_HALF, y: FRAC_HALF, width: FRAC_HALF, height: FRAC_HALF },
        ]
    } else {
        seq![
            NormRect { x: 0, y: 0, width: FRAC_HALF, height: FRAC_HALF },
            NormRect { x: FRAC_HALF, y: 0, width: FRAC_HALF, height: FRAC_HALF },
            NormRect { x: 0, y: FRAC_HALF, width: FRAC_HALF, height: FRAC_HALF },
            NormRect { x: FRAC_HALF, y: FRAC_HALF, width: FRAC_HALF, height: FRAC_HALF },
        ]
    }
}

/// Compute the fixed layout rectangles for `number_of_viewports`; only 1
/// through 4 viewports are supported.
pub fn viewport_rects(number_of_viewports: usize) -> (r: MResult<Vec<NormRect>>)
    ensures
        r is Ok <==> 1 <= number_of_viewports <= 4,
        match r {
            Ok(v) => v@ == spec_viewport_rects(number_of_viewports as int),
            Err(e) => e == Error::Validation,
        },
{
    let mut v: Vec<NormRect> = Vec::new();
    if number_of_viewports == 1 {
        v.push(NormRect { x: 0, y: 0, width: FRAC_ONE, height: FRAC_ONE });
    } else if number_of_viewports == 2 {
        v.push(NormRect { x: 0, y: 0, width: FRAC_ONE, height: FRAC_HALF });
        v.push(NormRect { x: 0, y: FRAC_HALF, width: FRAC_ONE, height: FRAC_HALF });
    } else if number_of_viewports == 3 {
        v.push(NormRect { x: 0, y: 0, width: FRAC_ONE, height: FRAC_HALF });
        v.push(NormRect { x: 0, y: FRAC_HALF, width: FRAC_HALF, height: FRAC_HALF });
        v.push(NormRect { x: FRAC_HALF, y: FRAC_HALF, width: FRAC_HALF, height: FRAC_HALF });
    } else if number_of_viewports == 4 {
        v.push(NormRect { x: 0, y: 0, width: FRAC_HALF, height: FRAC_HALF });
        v.push(NormRect { x: FRAC_HALF, y: 0, width: FRAC_HALF, height: FRAC_HALF });
        v.push(NormRect { x: 0, y: FRAC_HALF, width: FRAC_HALF, height: FRAC_HALF });
        v.push(NormRect { x: FRAC_HALF, y: FRAC_HALF, width: FRAC_HALF, height: FRAC_HALF });
    } else {
        return Err(Error::Validation);
    }
    proof {
        assert(v@ =~= spec_viewport_rects(number_of_viewports as int));
    }
    Ok(v)
}

/// How the resolve pass updates one viewport's fog state from the sky
/// found for its camera's cluster: the sky's outdoor and indoor fog, when
/// one was resolved.
pub open spec fn spec_resolve_fog(
    state: Option<ViewportFog>,
    sky: Option<(FogData, FogData)>,
) -> Option<ViewportFog> {
    match state {
        Option::None => match sky {
            Option::Some(s) => Option::Some(
                ViewportFog {
                    current_fog_data: s.0,
                    outdoor_fog_data: s.0,
                    indoor_fog_data: s.1,
                    target_fog_data: s.0,
                    transition_amount: 0,
                },
            ),
            Option::None => Option::None,
        },
        Option::Some(f) => match sky {
            Option::Some(s) => Option::Some(
                ViewportFog {
                    outdoor_fog_data: s.0,
                    indoor_fog_data: s.1,
                    target_fog_data: s.0,
                    ..f
                },
            ),
            Option::None => Option::Some(ViewportFog { target_fog_data: f.indoor_fog_data, ..f }),
        },
    }
}

/// The transition/clamp pass over one viewport's fog state: consume any
/// pending transition by interpolating the displayed record toward the
/// target, then clamp the displayed record to its invariant.
pub open spec fn spec_transition_step(f: ViewportFog) -> ViewportFog {
    if f.transition_amount > 0 {
        ViewportFog {
            current_fog_data: spec_normalize(
                spec_fog_lerp(f.current_fog_data, f.target_fog_data, f.transition_amount as int),
            ),
            transition_amount: 0,
            ..f
        }
    } else {
        ViewportFog { current_fog_data: spec_normalize(f.current_fog_data), ..f }
    }
}

/// The far draw distance of a viewport: the level's draw distance, further
/// clamped to the displayed fog's opaque distance when that fog is fully
/// opaque.
pub open spec fn spec_far_draw_distance(f: Option<ViewportFog>, bsp_draw_distance: u32) -> u32 {
    match f {
        Option::Some(f) => if f.current_fog_data.max_opacity == FRAC_ONE {
            if bsp_draw_distance < f.current_fog_data.distance_to {
                bsp_draw_distance
            } else {
                f.current_fog_data.distance_to
            }
        } else {
            bsp_draw_distance
        },
        Option::None => bsp_draw_distance,
    }
}

impl PlayerViewport {
    /// The resolve pass: update this viewport's fog state from the sky
    /// resolved for the camera's cluster.  Called only when the camera lies
    /// in some cluster.
    pub fn resolve_fog(&mut self, sky: Option<(FogData, FogData)>)
        requires
            old(self).wf(),
        ensures
            final(self).viewport_fog == spec_resolve_fog(old(self).viewport_fog, sky),
            final(self).camera == old(self).camera,
            final(self).rel_x == old(self).rel_x,
            final(self).rel_y == old(self).rel_y,
            final(self).rel_width == old(self).rel_width,
            final(self).rel_height == old(self).rel_height,
            final(self).draw_distance == old(self).draw_distance,
            final(self).wf(),
    {
        match self.viewport_fog {
            Option::None => {
                if let Option::Some(s) = sky {
                    self.viewport_fog = Some(
                        ViewportFog {
                            current_fog_data: s.0,
                            outdoor_fog_data: s.0,
                            indoor_fog_data: s.1,
                            target_fog_data: s.0,
                            transition_amount: 0,
                        },
                    );
                }
            },
            Option::Some(f) => {
                match sky {
                    Option::Some(s) => {
                        self.viewport_fog = Some(
                            ViewportFog {
                                current_fog_data: f.current_fog_data,
                                outdoor_fog_data: s.0,
                                indoor_fog_data: s.1,
                                target_fog_data: s.0,
                                transition_amount: f.transition_amount,
                            },
                        );
                    },
                    Option::None => {
                        self.viewport_fog = Some(
                            ViewportFog { target_fog_data: f.indoor_fog_data, ..f },
                        );
                    },
                }
            },
        }
    }

    /// The transition/clamp pass: consume any pending fog transition, clamp
    /// the displayed fog to its invariant, and recompute the draw-distance
    /// range.  After this pass the displayed fog always satisfies its
    /// invariant.
    pub fn update_fog_and_draw_distances(&mut self, bsp_draw_distance: u32)
        requires
            old(self).wf(),
        ensures
            final(self).viewport_fog == match old(self).viewport_fog {
                Option::Some(f) => Option::Some(spec_transition_step(f)),
                Option::None => Option::<ViewportFog>::None,
            },
            final(self).draw_distance@ == seq![
                DRAW_DISTANCE_MINIMUM,
                spec_far_draw_distance(final(self).viewport_fog, bsp_draw_distance),
            ],
            match final(self).viewport_fog {
                Option::Some(f) => f.current_fog_data.valid(),
                Option::None => true,
            },
            final(self).camera == old(self).camera,
            final(self).rel_x == old(self).rel_x,
            final(self).rel_y == old(self).rel_y,
            final(self).rel_width == old(self).rel_width,
            final(self).rel_height == old(self).rel_height,
            final(self).wf(),
    {
        let mut far: u32 = bsp_draw_distance;
        match self.viewport_fog {
            Option::Some(f) => {
                let mut updated = f;
                if updated.transition_amount > 0 {
                    let mut current = fog_lerp(
                        &updated.current_fog_data,
                        &updated.target_fog_data,
                        updated.transition_amount,
                    );
                    current.normalize();
                    updated.current_fog_data = current;
                    updated.transition_amount = 0;
                } else {
                    let mut current = updated.current_fog_data;
                    current.normalize();
                    updated.current_fog_data = current;
                }
                if updated.current_fog_data.max_opacity == FRAC_ONE {
                    if updated.current_fog_data.distance_to < far {
                        far = updated.current_fog_data.distance_to;
                    }
                }
                self.viewport_fog = Some(updated);
            },
            Option::None => {},
        }
        self.draw_distance = [DRAW_DISTANCE_MINIMUM, far];
        proof {
            assert(self.draw_distance@ =~= seq![
                DRAW_DISTANCE_MINIMUM,
                spec_far_draw_distance(self.viewport_fog, bsp_draw_distance),
            ]);
        }
    }
}

} // verus!
