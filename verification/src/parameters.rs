//! Renderer-level configuration parameters.

use vstd::prelude::*;
use crate::fixed::FRAC_ONE;

verus! {

/// An output resolution in pixels.
#[derive(Clone, Copy, PartialEq, Eq, Structural, Debug)]
pub struct Resolution {
    pub width: u32,
    pub height: u32,
}

impl Default for Resolution {
    /// 640x480.
    fn default() -> (r: Resolution)
        ensures
            r == (Resolution { width: 640, height: 480 }),
    {
        Resolution { width: 640, height: 480 }
    }
}

/// Number of samples per pixel.
#[derive(Clone, Copy, PartialEq, Eq, Structural, Debug)]
pub enum MSAA {
    NoMSAA,
    MSAA2x,
    MSAA4x,
    MSAA8x,
    MSAA16x,
    MSAA32x,
    MSAA64x,
}

impl MSAA {
    /// The sample count this setting asks of the backend.
    pub fn sample_count(&self) -> (r: u32)
        ensures
            r == match *self {
                MSAA::NoMSAA => 1u32,
                MSAA::MSAA2x => 2u32,
                MSAA::MSAA4x => 4u32,
                MSAA::MSAA8x => 8u32,
                MSAA::MSAA16x => 16u32,
                MSAA::MSAA32x => 32u32,
                MSAA::MSAA64x => 64u32,
            },
    {
        match *self {
            MSAA::NoMSAA => 1,
            MSAA::MSAA2x => 2,
            MSAA::MSAA4x => 4,
            MSAA::MSAA8x => 8,
            MSAA::MSAA16x => 16,
            MSAA::MSAA32x => 32,
            MSAA::MSAA64x => 64,
        }
    }
}

impl Default for MSAA {
    /// Multisampling is off by default.
    fn default() -> (r: MSAA)
        ensures
            r == MSAA::NoMSAA,
    {
        MSAA::NoMSAA
    }
}

/// Parameters used to initialize the renderer or rebuild its output
/// surface.
#[derive(Clone, Copy, PartialEq, Eq, Structural, Debug)]
pub struct RendererParameters {
    /// Output resolution.
    pub resolution: Resolution,
    /// Number of player viewports; 1 through 4 are supported.
    pub number_of_viewports: usize,
    /// Whether presentation waits for vertical sync.
    pub vsync: bool,
    /// Samples per pixel.
    pub msaa: MSAA,
    /// Anisotropic filtering level as a fixed-point fraction, if enabled.
    pub anisotropic_filtering: Option<u32>,
    /// Render scale as a fixed-point fraction of the output resolution.
    pub render_scale: u32,
}

impl Default for RendererParameters {
    /// One full-screen viewport at 640x480 with no multisampling.
    fn default() -> (r: RendererParameters)
        ensures
            r == spec_default_renderer_parameters(),
    {
        RendererParameters {
            resolution: Resolution { width: 640, height: 480 },
            number_of_viewports: 1,
            vsync: false,
            msaa: MSAA::NoMSAA,
            anisotropic_filtering: None,
            render_scale: FRAC_ONE,
        }
    }
}

/// The default renderer configuration.
pub open spec fn spec_default_renderer_parameters() -> RendererParameters {
    RendererParameters {
        resolution: Resolution { width: 640, height: 480 },
        number_of_viewports: 1,
        vsync: false,
        msaa: MSAA::NoMSAA,
        anisotropic_filtering: None,
        render_scale: FRAC_ONE,
    }
}

} // verus!
