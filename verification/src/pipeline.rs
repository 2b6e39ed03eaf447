//! Graphics pipelines the backend is expected to provide.

use vstd::prelude::*;

verus! {

/// Identifies one of the fixed set of graphics pipelines.
#[derive(Clone, Copy, PartialEq, Eq, Structural, Debug)]
pub enum VulkanPipelineType {
    /// Writes a solid color.
    SolidColor,
    /// Draws a single texture.
    SimpleTexture,
    /// Draws a box of a given color.
    ColorBox,
    /// Lit multi-map surfaces.
    ShaderEnvironment,
    /// Blended surfaces with additive framebuffer output.
    ShaderTransparentChicagoAdd,
    /// Blended surfaces with alpha-blend framebuffer output.
    ShaderTransparentChicagoAlphaBlend,
    /// Blended surfaces with subtractive framebuffer output.
    ShaderTransparentChicagoSubtract,
    /// Blended surfaces taking the component-wise minimum.
    ShaderTransparentChicagoComponentMin,
    /// Blended surfaces taking the component-wise maximum.
    ShaderTransparentChicagoComponentMax,
    /// Blended surfaces multiplying into the framebuffer.
    ShaderTransparentChicagoMultiply,
}

impl VulkanPipelineType {
    /// Whether draws through this pipeline bind a lightmap.
    pub fn has_lightmaps(&self) -> (r: bool)
        ensures
            r == spec_has_lightmaps(*self),
    {
        match *self {
            VulkanPipelineType::SimpleTexture => true,
            VulkanPipelineType::ShaderEnvironment => true,
            _ => false,
        }
    }

    /// Whether draws through this pipeline take the fog uniform.
    pub fn has_fog(&self) -> (r: bool)
        ensures
            r == spec_has_fog(*self),
    {
        match *self {
            VulkanPipelineType::SolidColor => false,
            VulkanPipelineType::ColorBox => false,
            _ => true,
        }
    }
}

/// Whether draws through pipeline `p` bind a lightmap.
pub open spec fn spec_has_lightmaps(p: VulkanPipelineType) -> bool {
    p == VulkanPipelineType::SimpleTexture || p == VulkanPipelineType::ShaderEnvironment
}

/// Whether draws through pipeline `p` take the fog uniform.
pub open spec fn spec_has_fog(p: VulkanPipelineType) -> bool {
    p != VulkanPipelineType::SolidColor && p != VulkanPipelineType::ColorBox
}

} // verus!
