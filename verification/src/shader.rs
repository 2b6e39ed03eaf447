//! Shader (material definition) resources and their validation.

use vstd::prelude::*;
use crate::bitmap::{Bitmap, BitmapType, DefaultType};
use crate::error::{Error, MResult};
use crate::color::ColorRgb;
use crate::keymap::{KeyMap, spec_contains_key, spec_value_of};
use crate::pipeline::VulkanPipelineType;
use crate::vertex::TextureCoords;

verus! {

/// Most blended maps a transparent-chicago shader may carry.
pub const MAX_SHADER_TRANSPARENT_CHICAGO_MAPS: usize = 4;

/// The tag family a shader definition comes from.
#[derive(Clone, Copy, PartialEq, Eq, Structural, Debug)]
pub enum ShaderType {
    Environment,
    Model,
    TransparentChicago,
    TransparentGeneric,
    TransparentGlass,
    TransparentMeter,
    TransparentPlasma,
    TransparentWater,
}

/// How a lit surface combines its detail maps.
#[derive(Clone, Copy, PartialEq, Eq, Structural, Debug)]
pub enum ShaderEnvironmentMapFunction {
    DoubleBiasedMultiply,
    Multiply,
    DoubleBiasedAdd,
}

/// Kind of a lit surface.
#[derive(Clone, Copy, PartialEq, Eq, Structural, Debug)]
pub enum ShaderEnvironmentType {
    Normal,
    Blended,
    BlendedBaseSpecular,
}

/// How a lit surface computes its reflection.
#[derive(Clone, Copy, PartialEq, Eq, Structural, Debug)]
pub enum ShaderReflectionType {
    BumpedCubeMap,
    FlatCubeMap,
    BumpedRadiosity,
}

/// What the first map of a transparent-chicago shader is.
#[derive(Clone, Copy, PartialEq, Eq, Structural, Debug)]
pub enum ShaderTransparentChicagoFirstMapType {
    Dim2D,
    ReflectionCubemap,
    ObjectCenteredCubemap,
    ViewerCenteredCubemap,
}

/// How a transparent-chicago shader writes into the framebuffer.
#[derive(Clone, Copy, PartialEq, Eq, Structural, Debug)]
pub enum ShaderTransparentChicagoFramebufferFunction {
    /// framebuffer.rgb = mix(framebuffer.rgb, pixel.rgb, pixel.a)
    AlphaBlend,
    /// framebuffer.rgb *= pixel.rgb
    Multiply,
    /// framebuffer.rgb *= pixel.rgb * pixel.rgb
    DoubleMultiply,
    /// framebuffer.rgb += pixel.rgb
    Add,
    /// framebuffer.rgb -= pixel.rgb
    Subtract,
    /// framebuffer.rgb = min(framebuffer.rgb, pixel.rgb)
    ComponentMin,
    /// framebuffer.rgb = max(framebuffer.rgb, pixel.rgb)
    ComponentMax,
    /// framebuffer.rgb += pixel.rgb * pixel.a
    AlphaMultiplyAdd,
}

/// Per-map color or alpha combine function.
#[derive(Clone, Copy, PartialEq, Eq, Structural, Debug)]
pub enum ShaderColorFunction {
    Current,
    NextMap,
    Multiply,
    DoubleMultiply,
    Add,
    AddSignedCurrent,
    AddSignedNextMap,
    SubtractCurrent,
    SubtractNextMap,
    BlendCurrentAlpha,
    BlendCurrentAlphaInverse,
    BlendNextMapAlpha,
    BlendNextMapAlphaInverse,
}

impl Default for ShaderColorFunction {
    /// Pass the current color through.
    fn default() -> (r: ShaderColorFunction)
        ensures
            r == ShaderColorFunction::Current,
    {
        ShaderColorFunction::Current
    }
}

/// Data of a basic single-texture shader.
pub struct AddShaderBasicShaderData {
    pub bitmap: Option<String>,
    pub shader_type: ShaderType,
    pub alpha_tested: bool,
}

/// Data of a lit multi-map surface shader.  Scales and brightness values
/// are fixed-point fractions.
pub struct AddShaderEnvironmentShaderData {
    pub alpha_tested: bool,
    pub bump_map_is_specular_mask: bool,
    pub shader_environment_type: ShaderEnvironmentType,
    pub base_map: Option<String>,
    pub detail_map_function: ShaderEnvironmentMapFunction,
    pub primary_detail_map: Option<String>,
    pub primary_detail_map_scale: u32,
    pub secondary_detail_map: Option<String>,
    pub secondary_detail_map_scale: u32,
    pub micro_detail_map: Option<String>,
    pub micro_detail_map_scale: u32,
    pub micro_detail_map_function: ShaderEnvironmentMapFunction,
    pub bump_map: Option<String>,
    pub bump_map_scale: u32,
    pub reflection_cube_map: Option<String>,
    pub reflection_type: ShaderReflectionType,
    pub perpendicular_color: ColorRgb,
    pub perpendicular_brightness: u32,
    pub parallel_color: ColorRgb,
    pub parallel_brightness: u32,
}

/// One blended map of a transparent-chicago shader; offsets and scales are
/// fixed-point.
pub struct AddShaderTransparentChicagoShaderMap {
    pub bitmap: Option<String>,
    pub color_function: ShaderColorFunction,
    pub alpha_function: ShaderColorFunction,
    pub uv_scale: TextureCoords,
    pub uv_offset: TextureCoords,
    pub alpha_replicate: bool,
}

/// Data of a transparent-chicago shader.
pub struct AddShaderTransparentChicagoShaderData {
    pub two_sided: bool,
    pub first_map_type: ShaderTransparentChicagoFirstMapType,
    pub framebuffer_method: ShaderTransparentChicagoFramebufferFunction,
    pub maps: Vec<AddShaderTransparentChicagoShaderMap>,
}

impl AddShaderTransparentChicagoShaderData {
    /// Whether the shader's output must be premultiplied by its alpha:
    /// only the additive and subtractive framebuffer functions ask for it.
    pub fn premultiply(&self) -> (r: bool)
        ensures
            r == (self.framebuffer_method == ShaderTransparentChicagoFramebufferFunction::Add
                || self.framebuffer_method
                == ShaderTransparentChicagoFramebufferFunction::Subtract),
    {
        match self.framebuffer_method {
            ShaderTransparentChicagoFramebufferFunction::Add => true,
            ShaderTransparentChicagoFramebufferFunction::Subtract => true,
            _ => false,
        }
    }

    /// The per-map alpha-replicate flags packed into the low four bits,
    /// map 0 lowest; absent maps contribute a zero bit.
    pub fn alpha_replicate_mask(&self) -> (r: u32)
        ensures
            r == spec_alpha_replicate_bit(self.maps@, 0) + 2 * spec_alpha_replicate_bit(
                self.maps@,
                1,
            ) + 4 * spec_alpha_replicate_bit(self.maps@, 2) + 8 * spec_alpha_replicate_bit(
                self.maps@,
                3,
            ),
    {
        let mut mask: u32 = 0;
        if self.maps.len() > 0 && self.maps[0].alpha_replicate {
            mask = mask + 1;
        }
        if self.maps.len() > 1 && self.maps[1].alpha_replicate {
            mask = mask + 2;
        }
        if self.maps.len() > 2 && self.maps[2].alpha_replicate {
            mask = mask + 4;
        }
        if self.maps.len() > 3 && self.maps[3].alpha_replicate {
            mask = mask + 8;
        }
        mask
    }
}

/// The alpha-replicate bit of map `i`: zero when the map is absent.
pub open spec fn spec_alpha_replicate_bit(
    maps: Seq<AddShaderTransparentChicagoShaderMap>,
    i: int,
) -> u32 {
    if i < maps.len() && maps[i].alpha_replicate {
        1u32
    } else {
        0u32
    }
}

/// Which material input a bitmap reference feeds; decides the canonical
/// fallback texture used when the reference is absent.
#[derive(Clone, Copy, PartialEq, Eq, Structural, Debug)]
pub enum MaterialInput {
    /// The diffuse texture of a basic shader.
    Diffuse,
    /// A lit surface's base map.
    BaseMap,
    /// A lit surface's primary, secondary or micro detail map.
    DetailMap,
    /// A lit surface's bump map.
    BumpMap,
    /// A lit surface's reflection cube map.
    ReflectionCubeMap,
    /// One blended map of a transparent-chicago shader.
    BlendedMap,
}

/// The canonical fallback texture of each material input: diffuse and base
/// maps fall back to white (neutral under multiply), detail maps to mid
/// gray (neutral under double multiply), bump maps to the flat vector map,
/// and reflection and blended maps to the all-zero texture (neutral under
/// blending, minimum, addition and subtraction).
pub open spec fn spec_default_texture(input: MaterialInput) -> DefaultType {
    match input {
        MaterialInput::Diffuse => DefaultType::White,
        MaterialInput::BaseMap => DefaultType::White,
        MaterialInput::DetailMap => DefaultType::Gray,
        MaterialInput::BumpMap => DefaultType::Vector,
        MaterialInput::ReflectionCubeMap => DefaultType::Null,
        MaterialInput::BlendedMap => DefaultType::Null,
    }
}

impl MaterialInput {
    /// The canonical fallback texture an unreferenced input resolves to.
    pub fn default_texture(&self) -> (r: DefaultType)
        ensures
            r == spec_default_texture(*self),
    {
        match *self {
            MaterialInput::Diffuse => DefaultType::White,
            MaterialInput::BaseMap => DefaultType::White,
            MaterialInput::DetailMap => DefaultType::Gray,
            MaterialInput::BumpMap => DefaultType::Vector,
            MaterialInput::ReflectionCubeMap => DefaultType::Null,
            MaterialInput::BlendedMap => DefaultType::Null,
        }
    }
}

/// The variant-specific data of a shader to add.
pub enum AddShaderData {
    /// Basic pipeline that renders a single texture.
    BasicShader(AddShaderBasicShaderData),
    /// A lit multi-map surface.
    ShaderEnvironment(AddShaderEnvironmentShaderData),
    /// Up to four blended maps with a configurable framebuffer function.
    ShaderTransparentChicago(AddShaderTransparentChicagoShaderData),
}

/// Parameters for adding a shader resource.
pub struct AddShaderParameter {
    pub data: AddShaderData,
}

/// A bitmap reference is satisfied when it is absent, or when it names a
/// loaded bitmap whose images all have type `t`.
pub open spec fn spec_check_bitmap(
    bitmaps: Seq<(Seq<char>, Bitmap)>,
    reference: Option<Seq<char>>,
    t: BitmapType,
) -> bool {
    match reference {
        Option::None => true,
        Option::Some(k) => spec_contains_key(bitmaps, k)
            && spec_all_bitmaps_are(spec_value_of(bitmaps, k), t),
    }
}

/// Every image of `b` has type `t`.
pub open spec fn spec_all_bitmaps_are(b: Bitmap, t: BitmapType) -> bool {
    forall|i: int| 0 <= i < b.bitmaps@.len() ==> (#[trigger] b.bitmaps@[i]).bitmap_type == t
}

/// Fail with a validation error unless every image of `bitmap` has type
/// `bitmap_type`.
pub fn expect_bitmap_or_else(bitmap: &Bitmap, bitmap_type: BitmapType) -> (r: MResult<()>)
    ensures
        r is Ok <==> spec_all_bitmaps_are(*bitmap, bitmap_type),
{
    let n = bitmap.bitmaps.len();
    let mut i: usize = 0;
    while i < n
        invariant
            n == bitmap.bitmaps@.len(),
            i <= n,
            forall|j: int| 0 <= j < i ==> (#[trigger] bitmap.bitmaps@[j]).bitmap_type == bitmap_type,
        decreases n - i,
    {
        if !(bitmap.bitmaps[i].bitmap_type == bitmap_type) {
            return Err(Error::Validation);
        }
        i = i + 1;
    }
    Ok(())
}

/// Resolve an optional bitmap reference and check its dimensionality.
pub fn check_bitmap(
    bitmaps: &KeyMap<Bitmap>,
    reference: &Option<String>,
    bitmap_type: BitmapType,
) -> (r: MResult<()>)
    requires
        bitmaps.wf(),
    ensures
        r is Ok <==> spec_check_bitmap(bitmaps@, spec_reference_view(*reference), bitmap_type),
{
    let bitmap_path = match reference {
        Option::Some(p) => p,
        Option::None => {
            return Ok(());
        },
    };
    let bitmap = match bitmaps.get(bitmap_path) {
        Option::Some(b) => b,
        Option::None => {
            return Err(Error::Validation);
        },
    };
    expect_bitmap_or_else(bitmap, bitmap_type)
}

/// The view of an optional key.
pub open spec fn spec_reference_view(r: Option<String>) -> Option<Seq<char>> {
    match r {
        Option::None => Option::None,
        Option::Some(s) => Option::Some(s@),
    }
}

impl AddShaderEnvironmentShaderData {
    /// All five flat maps are 2D and the reflection map is a cube map.
    pub open spec fn valid(&self, bitmaps: Seq<(Seq<char>, Bitmap)>) -> bool {
        &&& spec_check_bitmap(bitmaps, spec_reference_view(self.base_map), BitmapType::Dim2D)
        &&& spec_check_bitmap(
            bitmaps,
            spec_reference_view(self.primary_detail_map),
            BitmapType::Dim2D,
        )
        &&& spec_check_bitmap(
            bitmaps,
            spec_reference_view(self.secondary_detail_map),
            BitmapType::Dim2D,
        )
        &&& spec_check_bitmap(
            bitmaps,
            spec_reference_view(self.micro_detail_map),
            BitmapType::Dim2D,
        )
        &&& spec_check_bitmap(bitmaps, spec_reference_view(self.bump_map), BitmapType::Dim2D)
        &&& spec_check_bitmap(
            bitmaps,
            spec_reference_view(self.reflection_cube_map),
            BitmapType::Cubemap,
        )
    }

    /// Check every referenced map.
    pub fn validate(&self, bitmaps: &KeyMap<Bitmap>) -> (r: MResult<()>)
        requires
            bitmaps.wf(),
        ensures
            r is Ok <==> self.valid(bitmaps@),
    {
        check_bitmap(bitmaps, &self.base_map, BitmapType::Dim2D)?;
        check_bitmap(bitmaps, &self.primary_detail_map, BitmapType::Dim2D)?;
        check_bitmap(bitmaps, &self.secondary_detail_map, BitmapType::Dim2D)?;
        check_bitmap(bitmaps, &self.micro_detail_map, BitmapType::Dim2D)?;
        check_bitmap(bitmaps, &self.bump_map, BitmapType::Dim2D)?;
        check_bitmap(bitmaps, &self.reflection_cube_map, BitmapType::Cubemap)?;
        Ok(())
    }
}

impl AddShaderTransparentChicagoShaderData {
    /// The expected dimensionality of map `i`.
    pub open spec fn spec_expected_map_type(&self, i: int) -> BitmapType {
        if i != 0 || self.first_map_type == ShaderTransparentChicagoFirstMapType::Dim2D {
            BitmapType::Dim2D
        } else {
            BitmapType::Cubemap
        }
    }

    /// Between one and four maps, each referencing a loaded bitmap of the
    /// expected dimensionality.
    pub open spec fn valid(&self, bitmaps: Seq<(Seq<char>, Bitmap)>) -> bool {
        &&& 1 <= self.maps@.len() <= MAX_SHADER_TRANSPARENT_CHICAGO_MAPS
        &&& forall|i: int|
            0 <= i < self.maps@.len() ==> spec_check_bitmap(
                bitmaps,
                spec_reference_view((#[trigger] self.maps@[i]).bitmap),
                self.spec_expected_map_type(i),
            )
    }

    /// Check map count and every referenced map.
    pub fn validate(&self, bitmaps: &KeyMap<Bitmap>) -> (r: MResult<()>)
        requires
            bitmaps.wf(),
        ensures
            r is Ok <==> self.valid(bitmaps@),
    {
        let n = self.maps.len();
        if n > MAX_SHADER_TRANSPARENT_CHICAGO_MAPS {
            return Err(Error::Validation);
        }
        if n == 0 {
            return Err(Error::Validation);
        }
        let mut i: usize = 0;
        while i < n
            invariant
                bitmaps.wf(),
                n == self.maps@.len(),
                i <= n,
                forall|j: int|
                    0 <= j < i ==> spec_check_bitmap(
                        bitmaps@,
                        spec_reference_view((#[trigger] self.maps@[j]).bitmap),
                        self.spec_expected_map_type(j),
                    ),
            decreases n - i,
        {
            let expected_type = if i != 0
                || self.first_map_type == ShaderTransparentChicagoFirstMapType::Dim2D {
                BitmapType::Dim2D
            } else {
                BitmapType::Cubemap
            };
            check_bitmap(bitmaps, &self.maps[i].bitmap, expected_type)?;
            i = i + 1;
        }
        Ok(())
    }
}

impl AddShaderParameter {
    /// The parameter's references are all satisfied by `bitmaps`.
    pub open spec fn valid(&self, bitmaps: Seq<(Seq<char>, Bitmap)>) -> bool {
        match self.data {
            AddShaderData::BasicShader(ref d) => match d.bitmap {
                Option::None => true,
                Option::Some(ref k) => spec_contains_key(bitmaps, k@),
            },
            AddShaderData::ShaderEnvironment(ref d) => d.valid(bitmaps),
            AddShaderData::ShaderTransparentChicago(ref d) => d.valid(bitmaps),
        }
    }

    /// Validate the parameter against the loaded bitmaps.  A basic shader
    /// only requires its referenced bitmap to exist; the other variants also
    /// check dimensionality per input.
    pub fn validate(&self, bitmaps: &KeyMap<Bitmap>) -> (r: MResult<()>)
        requires
            bitmaps.wf(),
        ensures
            r is Ok <==> self.valid(bitmaps@),
    {
        match &self.data {
            AddShaderData::BasicShader(d) => {
                match &d.bitmap {
                    Option::Some(b) => {
                        if !bitmaps.contains_key(b) {
                            return Err(Error::Validation);
                        }
                    },
                    Option::None => {},
                }
                Ok(())
            },
            AddShaderData::ShaderEnvironment(d) => d.validate(bitmaps),
            AddShaderData::ShaderTransparentChicago(d) => d.validate(bitmaps),
        }
    }
}

/// A loaded shader resource: its material data plus the capabilities the
/// draw-submission protocol asks of every material.
pub struct Shader {
    pub material: Material,
}

/// The closed set of material variants.
pub enum Material {
    /// A single texture.
    Basic(AddShaderBasicShaderData),
    /// A lit multi-map surface with cube reflection.
    Environment(AddShaderEnvironmentShaderData),
    /// Up to four blended maps with one of eight framebuffer functions.
    TransparentChicago(AddShaderTransparentChicagoShaderData),
}

impl Material {
    /// Whether the material must be drawn back to front.
    pub fn is_transparent(&self) -> (r: bool)
        ensures
            r == spec_is_transparent(*self),
    {
        match *self {
            Material::Basic(_) => true,
            Material::Environment(_) => false,
            Material::TransparentChicago(_) => true,
        }
    }

    /// The graphics pipeline the material draws through.  The double
    /// multiply and alpha-multiply-add framebuffer functions deliberately
    /// fall back to the multiply and alpha-blend pipelines rather than to
    /// invented blend modes.
    pub fn get_main_pipeline(&self) -> (r: VulkanPipelineType)
        ensures
            r == spec_main_pipeline(*self),
    {
        match self {
            Material::Basic(_) => VulkanPipelineType::SimpleTexture,
            Material::Environment(_) => VulkanPipelineType::ShaderEnvironment,
            Material::TransparentChicago(d) => match d.framebuffer_method {
                ShaderTransparentChicagoFramebufferFunction::Add =>
                    VulkanPipelineType::ShaderTransparentChicagoAdd,
                ShaderTransparentChicagoFramebufferFunction::AlphaBlend =>
                    VulkanPipelineType::ShaderTransparentChicagoAlphaBlend,
                ShaderTransparentChicagoFramebufferFunction::Multiply =>
                    VulkanPipelineType::ShaderTransparentChicagoMultiply,
                ShaderTransparentChicagoFramebufferFunction::DoubleMultiply =>
                    VulkanPipelineType::ShaderTransparentChicagoMultiply,
                ShaderTransparentChicagoFramebufferFunction::Subtract =>
                    VulkanPipelineType::ShaderTransparentChicagoSubtract,
                ShaderTransparentChicagoFramebufferFunction::ComponentMin =>
                    VulkanPipelineType::ShaderTransparentChicagoComponentMin,
                ShaderTransparentChicagoFramebufferFunction::ComponentMax =>
                    VulkanPipelineType::ShaderTransparentChicagoComponentMax,
                ShaderTransparentChicagoFramebufferFunction::AlphaMultiplyAdd =>
                    VulkanPipelineType::ShaderTransparentChicagoAlphaBlend,
            },
        }
    }

    /// Whether consecutive draws with this material may keep its bound
    /// descriptor state.
    pub fn can_reuse_descriptors(&self) -> (r: bool)
        ensures
            r == true,
    {
        true
    }
}

/// Whether material `m` must be drawn back to front.
pub open spec fn spec_is_transparent(m: Material) -> bool {
    match m {
        Material::Basic(_) => true,
        Material::Environment(_) => false,
        Material::TransparentChicago(_) => true,
    }
}

/// The pipeline material `m` draws through, fallbacks included.
pub open spec fn spec_main_pipeline(m: Material) -> VulkanPipelineType {
    match m {
        Material::Basic(_) => VulkanPipelineType::SimpleTexture,
        Material::Environment(_) => VulkanPipelineType::ShaderEnvironment,
        Material::TransparentChicago(d) => match d.framebuffer_method {
            ShaderTransparentChicagoFramebufferFunction::Add =>
                VulkanPipelineType::ShaderTransparentChicagoAdd,
            ShaderTransparentChicagoFramebufferFunction::AlphaBlend =>
                VulkanPipelineType::ShaderTransparentChicagoAlphaBlend,
            ShaderTransparentChicagoFramebufferFunction::Multiply =>
                VulkanPipelineType::ShaderTransparentChicagoMultiply,
            ShaderTransparentChicagoFramebufferFunction::DoubleMultiply =>
                VulkanPipelineType::ShaderTransparentChicagoMultiply,
            ShaderTransparentChicagoFramebufferFunction::Subtract =>
                VulkanPipelineType::ShaderTransparentChicagoSubtract,
            ShaderTransparentChicagoFramebufferFunction::ComponentMin =>
                VulkanPipelineType::ShaderTransparentChicagoComponentMin,
            ShaderTransparentChicagoFramebufferFunction::ComponentMax =>
                VulkanPipelineType::ShaderTransparentChicagoComponentMax,
            ShaderTransparentChicagoFramebufferFunction::AlphaMultiplyAdd =>
                VulkanPipelineType::ShaderTransparentChicagoAlphaBlend,
        },
    }
}

impl Shader {
    /// Wrap validated parameters as a shader resource.
    pub fn load_from_parameters(parameter: AddShaderParameter) -> (r: Shader)
        ensures
            r.material == spec_material_of(parameter.data),
    {
        let material = match parameter.data {
            AddShaderData::BasicShader(d) => Material::Basic(d),
            AddShaderData::ShaderEnvironment(d) => Material::Environment(d),
            AddShaderData::ShaderTransparentChicago(d) => Material::TransparentChicago(d),
        };
        Shader { material }
    }
}

/// The material a shader parameter turns into.
pub open spec fn spec_material_of(d: AddShaderData) -> Material {
    match d {
        AddShaderData::BasicShader(b) => Material::Basic(b),
        AddShaderData::ShaderEnvironment(e) => Material::Environment(e),
        AddShaderData::ShaderTransparentChicago(c) => Material::TransparentChicago(c),
    }
}

} // verus!
