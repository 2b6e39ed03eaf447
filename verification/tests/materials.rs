use magellanicus::pipeline::VulkanPipelineType;
use magellanicus::shader::{
    AddShaderBasicShaderData, AddShaderData, AddShaderParameter, AddShaderTransparentChicagoShaderData,
    AddShaderTransparentChicagoShaderMap, Shader, ShaderColorFunction, ShaderTransparentChicagoFirstMapType,
    ShaderTransparentChicagoFramebufferFunction, ShaderType,
};
use magellanicus::bitmap::{Bitmap, DefaultType};
use magellanicus::keymap::KeyMap;
use magellanicus::shader::MaterialInput;
use magellanicus::shader::ShaderTransparentChicagoFramebufferFunction as F;
use magellanicus::vertex::{TextureCoords, VertexOffsets};

fn chicago_map(alpha_replicate: bool) -> AddShaderTransparentChicagoShaderMap {
    AddShaderTransparentChicagoShaderMap {
        bitmap: None,
        color_function: ShaderColorFunction::default(),
        alpha_function: ShaderColorFunction::default(),
        uv_scale: TextureCoords { u: 65536, v: 65536 },
        uv_offset: TextureCoords { u: 0, v: 0 },
        alpha_replicate,
    }
}

fn chicago(
    framebuffer_method: ShaderTransparentChicagoFramebufferFunction,
    maps: Vec<AddShaderTransparentChicagoShaderMap>,
) -> AddShaderTransparentChicagoShaderData {
    AddShaderTransparentChicagoShaderData {
        two_sided: false,
        first_map_type: ShaderTransparentChicagoFirstMapType::Dim2D,
        framebuffer_method,
        maps,
    }
}

fn loaded_pipeline(data: AddShaderData) -> VulkanPipelineType {
    Shader::load_from_parameters(AddShaderParameter { data })
        .material
        .get_main_pipeline()
}

#[test]
fn framebuffer_functions_select_pipelines_with_documented_fallbacks() {
    let cases = [
        (F::Add, VulkanPipelineType::ShaderTransparentChicagoAdd),
        (F::AlphaBlend, VulkanPipelineType::ShaderTransparentChicagoAlphaBlend),
        (F::Multiply, VulkanPipelineType::ShaderTransparentChicagoMultiply),
        // Double multiply deliberately falls back to the multiply pipeline.
        (F::DoubleMultiply, VulkanPipelineType::ShaderTransparentChicagoMultiply),
        (F::Subtract, VulkanPipelineType::ShaderTransparentChicagoSubtract),
        (F::ComponentMin, VulkanPipelineType::ShaderTransparentChicagoComponentMin),
        (F::ComponentMax, VulkanPipelineType::ShaderTransparentChicagoComponentMax),
        // Alpha-multiply-add deliberately falls back to alpha blend.
        (F::AlphaMultiplyAdd, VulkanPipelineType::ShaderTransparentChicagoAlphaBlend),
    ];
    for (method, expected) in cases {
        let pipeline = loaded_pipeline(AddShaderData::ShaderTransparentChicago(chicago(
            method,
            vec![chicago_map(false)],
        )));
        assert_eq!(pipeline, expected);
    }
}

#[test]
fn transparency_by_variant() {
    let basic = Shader::load_from_parameters(AddShaderParameter {
        data: AddShaderData::BasicShader(AddShaderBasicShaderData {
            bitmap: None,
            shader_type: ShaderType::Model,
            alpha_tested: false,
        }),
    });
    assert!(basic.material.is_transparent());
    assert_eq!(basic.material.get_main_pipeline(), VulkanPipelineType::SimpleTexture);
    assert!(basic.material.can_reuse_descriptors());
    let blended = Shader::load_from_parameters(AddShaderParameter {
        data: AddShaderData::ShaderTransparentChicago(chicago(
            ShaderTransparentChicagoFramebufferFunction::AlphaBlend,
            vec![chicago_map(false)],
        )),
    });
    assert!(blended.material.is_transparent());
}

#[test]
fn premultiply_only_for_add_and_subtract() {
    assert!(chicago(F::Add, vec![chicago_map(false)]).premultiply());
    assert!(chicago(F::Subtract, vec![chicago_map(false)]).premultiply());
    assert!(!chicago(F::AlphaBlend, vec![chicago_map(false)]).premultiply());
    assert!(!chicago(F::Multiply, vec![chicago_map(false)]).premultiply());
}

#[test]
fn alpha_replicate_bits_pack_in_map_order() {
    let data = chicago(
        ShaderTransparentChicagoFramebufferFunction::AlphaBlend,
        vec![chicago_map(true), chicago_map(false), chicago_map(true)],
    );
    assert_eq!(data.alpha_replicate_mask(), 0b101);
    let none = chicago(ShaderTransparentChicagoFramebufferFunction::AlphaBlend, vec![]);
    assert_eq!(none.alpha_replicate_mask(), 0);
}

#[test]
fn pipeline_capabilities() {
    assert!(VulkanPipelineType::ShaderEnvironment.has_lightmaps());
    assert!(VulkanPipelineType::SimpleTexture.has_lightmaps());
    assert!(!VulkanPipelineType::ShaderTransparentChicagoAdd.has_lightmaps());
    assert!(VulkanPipelineType::ShaderTransparentChicagoAdd.has_fog());
    assert!(!VulkanPipelineType::ColorBox.has_fog());
    assert!(!VulkanPipelineType::SolidColor.has_fog());
}

#[test]
fn vertex_offsets_emit_their_draw() {
    let offsets = VertexOffsets { index_count: 9, vertex_offset: 4, index_offset: 3 };
    assert_eq!(
        offsets.make_vulkan_draw_command(),
        magellanicus::draw::DrawCommand::DrawIndexed {
            index_count: 9,
            index_offset: 3,
            vertex_offset: 4,
        }
    );
}

#[test]
fn chicago_map_count_limits() {
    let bitmaps: KeyMap<Bitmap> = KeyMap::new();
    let empty = chicago(ShaderTransparentChicagoFramebufferFunction::AlphaBlend, vec![]);
    assert!(empty.validate(&bitmaps).is_err());
    let five = chicago(
        ShaderTransparentChicagoFramebufferFunction::AlphaBlend,
        vec![
            chicago_map(false),
            chicago_map(false),
            chicago_map(false),
            chicago_map(false),
            chicago_map(false),
        ],
    );
    assert!(five.validate(&bitmaps).is_err());
    let one = chicago(ShaderTransparentChicagoFramebufferFunction::AlphaBlend, vec![chicago_map(false)]);
    assert!(one.validate(&bitmaps).is_ok());
}

#[test]
fn material_inputs_select_their_fallback_textures() {
    assert_eq!(MaterialInput::Diffuse.default_texture(), DefaultType::White);
    assert_eq!(MaterialInput::BaseMap.default_texture(), DefaultType::White);
    assert_eq!(MaterialInput::DetailMap.default_texture(), DefaultType::Gray);
    assert_eq!(MaterialInput::BumpMap.default_texture(), DefaultType::Vector);
    assert_eq!(MaterialInput::ReflectionCubeMap.default_texture(), DefaultType::Null);
    assert_eq!(MaterialInput::BlendedMap.default_texture(), DefaultType::Null);
}
