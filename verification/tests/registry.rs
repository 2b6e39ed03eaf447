use magellanicus::bitmap::{AddBitmapParameter, BitmapBitmap, BitmapFormat, BitmapType, DefaultType};
use magellanicus::error::Error;
use magellanicus::parameters::{RendererParameters, Resolution};
use magellanicus::renderer::Renderer;
use magellanicus::color::ColorRgb;
use magellanicus::fixed::{FixedVec3, FRAC_ONE};
use magellanicus::geometry::{
    AddGeometryParameter, AddGeometryParameterGeometry, AddGeometryParameterPart,
    GeometryDetailData,
};
use magellanicus::shader::{AddShaderBasicShaderData, AddShaderData, AddShaderParameter, ShaderType};
use magellanicus::sky::{AddSkyParameter, FogData};
use magellanicus::vertex::TextureCoords;

fn new_renderer() -> Renderer {
    Renderer::new(&RendererParameters::default()).unwrap()
}

fn tiny_bitmap() -> AddBitmapParameter {
    AddBitmapParameter {
        bitmaps: vec![BitmapBitmap {
            format: BitmapFormat::A8B8G8R8,
            bitmap_type: BitmapType::Dim2D,
            resolution: Resolution { width: 1, height: 1 },
            mipmap_count: 0,
            data: vec![1, 2, 3, 4],
        }],
        sequences: vec![],
    }
}

fn basic_shader(bitmap: Option<&str>) -> AddShaderParameter {
    AddShaderParameter {
        data: AddShaderData::BasicShader(AddShaderBasicShaderData {
            bitmap: bitmap.map(|s| s.to_owned()),
            shader_type: ShaderType::Model,
            alpha_tested: false,
        }),
    }
}

#[test]
fn new_renderer_holds_default_bitmaps() {
    let renderer = new_renderer();
    assert_eq!(renderer.bitmaps.len(), 3);
    assert_eq!(renderer.shaders.len(), 0);
    let white = renderer.get_default_2d(DefaultType::White);
    assert_eq!(white.data, vec![255, 255, 255, 255]);
    let null = renderer.get_default_2d(DefaultType::Null);
    assert_eq!(null.data, vec![0, 0, 0, 0]);
    let gray = renderer.get_default_2d(DefaultType::Gray);
    assert_eq!(gray.data, vec![127, 127, 127, 255]);
    let vector = renderer.get_default_2d(DefaultType::Vector);
    assert_eq!(vector.data, vec![127, 127, 255, 255]);
    let cube = renderer.get_default_cubemap(DefaultType::White);
    assert_eq!(cube.data.len(), 24);
}

#[test]
fn invalid_configurations_rejected() {
    let mut bad = RendererParameters::default();
    bad.number_of_viewports = 0;
    assert!(matches!(Renderer::new(&bad), Err(Error::Validation)));
    let mut zero = RendererParameters::default();
    zero.resolution.width = 0;
    assert!(matches!(Renderer::new(&zero), Err(Error::Validation)));
}

#[test]
fn shader_with_unloaded_bitmap_fails_and_leaves_registry_unchanged() {
    let mut renderer = new_renderer();
    let result = renderer.add_shader("shaders/wall", basic_shader(Some("bitmaps/wall")));
    assert_eq!(result, Err(Error::Validation));
    assert_eq!(renderer.shaders.len(), 0);

    // As if the first call never happened: the corrected add succeeds.
    renderer.add_bitmap("bitmaps/wall", tiny_bitmap()).unwrap();
    renderer
        .add_shader("shaders/wall", basic_shader(Some("bitmaps/wall")))
        .unwrap();
    assert_eq!(renderer.shaders.len(), 1);
}

#[test]
fn duplicate_keys_rejected() {
    let mut renderer = new_renderer();
    renderer.add_bitmap("bitmaps/a", tiny_bitmap()).unwrap();
    assert_eq!(
        renderer.add_bitmap("bitmaps/a", tiny_bitmap()),
        Err(Error::DuplicateKey)
    );
    assert_eq!(renderer.bitmaps.len(), 4);
}

#[test]
fn malformed_bitmap_rejected() {
    let mut renderer = new_renderer();
    let mut param = tiny_bitmap();
    param.bitmaps[0].data.pop();
    assert_eq!(renderer.add_bitmap("bitmaps/bad", param), Err(Error::Validation));
}

#[test]
fn bitmap_sequence_out_of_range_rejected() {
    let mut renderer = new_renderer();
    let mut param = tiny_bitmap();
    param.sequences = vec![magellanicus::bitmap::BitmapSequence::Bitmap { first: 0, count: 2 }];
    assert_eq!(renderer.add_bitmap("bitmaps/seq", param), Err(Error::Validation));
}

#[test]
fn reset_restores_default_resource_state() {
    let mut renderer = new_renderer();
    renderer.add_bitmap("bitmaps/a", tiny_bitmap()).unwrap();
    renderer.add_shader("shaders/a", basic_shader(None)).unwrap();
    renderer.reset();
    assert_eq!(renderer.bitmaps.len(), 3);
    assert_eq!(renderer.shaders.len(), 0);
    assert!(renderer.debug_text_stale);

    // A second reset yields the same default-resource state as one reset.
    renderer.reset();
    let fresh = new_renderer();
    assert_eq!(renderer.bitmaps.len(), fresh.bitmaps.len());
    assert_eq!(renderer.shaders.len(), fresh.shaders.len());
    for kind in [DefaultType::Null, DefaultType::White, DefaultType::Gray, DefaultType::Vector] {
        assert_eq!(
            renderer.get_default_2d(kind).data,
            fresh.get_default_2d(kind).data
        );
    }
}

#[test]
fn set_current_bsp_requires_loaded_level() {
    let mut renderer = new_renderer();
    assert_eq!(
        renderer.set_current_bsp(Some("levels/missing")),
        Err(Error::Validation)
    );
    renderer.set_current_bsp(None).unwrap();
    assert!(renderer.current_bsp.is_none());
}

#[test]
fn error_descriptions() {
    assert_eq!(Error::Validation.describe(), "invalid parameters");
    assert_eq!(Error::DuplicateKey.describe(), "key already exists");
    assert_eq!(Error::Backend.describe(), "graphics backend failure");
    assert_eq!(
        Error::InvariantViolation.describe(),
        "internal invariant violated"
    );
}

#[test]
fn frame_rate_counter_rolls_over() {
    let mut renderer = new_renderer();
    assert!(!renderer.update_frame_rate_counter(500));
    assert!(!renderer.update_frame_rate_counter(900));
    // Three frames over two million microseconds: 1.5 frames per second.
    assert!(renderer.update_frame_rate_counter(2_000_000));
    assert_eq!(renderer.fps_counter_value, 3 * 65536 / 2);
    assert_eq!(renderer.fps_counter_count, 0);
}

#[test]
fn sky_validation_checks_fog_and_geometry_reference() {
    let mut renderer = new_renderer();
    let bad_fog = FogData {
        color: ColorRgb { r: 0, g: 0, b: 0 },
        distance_from: 10,
        distance_to: 5,
        min_opacity: 0,
        max_opacity: 0,
    };
    let param = AddSkyParameter { geometry: None, outdoor_fog: bad_fog, indoor_fog: bad_fog };
    assert_eq!(renderer.add_sky("skies/bad", param), Err(Error::Validation));
    let ok_fog = FogData::default();
    let dangling = AddSkyParameter {
        geometry: Some("models/skybox".to_owned()),
        outdoor_fog: ok_fog,
        indoor_fog: ok_fog,
    };
    assert_eq!(renderer.add_sky("skies/dangling", dangling), Err(Error::Validation));
    let plain = AddSkyParameter { geometry: None, outdoor_fog: ok_fog, indoor_fog: ok_fog };
    renderer.add_sky("skies/plain", plain).unwrap();
    assert_eq!(renderer.skies.len(), 1);
}

#[test]
fn geometry_requires_loaded_shaders() {
    let mut renderer = new_renderer();
    let part = AddGeometryParameterPart {
        shader: "shaders/hull".to_owned(),
        vertices: vec![],
        indices: vec![],
        centroid: FixedVec3 { x: 0, y: 0, z: 0 },
        previous_filthy_part_index: None,
        next_filthy_part_index: None,
    };
    let param = AddGeometryParameter {
        nodes: vec![],
        geometries: vec![AddGeometryParameterGeometry { parts: vec![part] }],
        cutoff: GeometryDetailData {
            super_low: 0,
            low: FRAC_ONE,
            medium: 2 * FRAC_ONE,
            high: 3 * FRAC_ONE,
            super_high: 4 * FRAC_ONE,
        },
        base_uv: TextureCoords { u: 0, v: 0 },
    };
    assert_eq!(renderer.add_geometry("models/ship", param), Err(Error::Validation));
    renderer.add_shader("shaders/hull", basic_shader(None)).unwrap();
    let part = AddGeometryParameterPart {
        shader: "shaders/hull".to_owned(),
        vertices: vec![],
        indices: vec![],
        centroid: FixedVec3 { x: 0, y: 0, z: 0 },
        previous_filthy_part_index: None,
        next_filthy_part_index: None,
    };
    let param = AddGeometryParameter {
        nodes: vec![],
        geometries: vec![AddGeometryParameterGeometry { parts: vec![part] }],
        cutoff: GeometryDetailData {
            super_low: 0,
            low: FRAC_ONE,
            medium: 2 * FRAC_ONE,
            high: 3 * FRAC_ONE,
            super_high: 4 * FRAC_ONE,
        },
        base_uv: TextureCoords { u: 0, v: 0 },
    };
    renderer.add_geometry("models/ship", param).unwrap();
    assert_eq!(renderer.geometries.len(), 1);
}

#[test]
fn bitmap_references_resolve_or_fall_back() {
    let mut renderer = new_renderer();
    renderer.add_bitmap("bitmaps/wall", tiny_bitmap()).unwrap();
    // A present reference resolves to its image.
    let resolved = renderer
        .get_or_default_2d(&Some("bitmaps/wall".to_owned()), 0, DefaultType::White)
        .unwrap();
    assert_eq!(resolved.data, vec![1, 2, 3, 4]);
    // An absent reference falls back to the canonical default.
    let fallback = renderer.get_or_default_2d(&None, 0, DefaultType::Gray).unwrap();
    assert_eq!(fallback.data, vec![127, 127, 127, 255]);
    let volume = renderer.get_or_default_3d(&None, 0, DefaultType::White).unwrap();
    assert_eq!(volume.data, vec![255, 255, 255, 255]);
    // A dangling reference or bad index is an invariant violation.
    assert!(matches!(
        renderer.get_or_default_2d(&Some("bitmaps/missing".to_owned()), 0, DefaultType::White),
        Err(Error::InvariantViolation)
    ));
    assert!(matches!(
        renderer.get_or_default_cubemap(&Some("bitmaps/wall".to_owned()), 9, DefaultType::Null),
        Err(Error::InvariantViolation)
    ));
}
