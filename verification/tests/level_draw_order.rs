use magellanicus::bsp::{
    AddBSPParameter, AddBSPParameterLightmapMaterial, AddBSPParameterLightmapSet, BSPCluster,
    BSPData,
};
use magellanicus::color::ColorRgb;
use magellanicus::draw::{sort_transparent, DrawCommand};
use magellanicus::fixed::{FixedVec3, FRAC_ONE, MIN_DRAW_DISTANCE_LIMIT};
use magellanicus::parameters::RendererParameters;
use magellanicus::pipeline::VulkanPipelineType;
use magellanicus::renderer::Renderer;
use magellanicus::shader::{
    AddShaderBasicShaderData, AddShaderData, AddShaderEnvironmentShaderData, AddShaderParameter,
    ShaderEnvironmentMapFunction, ShaderEnvironmentType, ShaderReflectionType, ShaderType,
};
use magellanicus::sky::{AddSkyParameter, FogData};
use magellanicus::vertex::{LightmapVertex, ModelTriangle, ModelVertex, TextureCoords};

fn vertex(x: i32, y: i32, z: i32) -> ModelVertex {
    let p = FixedVec3 { x, y, z };
    ModelVertex {
        position: p,
        normal: FixedVec3 { x: 0, y: 0, z: FRAC_ONE as i32 },
        binormal: FixedVec3 { x: 0, y: FRAC_ONE as i32, z: 0 },
        tangent: FixedVec3 { x: FRAC_ONE as i32, y: 0, z: 0 },
        texture_coords: TextureCoords { u: 0, v: 0 },
    }
}

fn material(shader: &str, centroid_x: i32) -> AddBSPParameterLightmapMaterial {
    AddBSPParameterLightmapMaterial {
        shader_vertices: vec![vertex(0, 0, 0), vertex(1, 0, 0), vertex(0, 1, 0)],
        lightmap_vertices: None,
        surfaces: vec![ModelTriangle { indices: [0, 1, 2] }],
        shader: shader.to_owned(),
        centroid: FixedVec3 { x: centroid_x, y: 0, z: 0 },
    }
}

fn opaque_shader() -> AddShaderParameter {
    AddShaderParameter {
        data: AddShaderData::ShaderEnvironment(AddShaderEnvironmentShaderData {
            alpha_tested: false,
            bump_map_is_specular_mask: false,
            shader_environment_type: ShaderEnvironmentType::Normal,
            base_map: None,
            detail_map_function: ShaderEnvironmentMapFunction::Multiply,
            primary_detail_map: None,
            primary_detail_map_scale: FRAC_ONE,
            secondary_detail_map: None,
            secondary_detail_map_scale: FRAC_ONE,
            micro_detail_map: None,
            micro_detail_map_scale: FRAC_ONE,
            micro_detail_map_function: ShaderEnvironmentMapFunction::Multiply,
            bump_map: None,
            bump_map_scale: FRAC_ONE,
            reflection_cube_map: None,
            reflection_type: ShaderReflectionType::FlatCubeMap,
            perpendicular_color: ColorRgb { r: 0, g: 0, b: 0 },
            perpendicular_brightness: 0,
            parallel_color: ColorRgb { r: 0, g: 0, b: 0 },
            parallel_brightness: 0,
        }),
    }
}

fn transparent_shader() -> AddShaderParameter {
    AddShaderParameter {
        data: AddShaderData::BasicShader(AddShaderBasicShaderData {
            bitmap: None,
            shader_type: ShaderType::TransparentGeneric,
            alpha_tested: false,
        }),
    }
}

/// A renderer with one opaque shader (index 0), one transparent shader
/// (index 1), and a level whose materials alternate transparent and opaque.
fn scene() -> Renderer {
    let mut renderer = Renderer::new(&RendererParameters::default()).unwrap();
    renderer.add_shader("shaders/floor", opaque_shader()).unwrap();
    renderer.add_shader("shaders/glass", transparent_shader()).unwrap();
    let level = AddBSPParameter {
        lightmap_bitmap: None,
        lightmap_sets: vec![AddBSPParameterLightmapSet {
            lightmap_index: None,
            materials: vec![
                material("shaders/glass", 10),
                material("shaders/floor", 0),
                material("shaders/glass", 5),
                material("shaders/floor", 0),
                material("shaders/glass", 10),
            ],
        }],
        bsp_data: BSPData { clusters: vec![] },
    };
    renderer.add_bsp("levels/test", level).unwrap();
    renderer.set_current_bsp(Some("levels/test")).unwrap();
    renderer
}

#[test]
fn draw_lists_partition_the_instances() {
    let renderer = scene();
    let key = "levels/test".to_owned();
    let bsp = renderer.bsps.get(&key).unwrap();
    assert_eq!(bsp.geometries.len(), 5);
    // Opaque and transparent lists together cover every instance exactly
    // once, each grouped by shader identity with ties in instance order.
    assert_eq!(bsp.opaque_geometries, vec![1, 3]);
    assert_eq!(bsp.transparent_geometries, vec![0, 2, 4]);
    // The tiny level clamps to the minimum draw distance.
    assert_eq!(bsp.draw_distance, MIN_DRAW_DISTANCE_LIMIT);
    // Buffer offsets advance by three vertices and three indices per
    // material.
    assert_eq!(bsp.geometries[2].offset.vertex_offset, 6);
    assert_eq!(bsp.geometries[2].offset.index_offset, 6);
    assert_eq!(bsp.geometries[2].offset.index_count, 3);
}

#[test]
fn transparent_resort_is_back_to_front_and_stable() {
    let renderer = scene();
    let key = "levels/test".to_owned();
    let bsp = renderer.bsps.get(&key).unwrap();
    // Camera at the origin: instances 0 and 4 sit at distance 10 (squared
    // 100), instance 2 at distance 5 (squared 25).  Farthest first, the
    // equal-distance pair keeps its stored order.
    let order = sort_transparent(bsp, FixedVec3 { x: 0, y: 0, z: 0 });
    assert_eq!(order, vec![0, 4, 2]);
    // A camera sitting on the distant pair reverses the order.
    let order_near = sort_transparent(bsp, FixedVec3 { x: 10, y: 0, z: 0 });
    assert_eq!(order_near, vec![2, 0, 4]);
}

#[test]
fn frame_stream_reuses_bindings_per_shader() {
    let mut renderer = scene();
    let frame = renderer.draw_frame();
    assert_eq!(frame.viewport_commands.len(), 1);
    let stream = &frame.viewport_commands[0];
    // The viewport's uniform state is bound once, then the sky box; no
    // cluster was found, so the fog is the default record and the
    // background black.
    match stream[0] {
        DrawCommand::BindViewportUniforms { fog } => {
            assert_eq!(fog, FogData::default());
        },
        _ => panic!("expected the viewport uniforms first"),
    }
    match stream[1] {
        DrawCommand::ColorBox { x, y, width, height, color } => {
            assert_eq!((x, y, width, height), (0, 0, FRAC_ONE, FRAC_ONE));
            assert_eq!((color.r, color.g, color.b, color.a), (0, 0, 0, FRAC_ONE));
        },
        _ => panic!("expected the sky box first"),
    }
    // Two opaque draws share one material binding; the three transparent
    // draws rebind once when the shader changes after the opaque walk.
    let binds: Vec<(usize, VulkanPipelineType)> = stream
        .iter()
        .filter_map(|c| match c {
            DrawCommand::BindMaterial { shader_index, pipeline } => {
                Some((*shader_index, *pipeline))
            },
            _ => None,
        })
        .collect();
    assert_eq!(
        binds,
        vec![
            (0, VulkanPipelineType::ShaderEnvironment),
            (1, VulkanPipelineType::SimpleTexture),
        ]
    );
    let draws = stream
        .iter()
        .filter(|c| matches!(c, DrawCommand::DrawIndexed { .. }))
        .count();
    assert_eq!(draws, 5);
    // One viewport draws no split-screen bars.
    assert!(frame.split_screen_bars.is_empty());
}

#[test]
fn water_shaders_are_skipped_in_the_transparent_pass() {
    let mut renderer = Renderer::new(&RendererParameters::default()).unwrap();
    renderer.add_shader("shaders/lake water", transparent_shader()).unwrap();
    let level = AddBSPParameter {
        lightmap_bitmap: None,
        lightmap_sets: vec![AddBSPParameterLightmapSet {
            lightmap_index: None,
            materials: vec![material("shaders/lake water", 3)],
        }],
        bsp_data: BSPData { clusters: vec![] },
    };
    renderer.add_bsp("levels/lake", level).unwrap();
    renderer.set_current_bsp(Some("levels/lake")).unwrap();
    let frame = renderer.draw_frame();
    let stream = &frame.viewport_commands[0];
    assert!(stream
        .iter()
        .all(|c| !matches!(c, DrawCommand::DrawIndexed { .. })));
}

#[test]
fn split_screen_bars_for_three_viewports() {
    let mut params = RendererParameters::default();
    params.number_of_viewports = 3;
    let mut renderer = Renderer::new(&params).unwrap();
    let frame = renderer.draw_frame();
    assert_eq!(frame.viewport_commands.len(), 3);
    // At the 640x480 baseline the scale is one: the horizontal bar is two
    // 480ths high and the vertical bar two 640ths wide, over the bottom
    // half only.
    let th = 2 * FRAC_ONE / 480;
    let tv = 2 * FRAC_ONE / 640;
    assert_eq!(frame.split_screen_bars.len(), 2);
    match frame.split_screen_bars[0] {
        DrawCommand::ColorBox { x, y, width, height, .. } => {
            assert_eq!((x, y, width, height), (0, FRAC_ONE / 2 - th / 2, FRAC_ONE, th));
        },
        _ => panic!("expected the horizontal bar"),
    }
    match frame.split_screen_bars[1] {
        DrawCommand::ColorBox { x, y, width, height, .. } => {
            assert_eq!((x, y, width, height), (FRAC_ONE / 2 - tv / 2, FRAC_ONE / 2, tv, FRAC_ONE / 2));
        },
        _ => panic!("expected the vertical bar"),
    }
}

#[test]
fn cluster_fog_reaches_the_sky_box() {
    let mut renderer = scene();
    let red_fog = FogData {
        color: ColorRgb { r: FRAC_ONE, g: 0, b: 0 },
        distance_from: 0,
        distance_to: 100 * FRAC_ONE,
        min_opacity: 0,
        max_opacity: FRAC_ONE / 2,
    };
    renderer
        .add_sky(
            "skies/red",
            AddSkyParameter { geometry: None, outdoor_fog: red_fog, indoor_fog: red_fog },
        )
        .unwrap();
    let level = AddBSPParameter {
        lightmap_bitmap: None,
        lightmap_sets: vec![],
        bsp_data: BSPData {
            clusters: vec![BSPCluster {
                sky: Some("skies/red".to_owned()),
                cluster_min: FixedVec3 { x: -100, y: -100, z: -100 },
                cluster_max: FixedVec3 { x: 100, y: 100, z: 100 },
            }],
        },
    };
    renderer.add_bsp("levels/foggy", level).unwrap();
    renderer.set_current_bsp(Some("levels/foggy")).unwrap();
    let frame = renderer.draw_frame();
    // The camera at the origin lies in the cluster, so the resolve pass
    // adopts the sky's outdoor fog: the fog uniform carries it and the sky
    // box is drawn in fog color.
    match frame.viewport_commands[0][0] {
        DrawCommand::BindViewportUniforms { fog } => {
            assert_eq!(fog, red_fog);
        },
        _ => panic!("expected the viewport uniforms first"),
    }
    match frame.viewport_commands[0][1] {
        DrawCommand::ColorBox { color, .. } => {
            assert_eq!((color.r, color.g, color.b), (FRAC_ONE, 0, 0));
        },
        _ => panic!("expected the sky box next"),
    }
    let fog = renderer.player_viewports[0].viewport_fog.unwrap();
    assert_eq!(fog.current_fog_data, red_fog);
    assert_eq!(fog.transition_amount, 0);
}

#[test]
fn lightmap_bindings_follow_instances_and_camera_toggle() {
    let mut renderer = Renderer::new(&RendererParameters::default()).unwrap();
    renderer.add_shader("shaders/floor", opaque_shader()).unwrap();
    let mut lit = material("shaders/floor", 0);
    lit.lightmap_vertices = Some(vec![
        LightmapVertex { lightmap_texture_coords: TextureCoords { u: 0, v: 0 } },
        LightmapVertex { lightmap_texture_coords: TextureCoords { u: 0, v: 0 } },
        LightmapVertex { lightmap_texture_coords: TextureCoords { u: 0, v: 0 } },
    ]);
    let level = AddBSPParameter {
        lightmap_bitmap: None,
        lightmap_sets: vec![AddBSPParameterLightmapSet {
            lightmap_index: Some(7),
            materials: vec![lit, material("shaders/floor", 0)],
        }],
        bsp_data: BSPData { clusters: vec![] },
    };
    renderer.add_bsp("levels/lit", level).unwrap();
    renderer.set_current_bsp(Some("levels/lit")).unwrap();
    let frame = renderer.draw_frame();
    let lightmaps: Vec<Option<usize>> = frame.viewport_commands[0]
        .iter()
        .filter_map(|c| match c {
            DrawCommand::BindLightmap { lightmap_index } => Some(*lightmap_index),
            _ => None,
        })
        .collect();
    // The instance with lightmap vertices binds its page; the one without
    // binds the null lightmap.
    assert_eq!(lightmaps, vec![Some(7), None]);

    // Disabling lightmaps on the camera binds the null lightmap throughout.
    let mut camera = renderer.get_camera_for_viewport(0);
    camera.lightmaps = false;
    camera.position.x = 1;
    renderer.set_camera_for_viewport(0, camera);
    let frame = renderer.draw_frame();
    let lightmaps: Vec<Option<usize>> = frame.viewport_commands[0]
        .iter()
        .filter_map(|c| match c {
            DrawCommand::BindLightmap { lightmap_index } => Some(*lightmap_index),
            _ => None,
        })
        .collect();
    assert_eq!(lightmaps, vec![None, None]);
}
