use magellanicus::color::ColorRgb;
use magellanicus::error::Error;
use magellanicus::fixed::{FixedVec3, FRAC_HALF, FRAC_ONE, PI_RADIANS};
use magellanicus::parameters::RendererParameters;
use magellanicus::renderer::Renderer;
use magellanicus::sky::FogData;
use magellanicus::viewport::{viewport_rects, Camera, NormRect, ViewportFog};

#[test]
fn three_viewports_fixed_rectangles() {
    // Top half full width, bottom-left quarter, bottom-right quarter.
    let rects = viewport_rects(3).unwrap();
    assert_eq!(
        rects,
        vec![
            NormRect { x: 0, y: 0, width: FRAC_ONE, height: FRAC_HALF },
            NormRect { x: 0, y: FRAC_HALF, width: FRAC_HALF, height: FRAC_HALF },
            NormRect { x: FRAC_HALF, y: FRAC_HALF, width: FRAC_HALF, height: FRAC_HALF },
        ]
    );
    // No gaps and no overlaps: the areas sum to the whole surface.
    let area: u64 = rects
        .iter()
        .map(|r| r.width as u64 * r.height as u64)
        .sum();
    assert_eq!(area, FRAC_ONE as u64 * FRAC_ONE as u64);
}

#[test]
fn one_viewport_fills_surface() {
    let rects = viewport_rects(1).unwrap();
    assert_eq!(rects, vec![NormRect { x: 0, y: 0, width: FRAC_ONE, height: FRAC_ONE }]);
}

#[test]
fn two_viewports_split_horizontally() {
    let rects = viewport_rects(2).unwrap();
    assert_eq!(rects.len(), 2);
    assert_eq!(rects[0].width, FRAC_ONE);
    assert_eq!(rects[1].y, FRAC_HALF);
}

#[test]
fn four_viewports_are_quarters() {
    let rects = viewport_rects(4).unwrap();
    assert_eq!(rects.len(), 4);
    for r in &rects {
        assert_eq!(r.width, FRAC_HALF);
        assert_eq!(r.height, FRAC_HALF);
    }
}

#[test]
fn unsupported_viewport_counts_rejected() {
    assert_eq!(viewport_rects(0).unwrap_err(), Error::Validation);
    assert_eq!(viewport_rects(5).unwrap_err(), Error::Validation);
}

#[test]
fn fov_validation_boundaries() {
    // fov <= 0 and fov >= pi are rejected, never clamped.
    let mut camera = Camera::default();
    camera.fov = 0;
    assert!(!camera.fov_valid());
    camera.fov = 1;
    assert!(camera.fov_valid());
    camera.fov = PI_RADIANS - 1;
    assert!(camera.fov_valid());
    camera.fov = PI_RADIANS;
    assert!(!camera.fov_valid());
    camera.fov = PI_RADIANS + 1;
    assert!(!camera.fov_valid());
}

#[test]
fn camera_movement_accumulates_fog_transition() {
    let mut renderer = Renderer::new(&RendererParameters::default()).unwrap();
    let f = FogData {
        color: ColorRgb { r: 0, g: 0, b: 0 },
        distance_from: 0,
        distance_to: FRAC_ONE,
        min_opacity: 0,
        max_opacity: 0,
    };
    renderer.player_viewports[0].viewport_fog = Some(ViewportFog {
        current_fog_data: f,
        outdoor_fog_data: f,
        indoor_fog_data: f,
        target_fog_data: f,
        transition_amount: 0,
    });
    // Moving five world units contributes half of the ten-unit cap.
    let mut camera = Camera::default();
    camera.position.x = 5 * FRAC_ONE as i32;
    renderer.set_camera_for_viewport(0, camera);
    let fog = renderer.player_viewports[0].viewport_fog.unwrap();
    assert_eq!(fog.transition_amount, FRAC_HALF);
    // Moving much farther saturates the pending amount at one.
    let mut far = Camera::default();
    far.position.x = 500 * FRAC_ONE as i32;
    renderer.set_camera_for_viewport(0, far);
    let fog = renderer.player_viewports[0].viewport_fog.unwrap();
    assert_eq!(fog.transition_amount, FRAC_ONE);
}

#[test]
fn zero_rotation_falls_back_to_unit_y() {
    let mut renderer = Renderer::new(&RendererParameters::default()).unwrap();
    let mut camera = Camera::default();
    camera.position.x = 1;
    camera.rotation = FixedVec3 { x: 0, y: 0, z: 0 };
    renderer.set_camera_for_viewport(0, camera);
    assert_eq!(
        renderer.get_camera_for_viewport(0).rotation,
        FixedVec3 { x: 0, y: FRAC_ONE as i32, z: 0 }
    );
}

#[test]
fn set_camera_scales_rotation_to_unit_length() {
    let mut renderer = Renderer::new(&RendererParameters::default()).unwrap();
    let mut camera = Camera::default();
    camera.position.x = 1;
    // A 3-4-5 triangle: the stored direction is the vector scaled by
    // FRAC_ONE over its length, each component truncated toward zero.
    camera.rotation = FixedVec3 { x: 3 * FRAC_ONE as i32, y: 4 * FRAC_ONE as i32, z: 0 };
    renderer.set_camera_for_viewport(0, camera);
    let stored = renderer.get_camera_for_viewport(0).rotation;
    assert_eq!(stored, FixedVec3 { x: 39321, y: 52428, z: 0 });
    // A vector that is already unit length is kept exactly.
    let mut unit = Camera::default();
    unit.position.x = 2;
    unit.rotation = FixedVec3 { x: 0, y: 0, z: FRAC_ONE as i32 };
    renderer.set_camera_for_viewport(0, unit);
    assert_eq!(
        renderer.get_camera_for_viewport(0).rotation,
        FixedVec3 { x: 0, y: 0, z: FRAC_ONE as i32 }
    );
}
