use magellanicus::color::ColorRgb;
use magellanicus::error::Error;
use magellanicus::fixed::{DRAW_DISTANCE_MINIMUM, FRAC_HALF, FRAC_ONE};
use magellanicus::sky::{normalize_disabled_fog, FogData};
use magellanicus::viewport::{PlayerViewport, ViewportFog};

fn fog(from: u32, to: u32, min_o: u32, max_o: u32) -> FogData {
    FogData {
        color: ColorRgb { r: 0, g: 0, b: 0 },
        distance_from: from,
        distance_to: to,
        min_opacity: min_o,
        max_opacity: max_o,
    }
}

#[test]
fn validate_accepts_ordered_record() {
    assert!(fog(0, FRAC_ONE, 0, FRAC_ONE).validate().is_ok());
}

#[test]
fn validate_rejects_inverted_distances() {
    assert_eq!(fog(10, 5, 0, 0).validate(), Err(Error::Validation));
}

#[test]
fn validate_rejects_inverted_opacities() {
    assert_eq!(fog(0, 5, FRAC_HALF, 100).validate(), Err(Error::Validation));
}

#[test]
fn validate_rejects_overlarge_channel() {
    let mut f = fog(0, 5, 0, 0);
    f.color.r = FRAC_ONE + 1;
    assert_eq!(f.validate(), Err(Error::Validation));
}

#[test]
fn normalize_establishes_invariant_after_partial_interpolation() {
    // The clamp pass must repair any record, whatever interpolation left.
    let mut f = fog(10, 5, FRAC_HALF, 100);
    f.color.g = FRAC_ONE + 7;
    f.normalize();
    assert!(f.validate().is_ok());
    assert_eq!(f.distance_from, 10);
    assert_eq!(f.distance_to, 10);
    assert_eq!(f.min_opacity, FRAC_HALF);
    assert_eq!(f.max_opacity, FRAC_HALF);
    assert_eq!(f.color.g, FRAC_ONE);
}

#[test]
fn normalize_keeps_valid_record() {
    let mut f = fog(3, 9, 1, 2);
    let before = f;
    f.normalize();
    assert_eq!(f, before);
}

#[test]
fn disabled_fog_becomes_default() {
    let disabled = fog(0, 0, 0, FRAC_ONE);
    let stored = normalize_disabled_fog(disabled);
    assert_eq!(stored, FogData::default());
    let enabled = fog(0, 7, 0, 1);
    assert_eq!(normalize_disabled_fog(enabled), enabled);
}

#[test]
fn transition_consumed_in_one_shot_and_clamped() {
    let current = fog(0, 100, 0, 0);
    let target = fog(0, 200, 0, FRAC_ONE);
    let mut vp = PlayerViewport::default();
    vp.viewport_fog = Some(ViewportFog {
        current_fog_data: current,
        outdoor_fog_data: target,
        indoor_fog_data: target,
        target_fog_data: target,
        transition_amount: FRAC_HALF,
    });
    vp.update_fog_and_draw_distances(1000);
    let f = vp.viewport_fog.unwrap();
    assert_eq!(f.transition_amount, 0);
    assert_eq!(f.current_fog_data.distance_to, 150);
    assert_eq!(f.current_fog_data.max_opacity, FRAC_HALF);
    assert!(f.current_fog_data.validate().is_ok());
    assert_eq!(vp.draw_distance, [DRAW_DISTANCE_MINIMUM, 1000]);
}

#[test]
fn opaque_fog_limits_draw_distance() {
    let solid = fog(0, 400, 0, FRAC_ONE);
    let mut vp = PlayerViewport::default();
    vp.viewport_fog = Some(ViewportFog {
        current_fog_data: solid,
        outdoor_fog_data: solid,
        indoor_fog_data: solid,
        target_fog_data: solid,
        transition_amount: 0,
    });
    vp.update_fog_and_draw_distances(1000);
    assert_eq!(vp.draw_distance, [DRAW_DISTANCE_MINIMUM, 400]);
    // A fog that is not fully opaque leaves the level's distance alone.
    let thin = fog(0, 400, 0, FRAC_ONE - 1);
    vp.viewport_fog = Some(ViewportFog {
        current_fog_data: thin,
        outdoor_fog_data: thin,
        indoor_fog_data: thin,
        target_fog_data: thin,
        transition_amount: 0,
    });
    vp.update_fog_and_draw_distances(1000);
    assert_eq!(vp.draw_distance, [DRAW_DISTANCE_MINIMUM, 1000]);
}
