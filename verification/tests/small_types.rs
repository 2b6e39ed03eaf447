use magellanicus::bitmap::{BitmapBitmap, BitmapFormat, BitmapType};
use magellanicus::fixed::{FixedVec3, FRAC_ONE};
use magellanicus::geometry::GeometryDetailData;
use magellanicus::keymap::KeyMap;
use magellanicus::parameters::{Resolution, MSAA};
use magellanicus::string32::String32;
use magellanicus::viewport::Camera;

#[test]
fn string32_round_trip() {
    let s = String32::try_from("levels/citadel").unwrap();
    assert_eq!(s.len(), 14);
    assert_eq!(s.as_bytes(), b"levels/citadel");
}

#[test]
fn string32_rejects_long_strings() {
    assert!(String32::try_from("a string well beyond thirty-two bytes long").is_err());
    assert!(String32::try_from("exactly thirty-two bytes long ok").is_ok());
}

#[test]
fn keymap_insertion_order_is_identity() {
    let mut map: KeyMap<u32> = KeyMap::new();
    map.insert("alpha".to_owned(), 10);
    map.insert("beta".to_owned(), 20);
    assert_eq!(map.len(), 2);
    assert_eq!(map.index_of(&"beta".to_owned()), Some(1));
    assert_eq!(map.get(&"alpha".to_owned()), Some(&10));
    assert_eq!(map.get(&"gamma".to_owned()), None);
    assert_eq!(map.key_at(1), "beta");
    assert_eq!(*map.value_at(0), 10);
    map.clear();
    assert_eq!(map.len(), 0);
}

#[test]
fn msaa_sample_counts() {
    assert_eq!(MSAA::NoMSAA.sample_count(), 1);
    assert_eq!(MSAA::MSAA4x.sample_count(), 4);
    assert_eq!(MSAA::MSAA64x.sample_count(), 64);
    assert_eq!(MSAA::default().sample_count(), 1);
}

#[test]
fn resolution_default_is_baseline() {
    assert_eq!(Resolution::default(), Resolution { width: 640, height: 480 });
}

#[test]
fn camera_default_faces_forward() {
    let camera = Camera::default();
    assert_eq!(camera.rotation, FixedVec3 { x: 0, y: FRAC_ONE as i32, z: 0 });
    assert!(camera.lightmaps);
    assert!(camera.fog);
    assert!(camera.fov_valid());
}

#[test]
fn detail_data_orders_levels() {
    let detail = GeometryDetailData { super_low: 1u32, low: 2, medium: 3, high: 4, super_high: 5 };
    assert_eq!(detail.as_arr(), [&1, &2, &3, &4, &5]);
}

#[test]
fn mip_chain_sizes_validate() {
    let image = BitmapBitmap {
        format: BitmapFormat::A8B8G8R8,
        bitmap_type: BitmapType::Dim2D,
        resolution: Resolution { width: 4, height: 4 },
        mipmap_count: 2,
        // 4x4 + 2x2 + 1x1 pixels at four bytes each.
        data: vec![0; (16 + 4 + 1) * 4],
    };
    assert!(image.validate().is_ok());
    let short = BitmapBitmap { data: vec![0; 16 * 4], ..image };
    assert!(short.validate().is_err());
}

#[test]
fn cubemap_counts_six_layers() {
    let image = BitmapBitmap {
        format: BitmapFormat::A8,
        bitmap_type: BitmapType::Cubemap,
        resolution: Resolution { width: 2, height: 2 },
        mipmap_count: 0,
        data: vec![0; 2 * 2 * 6],
    };
    assert!(image.validate().is_ok());
}
