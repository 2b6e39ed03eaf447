//! The renderer facade: resource registry, viewports, and the per-frame
//! fog and draw-order decisions.

use vstd::prelude::*;
use crate::bitmap::{AddBitmapParameter, Bitmap, BitmapBitmap, BitmapFormat, BitmapType, DefaultType};
use crate::bsp::{AddBSPParameter, BSP, spec_sets_geoms, spec_sets_positions, spec_draw_distance, spec_find_cluster};
use crate::error::{Error, MResult};
use crate::fixed::{FRAC_ONE, FOG_TRANSITION_CAP, FixedVec3, distance_squared, isqrt, spec_isqrt};
use crate::font::{AddFontParameter, Font};
use crate::geometry::{AddGeometryParameter, Geometry};
use crate::keymap::{KeyMap, spec_contains_key, spec_value_of};
use crate::parameters::{RendererParameters, Resolution};
use crate::shader::{AddShaderParameter, Shader, spec_material_of, spec_reference_view};
use crate::sky::{AddSkyParameter, FogData, Sky, spec_normalize_disabled_fog, normalize_disabled_fog};
use crate::viewport::{
    Camera, PlayerViewport, ViewportFog, spec_fov_valid, spec_viewport_rects, viewport_rects,
};

verus! {

/// Keys of the canonical fallback bitmaps the registry always holds.
pub struct DefaultBitmaps {
    pub default_2d: String,
    pub default_3d: String,
    pub default_cubemap: String,
}

/// The four bytes of one canonical fallback pixel.
pub open spec fn spec_default_pixel_bytes(t: DefaultType) -> Seq<u8> {
    match t {
        DefaultType::Null => seq![0u8, 0u8, 0u8, 0u8],
        DefaultType::White => seq![255u8, 255u8, 255u8, 255u8],
        DefaultType::Gray => seq![127u8, 127u8, 127u8, 255u8],
        DefaultType::Vector => seq![127u8, 127u8, 255u8, 255u8],
    }
}

/// The canonical pixel repeated over `layers` layers.
pub open spec fn spec_default_data(t: DefaultType, layers: int) -> Seq<u8>
    decreases layers,
{
    if layers <= 0 {
        Seq::empty()
    } else {
        spec_default_data(t, layers - 1) + spec_default_pixel_bytes(t)
    }
}

/// The fallback kind stored at position `k` of a default bitmap.
pub open spec fn spec_default_type_at(k: int) -> DefaultType {
    if k == 0 {
        DefaultType::Null
    } else if k == 1 {
        DefaultType::White
    } else if k == 2 {
        DefaultType::Gray
    } else {
        DefaultType::Vector
    }
}

/// One canonical fallback image: 1x1, full 8-bit RGBA, no mip chain, with
/// the fallback kind's pixel in every layer.
pub open spec fn spec_is_default_image(b: BitmapBitmap, t: DefaultType, bt: BitmapType) -> bool {
    &&& b.format == BitmapFormat::A8B8G8R8
    &&& b.bitmap_type == bt
    &&& b.resolution == (Resolution { width: 1, height: 1 })
    &&& b.mipmap_count == 0
    &&& b.data@ == spec_default_data(t, crate::bitmap::spec_layer_count(bt))
}

/// A canonical fallback bitmap resource: the four fallback kinds in order.
pub open spec fn spec_is_default_bitmap(b: Bitmap, bt: BitmapType) -> bool {
    &&& b.bitmaps@.len() == 4
    &&& forall|k: int|
        0 <= k < 4 ==> spec_is_default_image(
            #[trigger] b.bitmaps@[k],
            spec_default_type_at(k),
            bt,
        )
    &&& b.sequences@.len() == 0
}

/// The resource state `reset` leaves behind: only the three canonical
/// fallback bitmaps under their fixed keys, no other resources, no current
/// level, no debug font, and stale debug text.
pub open spec fn spec_is_reset_resources(r: Renderer) -> bool {
    &&& r.bitmaps@.len() == 3
    &&& r.bitmaps@[0].0 == "default/2d"@
    &&& spec_is_default_bitmap(r.bitmaps@[0].1, BitmapType::Dim2D)
    &&& r.bitmaps@[1].0 == "default/3d"@
    &&& spec_is_default_bitmap(r.bitmaps@[1].1, BitmapType::Dim3D { depth: 1 })
    &&& r.bitmaps@[2].0 == "default/cubemap"@
    &&& spec_is_default_bitmap(r.bitmaps@[2].1, BitmapType::Cubemap)
    &&& r.shaders@.len() == 0
    &&& r.geometries@.len() == 0
    &&& r.skies@.len() == 0
    &&& r.bsps@.len() == 0
    &&& r.fonts@.len() == 0
    &&& r.current_bsp is None
    &&& r.debug_font is None
    &&& r.debug_text@.len() == 0
    &&& r.debug_text_stale == true
    &&& r.default_bitmaps.default_2d@ == "default/2d"@
    &&& r.default_bitmaps.default_3d@ == "default/3d"@
    &&& r.default_bitmaps.default_cubemap@ == "default/cubemap"@
}

/// The scene-composition core.
pub struct Renderer {
    /// The player viewports, in index order.
    pub player_viewports: Vec<PlayerViewport>,
    /// Loaded bitmap resources.
    pub bitmaps: KeyMap<Bitmap>,
    /// Loaded shader resources.
    pub shaders: KeyMap<Shader>,
    /// Loaded model resources.
    pub geometries: KeyMap<Geometry>,
    /// Loaded sky resources.
    pub skies: KeyMap<Sky>,
    /// Loaded level resources.
    pub bsps: KeyMap<BSP>,
    /// Loaded font resources.
    pub fonts: KeyMap<Font>,
    /// Keys of the canonical fallback bitmaps.
    pub default_bitmaps: DefaultBitmaps,
    /// Key of the level currently drawn, if any.
    pub current_bsp: Option<String>,
    /// Current output resolution.
    pub current_resolution: Resolution,
    /// Rendered debug-text bitmaps, most recent last.
    pub debug_text: Vec<Bitmap>,
    /// Whether the debug overlay must be rebuilt before the next frame.
    pub debug_text_stale: bool,
    /// Key of the font the debug overlay uses, if any.
    pub debug_font: Option<String>,
    /// Latest measured frame rate as a fixed-point fraction.
    pub fps_counter_value: u32,
    /// Frames drawn since the counter last rolled over.
    pub fps_counter_count: u32,
}

impl Renderer {
    /// The facade's invariant: every map is well keyed, every stored level
    /// and font is well formed, the viewports are well formed and between
    /// one and four, the resolution is nonzero, and the current level and
    /// debug font keys are loaded.
    pub open spec fn wf(&self) -> bool {
        &&& self.bitmaps.wf()
        &&& self.shaders.wf()
        &&& self.geometries.wf()
        &&& self.skies.wf()
        &&& self.bsps.wf()
        &&& self.fonts.wf()
        &&& forall|i: int| 0 <= i < self.bsps@.len() ==> (#[trigger] self.bsps@[i]).1.wf(self.shaders@)
        &&& forall|i: int| 0 <= i < self.fonts@.len() ==> (#[trigger] self.fonts@[i]).1.wf()
        &&& forall|i: int|
            0 <= i < self.player_viewports@.len() ==> (#[trigger] self.player_viewports@[i]).wf()
        &&& 1 <= self.player_viewports@.len() <= 4
        &&& self.current_resolution.width >= 1
        &&& self.current_resolution.height >= 1
        &&& match self.current_bsp {
            Option::Some(ref k) => spec_contains_key(self.bsps@, k@),
            Option::None => true,
        }
        &&& match self.debug_font {
            Option::Some(ref k) => spec_contains_key(self.fonts@, k@),
            Option::None => true,
        }
        &&& spec_contains_key(self.bitmaps@, self.default_bitmaps.default_2d@)
        &&& spec_is_default_bitmap(
            spec_value_of(self.bitmaps@, self.default_bitmaps.default_2d@),
            BitmapType::Dim2D,
        )
        &&& spec_contains_key(self.bitmaps@, self.default_bitmaps.default_3d@)
        &&& spec_is_default_bitmap(
            spec_value_of(self.bitmaps@, self.default_bitmaps.default_3d@),
            BitmapType::Dim3D { depth: 1 },
        )
        &&& spec_contains_key(self.bitmaps@, self.default_bitmaps.default_cubemap@)
        &&& spec_is_default_bitmap(
            spec_value_of(self.bitmaps@, self.default_bitmaps.default_cubemap@),
            BitmapType::Cubemap,
        )
    }
}

/// Build one canonical fallback image.
fn make_default_image(t: DefaultType, bt: BitmapType) -> (r: BitmapBitmap)
    requires
        crate::bitmap::spec_layer_count(bt) <= 6,
    ensures
        spec_is_default_image(r, t, bt),
{
    let layers = bt.layer_count();
    let mut data: Vec<u8> = Vec::new();
    let mut k: u32 = 0;
    proof {
        assert(data@ =~= spec_default_data(t, 0));
    }
    while k < layers
        invariant
            k <= layers,
            layers == crate::bitmap::spec_layer_count(bt),
            layers <= 6,
            data@ == spec_default_data(t, k as int),
        decreases layers - k,
    {
        match t {
            DefaultType::Null => {
                data.push(0);
                data.push(0);
                data.push(0);
                data.push(0);
            },
            DefaultType::White => {
                data.push(255);
                data.push(255);
                data.push(255);
                data.push(255);
            },
            DefaultType::Gray => {
                data.push(127);
                data.push(127);
                data.push(127);
                data.push(255);
            },
            DefaultType::Vector => {
                data.push(127);
                data.push(127);
                data.push(255);
                data.push(255);
            },
        }
        proof {
            assert(data@ =~= spec_default_data(t, k as int + 1));
        }
        k = k + 1;
    }
    BitmapBitmap {
        format: BitmapFormat::A8B8G8R8,
        bitmap_type: bt,
        resolution: Resolution { width: 1, height: 1 },
        mipmap_count: 0,
        data,
    }
}

/// Build one canonical fallback bitmap resource.
fn make_default_bitmap(bt: BitmapType) -> (r: Bitmap)
    requires
        crate::bitmap::spec_layer_count(bt) <= 6,
    ensures
        spec_is_default_bitmap(r, bt),
{
    let mut bitmaps: Vec<BitmapBitmap> = Vec::new();
    bitmaps.push(make_default_image(DefaultType::Null, bt));
    bitmaps.push(make_default_image(DefaultType::White, bt));
    bitmaps.push(make_default_image(DefaultType::Gray, bt));
    bitmaps.push(make_default_image(DefaultType::Vector, bt));
    Bitmap { bitmaps, sequences: Vec::new() }
}

impl Renderer {
    /// Repopulate the canonical fallback bitmaps into an empty bitmap map.
    fn populate_default_bitmaps(&mut self)
        requires
            old(self).bitmaps@.len() == 0,
            old(self).bitmaps.wf(),
        ensures
            final(self).bitmaps@.len() == 3,
            final(self).bitmaps@[0].0 == "default/2d"@,
            spec_is_default_bitmap(final(self).bitmaps@[0].1, BitmapType::Dim2D),
            final(self).bitmaps@[1].0 == "default/3d"@,
            spec_is_default_bitmap(final(self).bitmaps@[1].1, BitmapType::Dim3D { depth: 1 }),
            final(self).bitmaps@[2].0 == "default/cubemap"@,
            spec_is_default_bitmap(final(self).bitmaps@[2].1, BitmapType::Cubemap),
            final(self).bitmaps.wf(),
            spec_contains_key(final(self).bitmaps@, "default/2d"@),
            spec_value_of(final(self).bitmaps@, "default/2d"@) == final(self).bitmaps@[0].1,
            spec_contains_key(final(self).bitmaps@, "default/3d"@),
            spec_value_of(final(self).bitmaps@, "default/3d"@) == final(self).bitmaps@[1].1,
            spec_contains_key(final(self).bitmaps@, "default/cubemap"@),
            spec_value_of(final(self).bitmaps@, "default/cubemap"@)
                == final(self).bitmaps@[2].1,
            final(self).default_bitmaps.default_2d@ == "default/2d"@,
            final(self).default_bitmaps.default_3d@ == "default/3d"@,
            final(self).default_bitmaps.default_cubemap@ == "default/cubemap"@,
            final(self).player_viewports == old(self).player_viewports,
            final(self).shaders == old(self).shaders,
            final(self).geometries == old(self).geometries,
            final(self).skies == old(self).skies,
            final(self).bsps == old(self).bsps,
            final(self).fonts == old(self).fonts,
            final(self).current_bsp == old(self).current_bsp,
            final(self).current_resolution == old(self).current_resolution,
            final(self).debug_text == old(self).debug_text,
            final(self).debug_text_stale == old(self).debug_text_stale,
            final(self).debug_font == old(self).debug_font,
            final(self).fps_counter_value == old(self).fps_counter_value,
            final(self).fps_counter_count == old(self).fps_counter_count,
    {
        let key_2d: String = "default/2d".to_owned();
        let key_3d: String = "default/3d".to_owned();
        let key_cubemap: String = "default/cubemap".to_owned();
        proof {
            reveal_strlit("default/2d");
            reveal_strlit("default/3d");
            reveal_strlit("default/cubemap");
            assert("default/2d"@[8] != "default/3d"@[8]);
            assert("default/2d"@.len() != "default/cubemap"@.len());
            assert("default/3d"@.len() != "default/cubemap"@.len());
        }
        self.bitmaps.insert(key_2d, make_default_bitmap(BitmapType::Dim2D));
        self.bitmaps.insert("default/3d".to_owned(), make_default_bitmap(BitmapType::Dim3D { depth: 1 }));
        self.bitmaps.insert(
            "default/cubemap".to_owned(),
            make_default_bitmap(BitmapType::Cubemap),
        );
        self.default_bitmaps = DefaultBitmaps {
            default_2d: "default/2d".to_owned(),
            default_3d: key_3d,
            default_cubemap: key_cubemap,
        };
        proof {
            let m = self.bitmaps@;
            assert(m.len() == 3);
            assert(spec_contains_key(m, "default/2d"@)) by {
                assert(m[0].0 == "default/2d"@);
            }
            assert(spec_contains_key(m, "default/3d"@)) by {
                assert(m[1].0 == "default/3d"@);
            }
            assert(spec_contains_key(m, "default/cubemap"@)) by {
                assert(m[2].0 == "default/cubemap"@);
            }
            crate::keymap::lemma_index_of_in_range(m, "default/2d"@);
            crate::keymap::lemma_index_of_in_range(m, "default/3d"@);
            crate::keymap::lemma_index_of_in_range(m, "default/cubemap"@);
        }
    }

    /// Initialize the core: validate the configuration, lay the viewports
    /// out in the fixed pattern, and populate the default resources.
    pub fn new(parameters: &RendererParameters) -> (r: MResult<Renderer>)
        ensures
            r is Ok <==> (parameters.resolution.width >= 1 && parameters.resolution.height >= 1
                && 1 <= parameters.number_of_viewports <= 4),
            match r {
                Ok(ren) => ren.wf() && spec_is_reset_resources(ren)
                    && ren.current_resolution == parameters.resolution
                    && ren.player_viewports@.len() == parameters.number_of_viewports
                    && forall|i: int|
                    0 <= i < ren.player_viewports@.len() ==> {
                        let rect = spec_viewport_rects(parameters.number_of_viewports as int)[i];
                        (#[trigger] ren.player_viewports@[i]).rel_x == rect.x
                            && ren.player_viewports@[i].rel_y == rect.y
                            && ren.player_viewports@[i].rel_width == rect.width
                            && ren.player_viewports@[i].rel_height == rect.height
                            && ren.player_viewports@[i].camera
                            == crate::viewport::spec_default_camera()
                            && ren.player_viewports@[i].viewport_fog is None
                    },
                Err(e) => e == Error::Validation,
            },
    {
        if parameters.resolution.width == 0 || parameters.resolution.height == 0 {
            return Err(Error::Validation);
        }
        let rects = viewport_rects(parameters.number_of_viewports)?;
        let mut player_viewports: Vec<PlayerViewport> = Vec::new();
        let n = rects.len();
        let mut i: usize = 0;
        while i < n
            invariant
                n == rects@.len(),
                i <= n,
                player_viewports@.len() == i,
                forall|j: int|
                    0 <= j < i ==> (#[trigger] player_viewports@[j]).rel_x == rects@[j].x
                        && player_viewports@[j].rel_y == rects@[j].y
                        && player_viewports@[j].rel_width == rects@[j].width
                        && player_viewports@[j].rel_height == rects@[j].height
                        && player_viewports@[j].camera == crate::viewport::spec_default_camera()
                        && player_viewports@[j].viewport_fog is None
                        && player_viewports@[j].wf(),
            decreases n - i,
        {
            let rect = rects[i];
            let mut vp = PlayerViewport::default();
            vp.rel_x = rect.x;
            vp.rel_y = rect.y;
            vp.rel_width = rect.width;
            vp.rel_height = rect.height;
            player_viewports.push(vp);
            i = i + 1;
        }
        let mut result = Renderer {
            player_viewports,
            bitmaps: KeyMap::new(),
            shaders: KeyMap::new(),
            geometries: KeyMap::new(),
            skies: KeyMap::new(),
            bsps: KeyMap::new(),
            fonts: KeyMap::new(),
            default_bitmaps: DefaultBitmaps {
                default_2d: "default/2d".to_owned(),
                default_3d: "default/3d".to_owned(),
                default_cubemap: "default/cubemap".to_owned(),
            },
            current_bsp: None,
            current_resolution: parameters.resolution,
            debug_text: Vec::new(),
            debug_text_stale: true,
            debug_font: None,
            fps_counter_value: 0,
            fps_counter_count: 0,
        };
        result.populate_default_bitmaps();
        Ok(result)
    }

    /// Clear every resource added since initialization and repopulate the
    /// default resources; viewports and their cameras are kept.  This must
    /// never fail under normal operation.
    pub fn reset(&mut self)
        requires
            old(self).wf(),
        ensures
            final(self).wf(),
            spec_is_reset_resources(*final(self)),
            final(self).player_viewports == old(self).player_viewports,
            final(self).current_resolution == old(self).current_resolution,
    {
        self.bitmaps.clear();
        self.shaders.clear();
        self.geometries.clear();
        self.skies.clear();
        self.bsps.clear();
        self.fonts.clear();
        self.current_bsp = None;
        self.debug_font = None;
        self.debug_text = Vec::new();
        self.populate_default_bitmaps();
        self.invalidate_debug_text();
    }

    /// Mark the debug overlay for rebuilding.
    pub fn invalidate_debug_text(&mut self)
        ensures
            *final(self) == (Renderer { debug_text_stale: true, ..*old(self) }),
    {
        self.debug_text_stale = true;
    }
}

/// Resetting is idempotent: the resource state after a second reset is the
/// same default-resource state the first reset already established, down
/// to every stored byte.
pub proof fn lemma_reset_idempotent(once: Renderer, twice: Renderer)
    requires
        spec_is_reset_resources(once),
        spec_is_reset_resources(twice),
    ensures
        once.bitmaps@.len() == twice.bitmaps@.len(),
        forall|i: int|
            0 <= i < once.bitmaps@.len() ==> (#[trigger] once.bitmaps@[i]).0
                == twice.bitmaps@[i].0 && once.bitmaps@[i].1.bitmaps@.len()
                == twice.bitmaps@[i].1.bitmaps@.len() && forall|k: int|
                0 <= k < once.bitmaps@[i].1.bitmaps@.len()
                    ==> (#[trigger] once.bitmaps@[i].1.bitmaps@[k]).data@
                    == twice.bitmaps@[i].1.bitmaps@[k].data@
                    && once.bitmaps@[i].1.bitmaps@[k].bitmap_type
                    == twice.bitmaps@[i].1.bitmaps@[k].bitmap_type,
        once.shaders@ == twice.shaders@,
        once.geometries@.len() == twice.geometries@.len(),
        once.skies@ == twice.skies@,
        once.bsps@.len() == twice.bsps@.len(),
        once.fonts@.len() == twice.fonts@.len(),
        once.current_bsp is None && twice.current_bsp is None,
        once.debug_font is None && twice.debug_font is None,
{
    assert(once.shaders@ =~= twice.shaders@);
    assert(once.skies@ =~= twice.skies@);
}

impl Renderer {
    /// Add a bitmap resource under `path`.  Fails without changing any
    /// state when the key is already taken (replacement is unsupported by
    /// design) or the parameters are inconsistent.
    pub fn add_bitmap(&mut self, path: &str, bitmap: AddBitmapParameter) -> (r: MResult<()>)
        requires
            old(self).wf(),
        ensures
            final(self).wf(),
            r is Ok <==> (!spec_contains_key(old(self).bitmaps@, path@) && bitmap.valid()),
            r is Ok ==> final(self).bitmaps@.len() == old(self).bitmaps@.len() + 1
                && final(self).bitmaps@.subrange(0, old(self).bitmaps@.len() as int)
                == old(self).bitmaps@ && final(self).bitmaps@.last().0 == path@
                && final(self).bitmaps@.last().1.bitmaps@ == bitmap.bitmaps@
                && final(self).bitmaps@.last().1.sequences@ == bitmap.sequences@,
            r is Err ==> final(self).bitmaps@ == old(self).bitmaps@,
            r is Err ==> r == if spec_contains_key(old(self).bitmaps@, path@) {
                Err::<(), Error>(Error::DuplicateKey)
            } else {
                Err::<(), Error>(Error::Validation)
            },
            final(self).shaders == old(self).shaders,
            final(self).geometries == old(self).geometries,
            final(self).skies == old(self).skies,
            final(self).bsps == old(self).bsps,
            final(self).fonts == old(self).fonts,
            final(self).player_viewports == old(self).player_viewports,
            final(self).current_bsp == old(self).current_bsp,
            final(self).debug_text_stale == old(self).debug_text_stale,
            final(self).debug_font == old(self).debug_font,
            final(self).current_resolution == old(self).current_resolution,
            final(self).debug_text == old(self).debug_text,
            final(self).default_bitmaps == old(self).default_bitmaps,
            final(self).fps_counter_value == old(self).fps_counter_value,
            final(self).fps_counter_count == old(self).fps_counter_count,
    {
        let bitmap_path: String = path.to_owned();
        if self.bitmaps.contains_key(&bitmap_path) {
            return Err(Error::DuplicateKey);
        }
        if bitmap.validate().is_err() {
            return Err(Error::Validation);
        }
        let loaded = Bitmap::load_from_parameters(bitmap);
        proof {
            assert(self.bitmaps@.push((bitmap_path@, loaded)).subrange(
                0,
                self.bitmaps@.len() as int,
            ) =~= self.bitmaps@);
        }
        self.bitmaps.insert(bitmap_path, loaded);
        Ok(())
    }

    /// Add a shader resource under `path`.  A basic shader only requires
    /// its referenced bitmap to exist; the other variants also check each
    /// input's dimensionality.  Fails without changing any state when the
    /// key is taken or a reference is unsatisfied.
    pub fn add_shader(&mut self, path: &str, shader: AddShaderParameter) -> (r: MResult<()>)
        requires
            old(self).wf(),
        ensures
            final(self).wf(),
            r is Ok <==> (!spec_contains_key(old(self).shaders@, path@) && shader.valid(
                old(self).bitmaps@,
            )),
            r is Ok ==> final(self).shaders@.len() == old(self).shaders@.len() + 1
                && final(self).shaders@.subrange(0, old(self).shaders@.len() as int)
                == old(self).shaders@ && final(self).shaders@.last().0 == path@
                && final(self).shaders@.last().1.material == spec_material_of(shader.data),
            r is Err ==> final(self).shaders@ == old(self).shaders@,
            r is Err ==> r == if spec_contains_key(old(self).shaders@, path@) {
                Err::<(), Error>(Error::DuplicateKey)
            } else {
                Err::<(), Error>(Error::Validation)
            },
            final(self).bitmaps == old(self).bitmaps,
            final(self).geometries == old(self).geometries,
            final(self).skies == old(self).skies,
            final(self).bsps == old(self).bsps,
            final(self).fonts == old(self).fonts,
            final(self).player_viewports == old(self).player_viewports,
            final(self).current_bsp == old(self).current_bsp,
            final(self).debug_text_stale == old(self).debug_text_stale,
            final(self).debug_font == old(self).debug_font,
            final(self).current_resolution == old(self).current_resolution,
            final(self).debug_text == old(self).debug_text,
            final(self).default_bitmaps == old(self).default_bitmaps,
            final(self).fps_counter_value == old(self).fps_counter_value,
            final(self).fps_counter_count == old(self).fps_counter_count,
    {
        let shader_path: String = path.to_owned();
        if self.shaders.contains_key(&shader_path) {
            return Err(Error::DuplicateKey);
        }
        if shader.validate(&self.bitmaps).is_err() {
            return Err(Error::Validation);
        }
        let loaded = Shader::load_from_parameters(shader);
        let ghost old_shaders = self.shaders@;
        proof {
            assert(old_shaders.push((shader_path@, loaded)).subrange(
                0,
                old_shaders.len() as int,
            ) =~= old_shaders);
        }
        self.shaders.insert(shader_path, loaded);
        proof {
            assert forall|i: int| 0 <= i < self.bsps@.len() implies (#[trigger] self.bsps@[i]).1.wf(
                self.shaders@,
            ) by {
                assert(self.bsps@[i].1.wf(old_shaders));
                lemma_bsp_wf_extend(self.bsps@[i].1, old_shaders, self.shaders@);
            }
        }
        Ok(())
    }

    /// Add a model resource under `path`.  Every part must reference a
    /// loaded shader.
    pub fn add_geometry(&mut self, path: &str, geometry: AddGeometryParameter) -> (r: MResult<()>)
        requires
            old(self).wf(),
        ensures
            final(self).wf(),
            r is Ok <==> (!spec_contains_key(old(self).geometries@, path@) && geometry.valid(
                old(self).shaders@,
            )),
            r is Ok ==> final(self).geometries@.len() == old(self).geometries@.len() + 1
                && final(self).geometries@.subrange(0, old(self).geometries@.len() as int)
                == old(self).geometries@ && final(self).geometries@.last().0 == path@,
            r is Err ==> final(self).geometries@ == old(self).geometries@,
            r is Err ==> r == if spec_contains_key(old(self).geometries@, path@) {
                Err::<(), Error>(Error::DuplicateKey)
            } else {
                Err::<(), Error>(Error::Validation)
            },
            final(self).bitmaps == old(self).bitmaps,
            final(self).shaders == old(self).shaders,
            final(self).skies == old(self).skies,
            final(self).bsps == old(self).bsps,
            final(self).fonts == old(self).fonts,
            final(self).player_viewports == old(self).player_viewports,
            final(self).current_bsp == old(self).current_bsp,
            final(self).debug_text_stale == old(self).debug_text_stale,
            final(self).debug_font == old(self).debug_font,
            final(self).current_resolution == old(self).current_resolution,
            final(self).debug_text == old(self).debug_text,
            final(self).default_bitmaps == old(self).default_bitmaps,
            final(self).fps_counter_value == old(self).fps_counter_value,
            final(self).fps_counter_count == old(self).fps_counter_count,
    {
        let geometry_path: String = path.to_owned();
        if self.geometries.contains_key(&geometry_path) {
            return Err(Error::DuplicateKey);
        }
        if geometry.validate(&self.shaders).is_err() {
            return Err(Error::Validation);
        }
        let loaded = Geometry::load_from_parameters(geometry);
        proof {
            assert(self.geometries@.push((geometry_path@, loaded)).subrange(
                0,
                self.geometries@.len() as int,
            ) =~= self.geometries@);
        }
        self.geometries.insert(geometry_path, loaded);
        Ok(())
    }

    /// Add a sky resource under `path`.  Both fog records must satisfy
    /// their invariant and the referenced skybox geometry must be loaded;
    /// a record with `distance_to` of exactly 0 is stored as the default
    /// (non-fogging) record.
    pub fn add_sky(&mut self, path: &str, sky: AddSkyParameter) -> (r: MResult<()>)
        requires
            old(self).wf(),
        ensures
            final(self).wf(),
            r is Ok <==> (!spec_contains_key(old(self).skies@, path@) && sky.valid(
                old(self).geometries@,
            )),
            r is Ok ==> final(self).skies@.len() == old(self).skies@.len() + 1
                && final(self).skies@.subrange(0, old(self).skies@.len() as int)
                == old(self).skies@ && final(self).skies@.last().0 == path@
                && final(self).skies@.last().1.outdoor_fog == spec_normalize_disabled_fog(
                sky.outdoor_fog,
            ) && final(self).skies@.last().1.indoor_fog == spec_normalize_disabled_fog(
                sky.indoor_fog,
            ) && spec_reference_view(final(self).skies@.last().1.geometry)
                == spec_reference_view(sky.geometry),
            r is Err ==> final(self).skies@ == old(self).skies@,
            r is Err ==> r == if spec_contains_key(old(self).skies@, path@) {
                Err::<(), Error>(Error::DuplicateKey)
            } else {
                Err::<(), Error>(Error::Validation)
            },
            final(self).bitmaps == old(self).bitmaps,
            final(self).shaders == old(self).shaders,
            final(self).geometries == old(self).geometries,
            final(self).bsps == old(self).bsps,
            final(self).fonts == old(self).fonts,
            final(self).player_viewports == old(self).player_viewports,
            final(self).current_bsp == old(self).current_bsp,
            final(self).debug_text_stale == old(self).debug_text_stale,
            final(self).debug_font == old(self).debug_font,
            final(self).current_resolution == old(self).current_resolution,
            final(self).debug_text == old(self).debug_text,
            final(self).default_bitmaps == old(self).default_bitmaps,
            final(self).fps_counter_value == old(self).fps_counter_value,
            final(self).fps_counter_count == old(self).fps_counter_count,
    {
        let sky_path: String = path.to_owned();
        if self.skies.contains_key(&sky_path) {
            return Err(Error::DuplicateKey);
        }
        if sky.validate(&self.geometries).is_err() {
            return Err(Error::Validation);
        }
        let outdoor_fog = normalize_disabled_fog(sky.outdoor_fog);
        let indoor_fog = normalize_disabled_fog(sky.indoor_fog);
        let loaded = Sky { geometry: sky.geometry, outdoor_fog, indoor_fog };
        proof {
            assert(self.skies@.push((sky_path@, loaded)).subrange(
                0,
                self.skies@.len() as int,
            ) =~= self.skies@);
        }
        self.skies.insert(sky_path, loaded);
        Ok(())
    }

    /// Add a level resource under `path`: validate every reference, then
    /// flatten, intern and split its geometry as the level invariants
    /// demand.
    pub fn add_bsp(&mut self, path: &str, bsp: AddBSPParameter) -> (r: MResult<()>)
        requires
            old(self).wf(),
        ensures
            final(self).wf(),
            r is Ok <==> (!spec_contains_key(old(self).bsps@, path@) && bsp.valid(
                old(self).shaders@,
                old(self).bitmaps@,
                old(self).skies@,
            )),
            r is Ok ==> final(self).bsps@.len() == old(self).bsps@.len() + 1
                && final(self).bsps@.subrange(0, old(self).bsps@.len() as int)
                == old(self).bsps@ && final(self).bsps@.last().0 == path@
                && final(self).bsps@.last().1.geometries@ == spec_sets_geoms(
                bsp.lightmap_sets@,
                0,
                0,
                0,
                old(self).shaders@,
            ) && final(self).bsps@.last().1.draw_distance == spec_draw_distance(
                spec_sets_positions(bsp.lightmap_sets@),
            ) && final(self).bsps@.last().1.wf(old(self).shaders@),
            r is Err ==> final(self).bsps@ == old(self).bsps@,
            r is Err ==> r == if spec_contains_key(old(self).bsps@, path@) {
                Err::<(), Error>(Error::DuplicateKey)
            } else {
                Err::<(), Error>(Error::Validation)
            },
            final(self).bitmaps == old(self).bitmaps,
            final(self).shaders == old(self).shaders,
            final(self).geometries == old(self).geometries,
            final(self).skies == old(self).skies,
            final(self).fonts == old(self).fonts,
            final(self).player_viewports == old(self).player_viewports,
            final(self).current_bsp == old(self).current_bsp,
            final(self).debug_text_stale == old(self).debug_text_stale,
            final(self).debug_font == old(self).debug_font,
            final(self).current_resolution == old(self).current_resolution,
            final(self).debug_text == old(self).debug_text,
            final(self).default_bitmaps == old(self).default_bitmaps,
            final(self).fps_counter_value == old(self).fps_counter_value,
            final(self).fps_counter_count == old(self).fps_counter_count,
    {
        let bsp_path: String = path.to_owned();
        if self.bsps.contains_key(&bsp_path) {
            return Err(Error::DuplicateKey);
        }
        if bsp.validate(&self.shaders, &self.bitmaps, &self.skies).is_err() {
            return Err(Error::Validation);
        }
        let loaded = BSP::load_from_parameters(bsp, &self.shaders);
        proof {
            assert(self.bsps@.push((bsp_path@, loaded)).subrange(
                0,
                self.bsps@.len() as int,
            ) =~= self.bsps@);
        }
        self.bsps.insert(bsp_path, loaded);
        Ok(())
    }

    /// Add a font resource under `path`.
    pub fn add_font(&mut self, path: &str, font: AddFontParameter) -> (r: MResult<()>)
        requires
            old(self).wf(),
        ensures
            final(self).wf(),
            r is Ok <==> (!spec_contains_key(old(self).fonts@, path@) && font.valid()),
            r is Ok ==> final(self).fonts@.len() == old(self).fonts@.len() + 1
                && final(self).fonts@.subrange(0, old(self).fonts@.len() as int)
                == old(self).fonts@ && final(self).fonts@.last().0 == path@
                && final(self).fonts@.last().1.wf(),
            r is Err ==> final(self).fonts@ == old(self).fonts@,
            r is Err ==> r == if spec_contains_key(old(self).fonts@, path@) {
                Err::<(), Error>(Error::DuplicateKey)
            } else {
                Err::<(), Error>(Error::Validation)
            },
            final(self).bitmaps == old(self).bitmaps,
            final(self).shaders == old(self).shaders,
            final(self).geometries == old(self).geometries,
            final(self).skies == old(self).skies,
            final(self).bsps == old(self).bsps,
            final(self).player_viewports == old(self).player_viewports,
            final(self).current_bsp == old(self).current_bsp,
            final(self).debug_text_stale == old(self).debug_text_stale,
            final(self).debug_font == old(self).debug_font,
            final(self).current_resolution == old(self).current_resolution,
            final(self).debug_text == old(self).debug_text,
            final(self).default_bitmaps == old(self).default_bitmaps,
            final(self).fps_counter_value == old(self).fps_counter_value,
            final(self).fps_counter_count == old(self).fps_counter_count,
    {
        let font_path: String = path.to_owned();
        if self.fonts.contains_key(&font_path) {
            return Err(Error::DuplicateKey);
        }
        if font.validate().is_err() {
            return Err(Error::Validation);
        }
        let loaded = Font::load_from_parameters(font);
        proof {
            assert(self.fonts@.push((font_path@, loaded)).subrange(
                0,
                self.fonts@.len() as int,
            ) =~= self.fonts@);
        }
        self.fonts.insert(font_path, loaded);
        Ok(())
    }

    /// Select the level to draw, or unload the selection.
    pub fn set_current_bsp(&mut self, path: Option<&str>) -> (r: MResult<()>)
        requires
            old(self).wf(),
        ensures
            final(self).wf(),
            match path {
                Option::Some(p) => {
                    &&& (r is Ok <==> spec_contains_key(old(self).bsps@, p@))
                    &&& r is Ok ==> (final(self).current_bsp matches Option::Some(k) && k@
                        == p@)
                    &&& r is Err ==> final(self).current_bsp == old(self).current_bsp && r == Err::<
                        (),
                        Error,
                    >(Error::Validation)
                },
                Option::None => r is Ok && final(self).current_bsp is None,
            },
            final(self).bitmaps == old(self).bitmaps,
            final(self).shaders == old(self).shaders,
            final(self).geometries == old(self).geometries,
            final(self).skies == old(self).skies,
            final(self).bsps == old(self).bsps,
            final(self).fonts == old(self).fonts,
            final(self).player_viewports == old(self).player_viewports,
            final(self).current_resolution == old(self).current_resolution,
            final(self).debug_text == old(self).debug_text,
            final(self).debug_text_stale == old(self).debug_text_stale,
            final(self).debug_font == old(self).debug_font,
            final(self).default_bitmaps == old(self).default_bitmaps,
            final(self).fps_counter_value == old(self).fps_counter_value,
            final(self).fps_counter_count == old(self).fps_counter_count,
    {
        match path {
            Some(p) => {
                let key: String = p.to_owned();
                if !self.bsps.contains_key(&key) {
                    return Err(Error::Validation);
                }
                self.current_bsp = Some(key);
            },
            None => {
                self.current_bsp = None;
            },
        }
        Ok(())
    }

    /// Select the font the debug overlay uses, or disable the overlay.
    pub fn set_debug_font(&mut self, font: Option<&str>) -> (r: MResult<()>)
        requires
            old(self).wf(),
        ensures
            final(self).wf(),
            match font {
                Option::Some(p) => {
                    &&& (r is Ok <==> spec_contains_key(old(self).fonts@, p@))
                    &&& r is Ok ==> (final(self).debug_font matches Option::Some(k) && k@ == p@
                        && final(self).debug_text_stale)
                    &&& r is Err ==> final(self).debug_font == old(self).debug_font && r == Err::<
                        (),
                        Error,
                    >(Error::Validation)
                },
                Option::None => r is Ok && final(self).debug_font is None
                    && final(self).debug_text_stale,
            },
            final(self).bitmaps == old(self).bitmaps,
            final(self).shaders == old(self).shaders,
            final(self).geometries == old(self).geometries,
            final(self).skies == old(self).skies,
            final(self).bsps == old(self).bsps,
            final(self).fonts == old(self).fonts,
            final(self).player_viewports == old(self).player_viewports,
            final(self).current_bsp == old(self).current_bsp,
            final(self).current_resolution == old(self).current_resolution,
            final(self).debug_text == old(self).debug_text,
            final(self).default_bitmaps == old(self).default_bitmaps,
            final(self).fps_counter_value == old(self).fps_counter_value,
            final(self).fps_counter_count == old(self).fps_counter_count,
    {
        match font {
            Some(p) => {
                let key: String = p.to_owned();
                if !self.fonts.contains_key(&key) {
                    return Err(Error::Validation);
                }
                self.debug_font = Some(key);
            },
            None => {
                self.debug_font = None;
            },
        }
        self.invalidate_debug_text();
        Ok(())
    }

    /// Number of player viewports.
    pub fn get_viewport_count(&self) -> (r: usize)
        ensures
            r == self.player_viewports@.len(),
    {
        self.player_viewports.len()
    }

    /// The camera of the given viewport.
    pub fn get_camera_for_viewport(&self, viewport: usize) -> (r: Camera)
        requires
            viewport < self.player_viewports@.len(),
        ensures
            r == self.player_viewports@[viewport as int].camera,
    {
        self.player_viewports[viewport].camera
    }

    /// Validate a new output resolution for a surface rebuild; the backend
    /// performs the rebuild itself.
    pub fn rebuild_swapchain(&mut self, parameters: &RendererParameters) -> (r: MResult<()>)
        requires
            old(self).wf(),
        ensures
            final(self).wf(),
            r is Ok <==> (parameters.resolution.width >= 1 && parameters.resolution.height >= 1),
            r is Ok ==> *final(self) == (Renderer {
                current_resolution: parameters.resolution,
                ..*old(self)
            }),
            r is Err ==> *final(self) == *old(self) && r == Err::<(), Error>(Error::Validation),
    {
        if parameters.resolution.width == 0 || parameters.resolution.height == 0 {
            return Err(Error::Validation);
        }
        self.current_resolution = parameters.resolution;
        Ok(())
    }
}

/// The camera value actually stored: the facing vector is scaled to unit
/// length, and a vector with no direction falls back to the unit y axis.
pub open spec fn spec_stored_camera(c: Camera) -> Camera {
    Camera { rotation: crate::fixed::spec_normalize_direction(c.rotation), ..c }
}

/// How much fog transition one camera displacement contributes: the
/// distance moved, capped at ten world units, as a fraction of ten units.
pub open spec fn spec_transition_gain(a: FixedVec3, b: FixedVec3) -> int {
    let d = spec_isqrt(crate::fixed::spec_distance_squared(a, b));
    (if d > FOG_TRANSITION_CAP as int {
        FOG_TRANSITION_CAP as int
    } else {
        d
    }) * (FRAC_ONE as int) / (FOG_TRANSITION_CAP as int)
}

/// The fog pair a cluster's sky reference resolves to.
pub open spec fn spec_cluster_fogs(
    key: Option<String>,
    skies: Seq<(Seq<char>, Sky)>,
) -> Option<(FogData, FogData)> {
    match key {
        Option::None => Option::None,
        Option::Some(k) => if spec_contains_key(skies, k@) {
            let s = spec_value_of(skies, k@);
            Option::Some((s.outdoor_fog, s.indoor_fog))
        } else {
            Option::None
        },
    }
}

/// The fog state one viewport carries after both per-frame passes.
pub open spec fn spec_fixed_fog(
    vp: PlayerViewport,
    bsp: BSP,
    skies: Seq<(Seq<char>, Sky)>,
) -> Option<ViewportFog> {
    let resolved = match spec_find_cluster(bsp.bsp_data.clusters@, vp.camera.position) {
        Option::None => vp.viewport_fog,
        Option::Some(ci) => crate::viewport::spec_resolve_fog(
            vp.viewport_fog,
            spec_cluster_fogs(bsp.bsp_data.clusters@[ci].sky, skies),
        ),
    };
    match resolved {
        Option::Some(f) => Option::Some(crate::viewport::spec_transition_step(f)),
        Option::None => Option::None,
    }
}

/// The far draw distance one viewport carries after both per-frame passes.
pub open spec fn spec_fixed_far(
    vp: PlayerViewport,
    bsp: BSP,
    skies: Seq<(Seq<char>, Sky)>,
) -> u32 {
    crate::viewport::spec_far_draw_distance(spec_fixed_fog(vp, bsp, skies), bsp.draw_distance)
}

impl Renderer {
    /// Set a viewport's camera.  An out-of-range viewport or a field of
    /// view outside `(0, pi)` is a contract violation, never silently
    /// clamped.  A camera equal to the stored one changes nothing;
    /// otherwise the displacement accumulates pending fog transition,
    /// capped per call at ten world units' worth.
    pub fn set_camera_for_viewport(&mut self, viewport: usize, camera: Camera)
        requires
            old(self).wf(),
            viewport < old(self).player_viewports@.len(),
            spec_fov_valid(camera.fov),
        ensures
            final(self).wf(),
            camera == old(self).player_viewports@[viewport as int].camera ==> *final(self)
                == *old(self),
            camera != old(self).player_viewports@[viewport as int].camera ==> ({
                let prev = old(self).player_viewports@[viewport as int];
                let gained = spec_transition_gain(camera.position, prev.camera.position);
                let updated = PlayerViewport {
                    camera: spec_stored_camera(camera),
                    viewport_fog: match prev.viewport_fog {
                        Option::Some(f) => Option::Some(
                            ViewportFog {
                                transition_amount: if f.transition_amount + gained > FRAC_ONE {
                                    FRAC_ONE as u32
                                } else {
                                    (f.transition_amount + gained) as u32
                                },
                                ..f
                            },
                        ),
                        Option::None => Option::None,
                    },
                    ..prev
                };
                &&& final(self).player_viewports@ == old(self).player_viewports@.update(
                    viewport as int,
                    updated,
                )
                &&& final(self).debug_text_stale == true
                &&& final(self).bitmaps == old(self).bitmaps
                &&& final(self).shaders == old(self).shaders
                &&& final(self).geometries == old(self).geometries
                &&& final(self).bsps == old(self).bsps
                &&& final(self).skies == old(self).skies
                &&& final(self).fonts == old(self).fonts
                &&& final(self).current_bsp == old(self).current_bsp
                &&& final(self).current_resolution == old(self).current_resolution
                &&& final(self).debug_text == old(self).debug_text
                &&& final(self).debug_font == old(self).debug_font
                &&& final(self).default_bitmaps == old(self).default_bitmaps
                &&& final(self).fps_counter_value == old(self).fps_counter_value
                &&& final(self).fps_counter_count == old(self).fps_counter_count
            }),
    {
        let prev = self.player_viewports[viewport];
        if camera == prev.camera {
            return ;
        }
        let d2 = distance_squared(camera.position, prev.camera.position);
        proof {
            crate::fixed::lemma_distance_squared_bounds(camera.position, prev.camera.position);
            crate::fixed::lemma_isqrt_bounds(d2 as int);
        }
        let moved = isqrt(d2);
        let capped: u128 = if moved > FOG_TRANSITION_CAP as u128 {
            FOG_TRANSITION_CAP as u128
        } else {
            moved
        };
        let gained: u32 = (capped * FRAC_ONE as u128 / FOG_TRANSITION_CAP as u128) as u32;
        proof {
            crate::fixed::lemma_mul_bound(
                capped as int,
                FRAC_ONE as int,
                FOG_TRANSITION_CAP as int,
                FRAC_ONE as int,
            );
            vstd::arithmetic::div_mod::lemma_div_is_ordered(
                capped as int * FRAC_ONE as int,
                FOG_TRANSITION_CAP as int * FRAC_ONE as int,
                FOG_TRANSITION_CAP as int,
            );
            vstd::arithmetic::div_mod::lemma_div_by_multiple(
                FRAC_ONE as int,
                FOG_TRANSITION_CAP as int,
            );
            assert(FOG_TRANSITION_CAP as int * FRAC_ONE as int == FRAC_ONE as int
                * FOG_TRANSITION_CAP as int) by (nonlinear_arith);
        }
        let mut vp = prev;
        match prev.viewport_fog {
            Some(f) => {
                let summed = f.transition_amount + gained;
                let amount = if summed > FRAC_ONE {
                    FRAC_ONE
                } else {
                    summed
                };
                vp.viewport_fog = Some(ViewportFog { transition_amount: amount, ..f });
            },
            None => {},
        }
        let rotation = crate::fixed::normalize_direction(camera.rotation);
        vp.camera = Camera {
            position: camera.position,
            rotation,
            fov: camera.fov,
            lightmaps: camera.lightmaps,
            fog: camera.fog,
        };
        self.player_viewports.set(viewport, vp);
        self.invalidate_debug_text();
    }

    /// Run both per-frame fog passes over every viewport: resolve each
    /// camera's cluster and sky, then consume pending transitions, clamp
    /// the displayed fog, and recompute draw distances.  Without a current
    /// level nothing changes.
    pub fn fixup_fog_and_render_distances(&mut self)
        requires
            old(self).wf(),
        ensures
            final(self).wf(),
            final(self).bitmaps == old(self).bitmaps,
            final(self).shaders == old(self).shaders,
            final(self).geometries == old(self).geometries,
            final(self).skies == old(self).skies,
            final(self).bsps == old(self).bsps,
            final(self).fonts == old(self).fonts,
            final(self).current_bsp == old(self).current_bsp,
            final(self).current_resolution == old(self).current_resolution,
            final(self).debug_text == old(self).debug_text,
            final(self).debug_text_stale == old(self).debug_text_stale,
            final(self).debug_font == old(self).debug_font,
            final(self).default_bitmaps == old(self).default_bitmaps,
            final(self).fps_counter_value == old(self).fps_counter_value,
            final(self).fps_counter_count == old(self).fps_counter_count,
            match old(self).current_bsp {
                Option::None => final(self).player_viewports@ == old(self).player_viewports@,
                Option::Some(ref key) => {
                    let bsp = spec_value_of(old(self).bsps@, key@);
                    &&& final(self).player_viewports@.len() == old(self).player_viewports@.len()
                    &&& forall|i: int|
                        0 <= i < old(self).player_viewports@.len() ==> {
                            let prev = old(self).player_viewports@[i];
                            let now = #[trigger] final(self).player_viewports@[i];
                            &&& now.viewport_fog == spec_fixed_fog(prev, bsp, old(self).skies@)
                            &&& now.draw_distance@ == seq![
                                crate::fixed::DRAW_DISTANCE_MINIMUM,
                                spec_fixed_far(prev, bsp, old(self).skies@),
                            ]
                            &&& now.camera == prev.camera
                            &&& now.rel_x == prev.rel_x
                            &&& now.rel_y == prev.rel_y
                            &&& now.rel_width == prev.rel_width
                            &&& now.rel_height == prev.rel_height
                        }
                },
            },
    {
        let key = match &self.current_bsp {
            Some(k) => k.clone(),
            None => {
                return ;
            },
        };
        let ghost vps0 = self.player_viewports@;
        let n = self.player_viewports.len();
        let mut resolves: Vec<Option<Option<(FogData, FogData)>>> = Vec::new();
        let draw_distance: u32;
        {
            let bsp = match self.bsps.get(&key) {
                Some(b) => b,
                None => {
                    proof {
                        assert(false);
                    }
                    return ;
                },
            };
            draw_distance = bsp.draw_distance;
            let mut i: usize = 0;
            while i < n
                invariant
                    n == self.player_viewports@.len(),
                    i <= n,
                    *bsp == spec_value_of(self.bsps@, key@),
                    self.skies.wf(),
                    resolves@.len() == i,
                    forall|j: int|
                        0 <= j < i ==> #[trigger] resolves@[j] == match spec_find_cluster(
                            bsp.bsp_data.clusters@,
                            self.player_viewports@[j].camera.position,
                        ) {
                            Option::None => Option::<Option<(FogData, FogData)>>::None,
                            Option::Some(ci) => Option::Some(
                                spec_cluster_fogs(
                                    bsp.bsp_data.clusters@[ci].sky,
                                    self.skies@,
                                ),
                            ),
                        },
                decreases n - i,
            {
                let position = self.player_viewports[i].camera.position;
                let entry: Option<Option<(FogData, FogData)>> = match bsp.bsp_data.find_cluster(
                    position,
                ) {
                    Some(ci) => {
                        let fogs: Option<(FogData, FogData)> = match &bsp.bsp_data.clusters[
                            ci
                        ].sky {
                            Some(sk) => match self.skies.get(sk) {
                                Some(s) => Some((s.outdoor_fog, s.indoor_fog)),
                                None => None,
                            },
                            None => None,
                        };
                        Some(fogs)
                    },
                    None => None,
                };
                resolves.push(entry);
                i = i + 1;
            }
        }
        let ghost bsp_spec = spec_value_of(self.bsps@, key@);
        let mut i: usize = 0;
        while i < n
            invariant
                n == self.player_viewports@.len(),
                n == vps0.len(),
                i <= n,
                resolves@.len() == n,
                bsp_spec.draw_distance == draw_distance,
                self.bitmaps == old(self).bitmaps,
                self.shaders == old(self).shaders,
                self.geometries == old(self).geometries,
                self.skies == old(self).skies,
                self.bsps == old(self).bsps,
                self.fonts == old(self).fonts,
                self.current_bsp == old(self).current_bsp,
                self.current_resolution == old(self).current_resolution,
                self.debug_text == old(self).debug_text,
                self.debug_text_stale == old(self).debug_text_stale,
                self.debug_font == old(self).debug_font,
                self.default_bitmaps == old(self).default_bitmaps,
                self.fps_counter_value == old(self).fps_counter_value,
                self.fps_counter_count == old(self).fps_counter_count,
                old(self).wf(),
                vps0 == old(self).player_viewports@,
                bsp_spec == spec_value_of(old(self).bsps@, key@),
                spec_contains_key(old(self).bsps@, key@),
                forall|j: int|
                    0 <= j < n ==> #[trigger] resolves@[j] == match spec_find_cluster(
                        bsp_spec.bsp_data.clusters@,
                        vps0[j].camera.position,
                    ) {
                        Option::None => Option::<Option<(FogData, FogData)>>::None,
                        Option::Some(ci) => Option::Some(
                            spec_cluster_fogs(bsp_spec.bsp_data.clusters@[ci].sky, self.skies@),
                        ),
                    },
                forall|j: int|
                    i <= j < n ==> #[trigger] self.player_viewports@[j] == vps0[j],
                forall|j: int| 0 <= j < n ==> (#[trigger] vps0[j]).wf(),
                forall|j: int|
                    0 <= j < i ==> {
                        let prev = vps0[j];
                        let now = #[trigger] self.player_viewports@[j];
                        &&& now.viewport_fog == spec_fixed_fog(prev, bsp_spec, self.skies@)
                        &&& now.draw_distance@ == seq![
                            crate::fixed::DRAW_DISTANCE_MINIMUM,
                            spec_fixed_far(prev, bsp_spec, self.skies@),
                        ]
                        &&& now.camera == prev.camera
                        &&& now.rel_x == prev.rel_x
                        &&& now.rel_y == prev.rel_y
                        &&& now.rel_width == prev.rel_width
                        &&& now.rel_height == prev.rel_height
                        &&& now.wf()
                    },
            decreases n - i,
        {
            let mut vp = self.player_viewports[i];
            match resolves[i] {
                Some(fogs) => {
                    vp.resolve_fog(fogs);
                },
                None => {},
            }
            vp.update_fog_and_draw_distances(draw_distance);
            self.player_viewports.set(i, vp);
            i = i + 1;
        }
    }
}

/// The fog record a viewport's draws read: its displayed fog when the
/// camera applies fog and a sky has been resolved, otherwise the default
/// (non-fogging) record.
pub open spec fn spec_viewport_fog_uniform(vp: PlayerViewport) -> FogData {
    match vp.viewport_fog {
        Option::Some(f) if vp.camera.fog => f.current_fog_data,
        _ => crate::sky::spec_default_fog(),
    }
}

/// The color the sky background box is filled with: the viewport's
/// displayed fog color at full alpha when fog applies, otherwise opaque
/// black.
pub open spec fn spec_sky_color(vp: PlayerViewport) -> crate::color::ColorRgba {
    match vp.viewport_fog {
        Option::Some(f) if vp.camera.fog => crate::color::ColorRgba {
            r: f.current_fog_data.color.r,
            g: f.current_fog_data.color.g,
            b: f.current_fog_data.color.b,
            a: FRAC_ONE as u32,
        },
        _ => crate::color::ColorRgba { r: 0, g: 0, b: 0, a: FRAC_ONE as u32 },
    }
}

/// The command stream of one viewport: its global uniform state bound
/// once, the sky background box, the opaque walk in stored shader-grouped
/// order, then the transparent walk in the given farthest-first order,
/// reusing the shader left bound by the opaque walk and skipping the
/// unsupported water family.
pub open spec fn spec_viewport_stream(
    bsp: BSP,
    shaders: Seq<(Seq<char>, Shader)>,
    vp: PlayerViewport,
    order: Seq<usize>,
) -> Seq<crate::draw::DrawCommand> {
    seq![
        crate::draw::DrawCommand::BindViewportUniforms {
            fog: spec_viewport_fog_uniform(vp),
        },
        crate::draw::DrawCommand::ColorBox {
            x: 0u32,
            y: 0u32,
            width: FRAC_ONE as u32,
            height: FRAC_ONE as u32,
            color: spec_sky_color(vp),
        },
    ] + crate::draw::spec_walk_commands(
        bsp.geometries@,
        shaders,
        bsp.opaque_geometries@,
        Option::None,
        vp.camera.lightmaps,
        false,
    ) + crate::draw::spec_walk_commands(
        bsp.geometries@,
        shaders,
        order,
        crate::draw::spec_walk_last(
            bsp.geometries@,
            shaders,
            bsp.opaque_geometries@,
            Option::None,
            false,
        ),
        vp.camera.lightmaps,
        true,
    )
}

/// Whether `stream` is a valid submission stream for this viewport: its
/// transparent section draws some stable farthest-first reordering of the
/// level's transparent list.
pub open spec fn spec_viewport_stream_ok(
    bsp: BSP,
    shaders: Seq<(Seq<char>, Shader)>,
    vp: PlayerViewport,
    stream: Seq<crate::draw::DrawCommand>,
) -> bool {
    exists|order: Seq<usize>|
        #[trigger] crate::draw::spec_transparent_order_ok(
            bsp.geometries@,
            bsp.transparent_geometries@,
            vp.camera.position,
            order,
        ) && stream == spec_viewport_stream(bsp, shaders, vp, order)
}

/// Generate one viewport's submission stream.
fn generate_viewport_commands(
    bsp: &BSP,
    shaders: &KeyMap<Shader>,
    vp: &PlayerViewport,
) -> (r: Vec<crate::draw::DrawCommand>)
    requires
        shaders.wf(),
        bsp.wf(shaders@),
    ensures
        spec_viewport_stream_ok(*bsp, shaders@, *vp, r@),
{
    let (fog_uniform, sky_color) = match vp.viewport_fog {
        Some(f) => {
            if vp.camera.fog {
                (
                    f.current_fog_data,
                    crate::color::ColorRgba {
                        r: f.current_fog_data.color.r,
                        g: f.current_fog_data.color.g,
                        b: f.current_fog_data.color.b,
                        a: FRAC_ONE,
                    },
                )
            } else {
                (FogData::default(), crate::color::ColorRgba { r: 0, g: 0, b: 0, a: FRAC_ONE })
            }
        },
        None => (
            FogData::default(),
            crate::color::ColorRgba { r: 0, g: 0, b: 0, a: FRAC_ONE },
        ),
    };
    let mut out: Vec<crate::draw::DrawCommand> = Vec::new();
    out.push(crate::draw::DrawCommand::BindViewportUniforms { fog: fog_uniform });
    out.push(
        crate::draw::DrawCommand::ColorBox {
            x: 0,
            y: 0,
            width: FRAC_ONE,
            height: FRAC_ONE,
            color: sky_color,
        },
    );
    let last = crate::draw::walk_draw_list(
        &bsp.geometries,
        shaders,
        &bsp.opaque_geometries,
        None,
        vp.camera.lightmaps,
        false,
        &mut out,
    );
    let order = crate::draw::sort_transparent(bsp, vp.camera.position);
    proof {
        assert forall|i: int| 0 <= i < order@.len() implies (#[trigger] order@[i])
            < bsp.geometries@.len() by {
            assert(bsp.transparent_geometries@.contains(order@[i]));
            let w = choose|w: int|
                0 <= w < bsp.transparent_geometries@.len() && bsp.transparent_geometries@[w]
                    == order@[i];
        }
    }
    let ghost order_view = order@;
    crate::draw::walk_draw_list(
        &bsp.geometries,
        shaders,
        &order,
        last,
        vp.camera.lightmaps,
        true,
        &mut out,
    );
    proof {
        assert(out@ =~= spec_viewport_stream(*bsp, shaders@, *vp, order_view));
        assert(crate::draw::spec_transparent_order_ok(
            bsp.geometries@,
            bsp.transparent_geometries@,
            vp.camera.position,
            order_view,
        ) && out@ == spec_viewport_stream(*bsp, shaders@, *vp, order_view));
    }
    out
}

/// The split-screen divider bars for `count` viewports on a surface of the
/// given resolution: black boxes two scaled pixels thick, a horizontal one
/// from two viewports up, plus a vertical one over the bottom half for
/// three and full height for four.
pub open spec fn spec_split_screen_bars(count: int, res: Resolution) -> Seq<
    crate::draw::DrawCommand,
> {
    if count <= 1 {
        Seq::empty()
    } else {
        let scale = spec_bar_scale(res);
        let th = spec_bar_thickness(scale, res.height as int);
        let tv = spec_bar_thickness(scale, res.width as int);
        let black = crate::color::ColorRgba { r: 0, g: 0, b: 0, a: FRAC_ONE as u32 };
        seq![
            crate::draw::DrawCommand::ColorBox {
                x: 0u32,
                y: (crate::fixed::FRAC_HALF as int - th / 2) as u32,
                width: FRAC_ONE as u32,
                height: th as u32,
                color: black,
            },
        ] + if count > 2 {
            seq![
                crate::draw::DrawCommand::ColorBox {
                    x: (crate::fixed::FRAC_HALF as int - tv / 2) as u32,
                    y: if count == 3 {
                        crate::fixed::FRAC_HALF as u32
                    } else {
                        0u32
                    },
                    width: tv as u32,
                    height: if count == 3 {
                        crate::fixed::FRAC_HALF as u32
                    } else {
                        FRAC_ONE as u32
                    },
                    color: black,
                },
            ]
        } else {
            Seq::empty()
        }
    }
}

/// The bar scale: how much larger than the 640x480 baseline the surface
/// is, floored at one.
pub open spec fn spec_bar_scale(res: Resolution) -> int {
    let sw = res.width * (FRAC_ONE as int) / 640;
    let sh = res.height * (FRAC_ONE as int) / 480;
    let s = if sw < sh {
        sw
    } else {
        sh
    };
    if s < FRAC_ONE as int {
        FRAC_ONE as int
    } else {
        s
    }
}

/// A bar's normalized thickness: two scaled pixels over the given surface
/// dimension, capped at the full surface.
pub open spec fn spec_bar_thickness(scale: int, dimension: int) -> int {
    let t = 2 * scale / dimension;
    if t > FRAC_ONE as int {
        FRAC_ONE as int
    } else {
        t
    }
}

/// One frame's draw output: a command stream per viewport, then the
/// split-screen bars drawn over the whole surface.
pub struct FrameDraw {
    pub viewport_commands: Vec<Vec<crate::draw::DrawCommand>>,
    pub split_screen_bars: Vec<crate::draw::DrawCommand>,
}

impl Renderer {
    /// Draw one frame: run both fog passes, then emit each viewport's
    /// submission stream in index order, followed by the split-screen
    /// bars.  Without a current level each viewport's stream is empty.
    pub fn draw_frame(&mut self) -> (r: FrameDraw)
        requires
            old(self).wf(),
        ensures
            final(self).wf(),
            final(self).bitmaps == old(self).bitmaps,
            final(self).shaders == old(self).shaders,
            final(self).geometries == old(self).geometries,
            final(self).bsps == old(self).bsps,
            final(self).skies == old(self).skies,
            final(self).fonts == old(self).fonts,
            final(self).current_bsp == old(self).current_bsp,
            final(self).current_resolution == old(self).current_resolution,
            final(self).debug_text == old(self).debug_text,
            final(self).debug_text_stale == old(self).debug_text_stale,
            final(self).debug_font == old(self).debug_font,
            final(self).default_bitmaps == old(self).default_bitmaps,
            final(self).fps_counter_value == old(self).fps_counter_value,
            final(self).fps_counter_count == old(self).fps_counter_count,
            r.viewport_commands@.len() == final(self).player_viewports@.len(),
            match old(self).current_bsp {
                Option::None => final(self).player_viewports@ == old(self).player_viewports@
                    && forall|i: int|
                    0 <= i < r.viewport_commands@.len() ==> (
                    #[trigger] r.viewport_commands@[i])@.len() == 0,
                Option::Some(ref key) => {
                    let bsp = spec_value_of(old(self).bsps@, key@);
                    &&& forall|i: int|
                        0 <= i < old(self).player_viewports@.len() ==> {
                            let prev = old(self).player_viewports@[i];
                            let now = #[trigger] final(self).player_viewports@[i];
                            now.viewport_fog == spec_fixed_fog(prev, bsp, old(self).skies@)
                                && now.camera == prev.camera
                        }
                    &&& forall|i: int|
                        0 <= i < r.viewport_commands@.len() ==> spec_viewport_stream_ok(
                            bsp,
                            old(self).shaders@,
                            final(self).player_viewports@[i],
                            (#[trigger] r.viewport_commands@[i])@,
                        )
                },
            },
            r.split_screen_bars@ == spec_split_screen_bars(
                final(self).player_viewports@.len() as int,
                final(self).current_resolution,
            ),
    {
        self.fixup_fog_and_render_distances();
        let n = self.player_viewports.len();
        let mut viewport_commands: Vec<Vec<crate::draw::DrawCommand>> = Vec::new();
        match &self.current_bsp {
            Some(key) => {
                let bsp = match self.bsps.get(key) {
                    Some(b) => b,
                    None => {
                        proof {
                            assert(false);
                        }
                        return FrameDraw {
                            viewport_commands: Vec::new(),
                            split_screen_bars: Vec::new(),
                        };
                    },
                };
                let mut i: usize = 0;
                while i < n
                    invariant
                        n == self.player_viewports@.len(),
                        i <= n,
                        self.shaders.wf(),
                        bsp.wf(self.shaders@),
                        viewport_commands@.len() == i,
                        forall|j: int|
                            0 <= j < i ==> spec_viewport_stream_ok(
                                *bsp,
                                self.shaders@,
                                self.player_viewports@[j],
                                (#[trigger] viewport_commands@[j])@,
                            ),
                    decreases n - i,
                {
                    let stream = generate_viewport_commands(
                        bsp,
                        &self.shaders,
                        &self.player_viewports[i],
                    );
                    viewport_commands.push(stream);
                    i = i + 1;
                }
            },
            None => {
                let mut i: usize = 0;
                while i < n
                    invariant
                        i <= n,
                        viewport_commands@.len() == i,
                        forall|j: int|
                            0 <= j < i ==> (#[trigger] viewport_commands@[j])@.len() == 0,
                    decreases n - i,
                {
                    viewport_commands.push(Vec::new());
                    i = i + 1;
                }
            },
        }
        let split_screen_bars = self.generate_split_screen_bars();
        FrameDraw { viewport_commands, split_screen_bars }
    }

    /// Emit the split-screen divider bars for the current layout.
    fn generate_split_screen_bars(&self) -> (r: Vec<crate::draw::DrawCommand>)
        requires
            self.wf(),
        ensures
            r@ == spec_split_screen_bars(
                self.player_viewports@.len() as int,
                self.current_resolution,
            ),
    {
        let count = self.player_viewports.len();
        let mut out: Vec<crate::draw::DrawCommand> = Vec::new();
        if count <= 1 {
            proof {
                assert(out@ =~= spec_split_screen_bars(
                    self.player_viewports@.len() as int,
                    self.current_resolution,
                ));
            }
            return out;
        }
        let w = self.current_resolution.width;
        let h = self.current_resolution.height;
        proof {
            crate::fixed::lemma_mul_bound(w as int, FRAC_ONE as int, 0xffff_ffff, FRAC_ONE as int);
            crate::fixed::lemma_mul_bound(h as int, FRAC_ONE as int, 0xffff_ffff, FRAC_ONE as int);
        }
        let sw: u64 = w as u64 * FRAC_ONE as u64 / 640;
        let sh: u64 = h as u64 * FRAC_ONE as u64 / 480;
        let smin: u64 = if sw < sh {
            sw
        } else {
            sh
        };
        let scale: u64 = if smin < FRAC_ONE as u64 {
            FRAC_ONE as u64
        } else {
            smin
        };
        let th_raw: u64 = 2 * scale / (h as u64);
        let th: u64 = if th_raw > FRAC_ONE as u64 {
            FRAC_ONE as u64
        } else {
            th_raw
        };
        let tv_raw: u64 = 2 * scale / (w as u64);
        let tv: u64 = if tv_raw > FRAC_ONE as u64 {
            FRAC_ONE as u64
        } else {
            tv_raw
        };
        let black = crate::color::ColorRgba { r: 0, g: 0, b: 0, a: FRAC_ONE };
        out.push(
            crate::draw::DrawCommand::ColorBox {
                x: 0,
                y: crate::fixed::FRAC_HALF - (th as u32) / 2,
                width: FRAC_ONE,
                height: th as u32,
                color: black,
            },
        );
        if count > 2 {
            out.push(
                crate::draw::DrawCommand::ColorBox {
                    x: crate::fixed::FRAC_HALF - (tv as u32) / 2,
                    y: if count == 3 {
                        crate::fixed::FRAC_HALF
                    } else {
                        0
                    },
                    width: tv as u32,
                    height: if count == 3 {
                        crate::fixed::FRAC_HALF
                    } else {
                        FRAC_ONE
                    },
                    color: black,
                },
            );
        }
        proof {
            assert(out@ =~= spec_split_screen_bars(
                self.player_viewports@.len() as int,
                self.current_resolution,
            ));
        }
        out
    }

    /// Record one drawn frame; when at least a second of the backend's
    /// time has passed, roll the counter over into a new frame-rate value.
    /// Returns whether the value rolled over.
    pub fn update_frame_rate_counter(&mut self, microseconds_since: u64) -> (rolled: bool)
        ensures
            rolled == (microseconds_since >= 1000000),
            !rolled ==> *final(self) == (Renderer {
                fps_counter_count: if old(self).fps_counter_count == u32::MAX {
                    u32::MAX as u32
                } else {
                    (old(self).fps_counter_count + 1) as u32
                },
                ..*old(self)
            }),
            rolled ==> final(self).fps_counter_count == 0 && final(self).fps_counter_value
                == spec_fps_value(
                if old(self).fps_counter_count == u32::MAX {
                    u32::MAX as int
                } else {
                    old(self).fps_counter_count + 1
                },
                microseconds_since as int,
            ),
    {
        let count = if self.fps_counter_count == u32::MAX {
            u32::MAX
        } else {
            self.fps_counter_count + 1
        };
        self.fps_counter_count = count;
        if microseconds_since >= 1000000 {
            proof {
                crate::fixed::lemma_mul_bound(count as int, 1000000, 0xffff_ffff, 1000000);
                crate::fixed::lemma_mul_bound(
                    count as int * 1000000,
                    FRAC_ONE as int,
                    0xffff_ffff_int * 1000000,
                    FRAC_ONE as int,
                );
            }
            let value: u128 = count as u128 * 1000000u128 * FRAC_ONE as u128
                / microseconds_since as u128;
            self.fps_counter_value = if value > u32::MAX as u128 {
                u32::MAX
            } else {
                value as u32
            };
            self.fps_counter_count = 0;
            true
        } else {
            false
        }
    }
}

/// Position of a fallback kind within a default bitmap resource.
pub open spec fn spec_default_index(t: DefaultType) -> int {
    match t {
        DefaultType::Null => 0,
        DefaultType::White => 1,
        DefaultType::Gray => 2,
        DefaultType::Vector => 3,
    }
}

/// Position of a fallback kind within a default bitmap resource.
fn default_index(t: DefaultType) -> (r: usize)
    ensures
        r == spec_default_index(t),
{
    match t {
        DefaultType::Null => 0,
        DefaultType::White => 1,
        DefaultType::Gray => 2,
        DefaultType::Vector => 3,
    }
}

impl Renderer {
    /// The canonical flat fallback image of the given kind.  The facade's
    /// invariant guarantees the default resources are present, so this
    /// never fails.
    pub fn get_default_2d(&self, default_type: DefaultType) -> (r: &BitmapBitmap)
        requires
            self.wf(),
        ensures
            *r == spec_value_of(
                self.bitmaps@,
                self.default_bitmaps.default_2d@,
            ).bitmaps@[spec_default_index(default_type)],
            spec_is_default_image(*r, default_type, BitmapType::Dim2D),
    {
        let bitmap = match self.bitmaps.get(&self.default_bitmaps.default_2d) {
            Some(b) => b,
            None => {
                return vstd::pervasive::unreached();
            },
        };
        let idx = default_index(default_type);
        &bitmap.bitmaps[idx]
    }

    /// The canonical cube-map fallback image of the given kind; never
    /// fails, by the facade's invariant.
    pub fn get_default_cubemap(&self, default_type: DefaultType) -> (r: &BitmapBitmap)
        requires
            self.wf(),
        ensures
            *r == spec_value_of(
                self.bitmaps@,
                self.default_bitmaps.default_cubemap@,
            ).bitmaps@[spec_default_index(default_type)],
            spec_is_default_image(*r, default_type, BitmapType::Cubemap),
    {
        let bitmap = match self.bitmaps.get(&self.default_bitmaps.default_cubemap) {
            Some(b) => b,
            None => {
                return vstd::pervasive::unreached();
            },
        };
        let idx = default_index(default_type);
        &bitmap.bitmaps[idx]
    }

    /// Resolve an optional bitmap reference to a flat image, falling back
    /// to the canonical default of the given kind.  Succeeds exactly when
    /// the reference is absent or names a loaded bitmap with the image
    /// index in range; a dangling reference is an internal invariant
    /// violation, since references were validated when the resource was
    /// added.
    pub fn get_or_default_2d(
        &self,
        bitmap: &Option<String>,
        bitmap_index: usize,
        default_type: DefaultType,
    ) -> (r: MResult<&BitmapBitmap>)
        requires
            self.wf(),
        ensures
            r is Ok <==> match bitmap {
                Option::Some(n) => spec_contains_key(self.bitmaps@, n@) && bitmap_index
                    < spec_value_of(self.bitmaps@, n@).bitmaps@.len(),
                Option::None => true,
            },
            match r {
                Ok(b) => match bitmap {
                    Option::Some(n) => *b == spec_value_of(
                        self.bitmaps@,
                        n@,
                    ).bitmaps@[bitmap_index as int],
                    Option::None => *b == spec_value_of(
                        self.bitmaps@,
                        self.default_bitmaps.default_2d@,
                    ).bitmaps@[spec_default_index(default_type)],
                },
                Err(e) => e == Error::InvariantViolation,
            },
    {
        match bitmap {
            Some(n) => {
                let loaded = match self.bitmaps.get(n) {
                    Some(b) => b,
                    None => {
                        return Err(Error::InvariantViolation);
                    },
                };
                if bitmap_index >= loaded.bitmaps.len() {
                    return Err(Error::InvariantViolation);
                }
                Ok(&loaded.bitmaps[bitmap_index])
            },
            None => Ok(self.get_default_2d(default_type)),
        }
    }

    /// Resolve an optional bitmap reference to a volumetric image, falling
    /// back to the canonical default of the given kind.  Succeeds exactly
    /// when the reference is absent or names a loaded bitmap with the
    /// image index in range.
    pub fn get_or_default_3d(
        &self,
        bitmap: &Option<String>,
        bitmap_index: usize,
        default_type: DefaultType,
    ) -> (r: MResult<&BitmapBitmap>)
        requires
            self.wf(),
        ensures
            r is Ok <==> match bitmap {
                Option::Some(n) => spec_contains_key(self.bitmaps@, n@) && bitmap_index
                    < spec_value_of(self.bitmaps@, n@).bitmaps@.len(),
                Option::None => true,
            },
            match r {
                Ok(b) => match bitmap {
                    Option::Some(n) => *b == spec_value_of(
                        self.bitmaps@,
                        n@,
                    ).bitmaps@[bitmap_index as int],
                    Option::None => *b == spec_value_of(
                        self.bitmaps@,
                        self.default_bitmaps.default_3d@,
                    ).bitmaps@[spec_default_index(default_type)],
                },
                Err(e) => e == Error::InvariantViolation,
            },
    {
        match bitmap {
            Some(n) => {
                let loaded = match self.bitmaps.get(n) {
                    Some(b) => b,
                    None => {
                        return Err(Error::InvariantViolation);
                    },
                };
                if bitmap_index >= loaded.bitmaps.len() {
                    return Err(Error::InvariantViolation);
                }
                Ok(&loaded.bitmaps[bitmap_index])
            },
            None => {
                let bitmap = match self.bitmaps.get(&self.default_bitmaps.default_3d) {
                    Some(b) => b,
                    None => {
                        return vstd::pervasive::unreached();
                    },
                };
                let idx = default_index(default_type);
                Ok(&bitmap.bitmaps[idx])
            },
        }
    }

    /// Resolve an optional bitmap reference to a cube-map image, falling
    /// back to the canonical default of the given kind.  Succeeds exactly
    /// when the reference is absent or names a loaded bitmap with the
    /// image index in range.
    pub fn get_or_default_cubemap(
        &self,
        bitmap: &Option<String>,
        bitmap_index: usize,
        default_type: DefaultType,
    ) -> (r: MResult<&BitmapBitmap>)
        requires
            self.wf(),
        ensures
            r is Ok <==> match bitmap {
                Option::Some(n) => spec_contains_key(self.bitmaps@, n@) && bitmap_index
                    < spec_value_of(self.bitmaps@, n@).bitmaps@.len(),
                Option::None => true,
            },
            match r {
                Ok(b) => match bitmap {
                    Option::Some(n) => *b == spec_value_of(
                        self.bitmaps@,
                        n@,
                    ).bitmaps@[bitmap_index as int],
                    Option::None => *b == spec_value_of(
                        self.bitmaps@,
                        self.default_bitmaps.default_cubemap@,
                    ).bitmaps@[spec_default_index(default_type)],
                },
                Err(e) => e == Error::InvariantViolation,
            },
    {
        match bitmap {
            Some(n) => {
                let loaded = match self.bitmaps.get(n) {
                    Some(b) => b,
                    None => {
                        return Err(Error::InvariantViolation);
                    },
                };
                if bitmap_index >= loaded.bitmaps.len() {
                    return Err(Error::InvariantViolation);
                }
                Ok(&loaded.bitmaps[bitmap_index])
            },
            None => Ok(self.get_default_cubemap(default_type)),
        }
    }

    /// Rebuild the debug overlay from the given text: lay it out with the
    /// selected debug font, rasterize it at the baseline resolution, and
    /// keep the bitmap, discarding the oldest once 64 are held.  Without a
    /// selected font nothing changes.  Succeeds exactly when no font is
    /// selected, or the text fits the engine's length bound and the color
    /// is valid; the stored bitmap is then exactly the rasterization of
    /// the laid-out text.
    pub fn draw_debug_text(&mut self, text: &str, color: crate::color::ColorRgba) -> (r: MResult<
        (),
    >)
        requires
            old(self).wf(),
        ensures
            final(self).wf(),
            final(self).bitmaps == old(self).bitmaps,
            final(self).shaders == old(self).shaders,
            final(self).geometries == old(self).geometries,
            final(self).skies == old(self).skies,
            final(self).bsps == old(self).bsps,
            final(self).fonts == old(self).fonts,
            final(self).player_viewports == old(self).player_viewports,
            final(self).current_bsp == old(self).current_bsp,
            final(self).current_resolution == old(self).current_resolution,
            final(self).debug_font == old(self).debug_font,
            final(self).default_bitmaps == old(self).default_bitmaps,
            final(self).fps_counter_value == old(self).fps_counter_value,
            final(self).fps_counter_count == old(self).fps_counter_count,
            r is Ok <==> (old(self).debug_font is None || (text@.len()
                <= crate::font::MAX_TEXT_LENGTH && color.valid())),
            r is Err ==> *final(self) == *old(self) && r == Err::<(), Error>(Error::Validation),
            old(self).debug_font is None ==> *final(self) == *old(self),
            r is Ok && old(self).debug_font is Some ==> ({
                let font = spec_value_of(old(self).fonts@, old(self).debug_font->0@);
                let laid = crate::font::spec_layout(
                    font.characters@,
                    font.colors.codes@,
                    font.line_height,
                    crate::font::TextAlignment::Left,
                    color,
                    640,
                    Seq::new(8, |k: int| 0i32),
                    text@,
                );
                let pixels = crate::font::spec_draw_run(
                    font.characters@,
                    laid,
                    640,
                    480,
                    laid.len() as int,
                );
                let stored = final(self).debug_text@.last();
                &&& final(self).debug_text_stale == false
                &&& final(self).debug_text@.len() == if old(self).debug_text@.len() >= 64 {
                    old(self).debug_text@.len() as int
                } else {
                    old(self).debug_text@.len() as int + 1
                }
                &&& (old(self).debug_text@.len() < 64 ==> final(self).debug_text@.subrange(
                    0,
                    old(self).debug_text@.len() as int,
                ) == old(self).debug_text@)
                &&& stored.bitmaps@.len() == 1
                &&& stored.bitmaps@[0].format == BitmapFormat::A8B8G8R8
                &&& stored.bitmaps@[0].bitmap_type == BitmapType::Dim2D
                &&& stored.bitmaps@[0].resolution == (Resolution { width: 640, height: 480 })
                &&& stored.bitmaps@[0].data@.len() == 640 * 480 * 4
                &&& forall|i: int|
                    0 <= i < 640 * 480 ==> stored.bitmaps@[0].data@[4 * i] == (
                    #[trigger] pixels[i]).r && stored.bitmaps@[0].data@[4 * i + 1] == pixels[i].g
                        && stored.bitmaps@[0].data@[4 * i + 2] == pixels[i].b
                        && stored.bitmaps@[0].data@[4 * i + 3] == pixels[i].a
            }),
    {
        let font_key = match &self.debug_font {
            Some(k) => k.clone(),
            None => {
                return Ok(());
            },
        };
        if text.unicode_len() > crate::font::MAX_TEXT_LENGTH {
            return Err(Error::Validation);
        }
        if !(color.r <= FRAC_ONE && color.g <= FRAC_ONE && color.b <= FRAC_ONE && color.a
            <= FRAC_ONE) {
            return Err(Error::Validation);
        }
        let font = match self.fonts.get(&font_key) {
            Some(f) => f,
            None => {
                proof {
                    assert(false);
                }
                return Err(Error::Validation);
            },
        };
        let request = crate::font::FontDrawRequest {
            alignment: crate::font::TextAlignment::Left,
            color,
            resolution: Resolution { width: 640, height: 480 },
            tab_offsets: [0, 0, 0, 0, 0, 0, 0, 0],
        };
        proof {
            assert(forall|k: int|
                0 <= k < 8 ==> -0x0100_0000 <= #[trigger] request.tab_offsets@[k]
                    <= 0x0100_0000);
            assert(request.tab_offsets@ =~= Seq::new(8, |k: int| 0i32));
        }
        let mut laid_out: Vec<crate::font::DrawableCharacter> = Vec::new();
        font.generate_string_draws(text, request, &mut laid_out);
        let parameter = font.draw_string_buffer_to_bitmap(&laid_out, request);
        let loaded = Bitmap::load_from_parameters(parameter);
        let ghost old_text = self.debug_text@;
        if self.debug_text.len() >= 64 {
            self.debug_text.remove(0);
        }
        self.debug_text.push(loaded);
        self.debug_text_stale = false;
        proof {
            if old_text.len() < 64 {
                assert(self.debug_text@.subrange(0, old_text.len() as int) =~= old_text);
            }
        }
        Ok(())
    }
}

/// The frame rate `frames` frames over `micros` microseconds measure, as
/// a fixed-point fraction, saturating at the largest representable value.
pub open spec fn spec_fps_value(frames: int, micros: int) -> u32 {
    let v = frames * 1000000 * (FRAC_ONE as int) / micros;
    if v > u32::MAX as int {
        u32::MAX as u32
    } else {
        v as u32
    }
}

/// A level that is well formed against a shader map stays well formed when
/// shaders are appended: interned identities are stable.
proof fn lemma_bsp_wf_extend(
    bsp: BSP,
    shaders: Seq<(Seq<char>, Shader)>,
    extended: Seq<(Seq<char>, Shader)>,
)
    requires
        bsp.wf(shaders),
        extended.len() >= shaders.len(),
        extended.subrange(0, shaders.len() as int) == shaders,
    ensures
        bsp.wf(extended),
{
    assert(forall|i: int|
        0 <= i < shaders.len() ==> #[trigger] extended[i] == shaders.subrange(
            0,
            shaders.len() as int,
        )[i]);
}

} // verus!
