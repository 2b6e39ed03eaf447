//! Bitmap resources and their add-time validation.

use vstd::prelude::*;
use crate::error::{Error, MResult};
use crate::parameters::Resolution;

verus! {

/// Pixel storage format of a bitmap level.
#[derive(Clone, Copy, PartialEq, Eq, Structural, Debug)]
pub enum BitmapFormat {
    /// 8 bits per channel RGBA, 4 bytes per pixel.
    A8B8G8R8,
    /// A single 8-bit alpha channel, 1 byte per pixel.
    A8,
}

impl BitmapFormat {
    /// Bytes each pixel occupies.
    pub fn bytes_per_pixel(&self) -> (r: u32)
        ensures
            r == spec_bytes_per_pixel(*self),
    {
        match *self {
            BitmapFormat::A8B8G8R8 => 4,
            BitmapFormat::A8 => 1,
        }
    }
}

/// Bytes each pixel of `f` occupies.
pub open spec fn spec_bytes_per_pixel(f: BitmapFormat) -> int {
    match f {
        BitmapFormat::A8B8G8R8 => 4,
        BitmapFormat::A8 => 1,
    }
}

/// Dimensionality of a bitmap: flat, volumetric, or a six-faced cube map.
#[derive(Clone, Copy, PartialEq, Eq, Structural, Debug)]
pub enum BitmapType {
    Dim2D,
    Dim3D { depth: u32 },
    Cubemap,
}

impl BitmapType {
    /// Number of layers a bitmap of this type stores per mip level.
    pub fn layer_count(&self) -> (r: u32)
        ensures
            r == spec_layer_count(*self),
    {
        match *self {
            BitmapType::Dim2D => 1,
            BitmapType::Dim3D { depth } => depth,
            BitmapType::Cubemap => 6,
        }
    }
}

/// Number of layers a bitmap of type `t` stores per mip level.
pub open spec fn spec_layer_count(t: BitmapType) -> int {
    match t {
        BitmapType::Dim2D => 1,
        BitmapType::Dim3D { depth } => depth as int,
        BitmapType::Cubemap => 6,
    }
}

/// A dimension of the next mip level: halved, flooring at one.
pub open spec fn spec_halve(w: int) -> int {
    if w <= 1 {
        w
    } else {
        w / 2
    }
}

/// Total bytes of a mip chain that starts at `w` x `h` and has `levels`
/// additional levels beyond the base.
pub open spec fn spec_mip_chain_bytes(w: int, h: int, layers: int, bpp: int, levels: nat) -> int
    decreases levels,
{
    w * h * layers * bpp + if levels == 0 {
        0
    } else {
        spec_mip_chain_bytes(spec_halve(w), spec_halve(h), layers, bpp, (levels - 1) as nat)
    }
}

/// One stored mip-chained image of a bitmap resource.
pub struct BitmapBitmap {
    pub format: BitmapFormat,
    pub bitmap_type: BitmapType,
    pub resolution: Resolution,
    /// Number of mip levels beyond the base level.
    pub mipmap_count: u32,
    /// Raw pixel bytes of the whole mip chain.
    pub data: Vec<u8>,
}

impl BitmapBitmap {
    /// The stored data holds exactly the bytes its dimensions announce, and
    /// the mip chain is no deeper than any dimension allows.
    pub open spec fn valid(&self) -> bool {
        &&& self.mipmap_count <= 31
        &&& self.data@.len() == spec_mip_chain_bytes(
            self.resolution.width as int,
            self.resolution.height as int,
            spec_layer_count(self.bitmap_type),
            spec_bytes_per_pixel(self.format),
            self.mipmap_count as nat,
        )
    }

    /// Check this image's validity invariant.
    pub fn validate(&self) -> (r: MResult<()>)
        ensures
            r is Ok <==> self.valid(),
    {
        if self.mipmap_count > 31 {
            return Err(Error::Validation);
        }
        let layers = self.bitmap_type.layer_count();
        let bpp = self.format.bytes_per_pixel();
        let mut expected: u128 = 0;
        let mut w: u32 = self.resolution.width;
        let mut h: u32 = self.resolution.height;
        let mut level: u32 = 0;
        let ghost total = spec_mip_chain_bytes(
            self.resolution.width as int,
            self.resolution.height as int,
            spec_layer_count(self.bitmap_type),
            spec_bytes_per_pixel(self.format),
            self.mipmap_count as nat,
        );
        while level <= self.mipmap_count
            invariant
                self.mipmap_count <= 31,
                level <= self.mipmap_count + 1,
                layers == spec_layer_count(self.bitmap_type),
                bpp == spec_bytes_per_pixel(self.format),
                expected <= level as int * 0x4_0000_0000_0000_0000_0000_0000int,
                level <= self.mipmap_count ==> total == expected + spec_mip_chain_bytes(
                    w as int,
                    h as int,
                    layers as int,
                    bpp as int,
                    (self.mipmap_count - level) as nat,
                ),
                level > self.mipmap_count ==> total == expected,
            decreases self.mipmap_count + 1 - level,
        {
            proof {
                crate::fixed::lemma_mul_bound(w as int, h as int, 0xffff_ffff, 0xffff_ffff);
                crate::fixed::lemma_mul_bound(
                    w as int * h as int,
                    layers as int,
                    0xffff_ffffint * 0xffff_ffff,
                    0xffff_ffff,
                );
                crate::fixed::lemma_mul_bound(
                    w as int * h as int * layers as int,
                    bpp as int,
                    0xffff_ffff * 0xffff_ffffint * 0xffff_ffff,
                    4,
                );
            }
            let level_bytes: u128 = w as u128 * h as u128 * layers as u128 * bpp as u128;
            expected = expected + level_bytes;
            w = if w <= 1 { w } else { w / 2 };
            h = if h <= 1 { h } else { h / 2 };
            level = level + 1;
        }
        if self.data.len() as u128 == expected {
            Ok(())
        } else {
            Err(Error::Validation)
        }
    }
}

/// A run of images within a bitmap resource, addressable as a unit.
#[derive(Clone, Copy, PartialEq, Eq, Structural, Debug)]
pub enum BitmapSequence {
    Bitmap { first: usize, count: usize },
}

/// Parameters for adding a bitmap resource.
pub struct AddBitmapParameter {
    pub bitmaps: Vec<BitmapBitmap>,
    pub sequences: Vec<BitmapSequence>,
}

impl AddBitmapParameter {
    /// Every image is internally consistent and every sequence addresses
    /// images that exist.
    pub open spec fn valid(&self) -> bool {
        &&& forall|i: int| 0 <= i < self.bitmaps@.len() ==> (#[trigger] self.bitmaps@[i]).valid()
        &&& forall|i: int|
            0 <= i < self.sequences@.len() ==> match #[trigger] self.sequences@[i] {
                BitmapSequence::Bitmap { first, count } =>
                    first + count <= self.bitmaps@.len(),
            }
    }

    /// Check the whole parameter set.
    pub fn validate(&self) -> (r: MResult<()>)
        ensures
            r is Ok <==> self.valid(),
    {
        let n = self.bitmaps.len();
        let mut i: usize = 0;
        while i < n
            invariant
                n == self.bitmaps@.len(),
                i <= n,
                forall|j: int| 0 <= j < i ==> (#[trigger] self.bitmaps@[j]).valid(),
            decreases n - i,
        {
            if self.bitmaps[i].validate().is_err() {
                return Err(Error::Validation);
            }
            i = i + 1;
        }
        let m = self.sequences.len();
        let mut k: usize = 0;
        while k < m
            invariant
                n == self.bitmaps@.len(),
                m == self.sequences@.len(),
                k <= m,
                forall|j: int| 0 <= j < n ==> (#[trigger] self.bitmaps@[j]).valid(),
                forall|j: int|
                    0 <= j < k ==> match #[trigger] self.sequences@[j] {
                        BitmapSequence::Bitmap { first, count } => first + count <= n,
                    },
            decreases m - k,
        {
            match self.sequences[k] {
                BitmapSequence::Bitmap { first, count } => {
                    if first > n || count > n - first {
                        return Err(Error::Validation);
                    }
                },
            }
            k = k + 1;
        }
        Ok(())
    }
}

/// A loaded bitmap resource.
pub struct Bitmap {
    pub bitmaps: Vec<BitmapBitmap>,
    pub sequences: Vec<BitmapSequence>,
}

impl Bitmap {
    /// Build the resource from validated parameters.
    pub fn load_from_parameters(parameter: AddBitmapParameter) -> (r: Bitmap)
        requires
            parameter.valid(),
        ensures
            r.bitmaps@ == parameter.bitmaps@,
            r.sequences@ == parameter.sequences@,
    {
        Bitmap { bitmaps: parameter.bitmaps, sequences: parameter.sequences }
    }
}

/// Which canonical fallback texture a material input resolves to when it
/// references no bitmap.
#[derive(Clone, Copy, PartialEq, Eq, Structural, Debug)]
pub enum DefaultType {
    /// All channels 0x00: neutral for alpha blend, min, add and subtract.
    Null,
    /// All channels 0xFF: neutral for multiply and min.
    White,
    /// RGB 0x7F with alpha 0xFF: neutral for double multiply.
    Gray,
    /// Red and green 0x7F, blue and alpha 0xFF: a flat normal map.
    Vector,
}

} // verus!
