//! Loading textures in the VTF format: which files are taken for such
//! textures, and which of their pixel formats the renderer can use.

use vstd::prelude::*;
use vstd::string::StringSliceAdditionalSpecFns;

verus! {

/// The pixel formats of texture files.
#[allow(non_camel_case_types)]
#[derive(Clone, Copy, Debug, PartialEq, Eq, Structural)]
pub enum ImageFormat {
    DXT1,
    DXT1OneBitAlpha,
    DXT3,
    DXT5,
    RGBA8888,
    /// Any other format, by its number in the file.
    Other(i32),
}

/// The pixel formats of the renderer.
#[allow(non_camel_case_types)]
#[derive(Clone, Copy, Debug, PartialEq, Eq, Structural)]
pub enum Format {
    DXT1,
    DXT1Alpha,
    DXT3,
    DXT5,
    RGBA8,
}

/// Whether `text` ends with `suffix`, byte for byte.
pub open spec fn ends_with(text: Seq<u8>, suffix: Seq<u8>) -> bool {
    text.len() >= suffix.len() && text.subrange(text.len() - suffix.len(), text.len() as int)
        == suffix
}

/// Whether `text` ends with `suffix`.
pub fn bytes_end_with(text: &[u8], suffix: &[u8]) -> (ends: bool)
    ensures
        ends == ends_with(text@, suffix@),
{
    let n = text.len();
    let m = suffix.len();
    if n < m {
        return false;
    }
    let mut i: usize = 0;
    while i < m
        invariant
            i <= m <= n,
            n == text@.len(),
            m == suffix@.len(),
            forall|k: int| 0 <= k < i ==> text@[n - m + k] == suffix@[k],
        decreases m - i,
    {
        if text[n - m + i] != suffix[i] {
            proof {
                assert(text@.subrange(n - m, n as int)[i as int] != suffix@[i as int]);
            }
            return false;
        }
        i = i + 1;
    }
    proof {
        assert(text@.subrange(n - m, n as int) =~= suffix@);
    }
    true
}

/// The bytes of `.vtf`.
pub open spec fn vtf_suffix() -> Seq<u8> {
    seq![0x2Eu8, 0x76u8, 0x74u8, 0x66u8]
}

/// Loads textures in the VTF format.
pub struct VTFTextureLoader {}

impl VTFTextureLoader {
    /// A loader.
    pub fn new() -> (loader: Self)
        ensures
            loader == (VTFTextureLoader {  }),
    {
        Self {  }
    }

    /// Whether the file at `path` is taken for a texture: its name ends in
    /// `.vtf`, and `signature_found` says that its content starts like one.
    pub fn matches(&self, path: &str, signature_found: bool) -> (matches: bool)
        ensures
            matches == (ends_with(path.spec_bytes(), vtf_suffix()) && signature_found),
    {
        let suffix: [u8; 4] = [0x2E, 0x76, 0x74, 0x66];
        proof {
            assert(suffix@ =~= vtf_suffix());
        }
        if !bytes_end_with(path.as_bytes(), suffix.as_slice()) {
            return false;
        }
        signature_found
    }
}

/// The renderer's format for a texture file's format, where it has one.
pub fn convert_vtf_texture_format(texture_format: ImageFormat) -> (format: Option<Format>)
    ensures
        format == match texture_format {
            ImageFormat::DXT1 => Some(Format::DXT1),
            ImageFormat::DXT1OneBitAlpha => Some(Format::DXT1Alpha),
            ImageFormat::DXT3 => Some(Format::DXT3),
            ImageFormat::DXT5 => Some(Format::DXT5),
            ImageFormat::RGBA8888 => Some(Format::RGBA8),
            ImageFormat::Other(code) => None,
        },
{
    match texture_format {
        ImageFormat::DXT1 => Some(Format::DXT1),
        ImageFormat::DXT1OneBitAlpha => Some(Format::DXT1Alpha),
        ImageFormat::DXT3 => Some(Format::DXT3),
        ImageFormat::DXT5 => Some(Format::DXT5),
        ImageFormat::RGBA8888 => Some(Format::RGBA8),
        ImageFormat::Other(_code) => None,
    }
}

/// The index of the smallest mip map of a texture with `mipmap_count` mip
/// maps, which is the one that is loaded.
pub fn smallest_mip_map(mipmap_count: u8) -> (index: u32)
    requires
        mipmap_count > 0,
    ensures
        index == mipmap_count - 1,
{
    mipmap_count as u32 - 1
}

} // verus!
