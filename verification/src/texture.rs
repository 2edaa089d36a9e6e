//! Textures as the device sees them: which of the device's image usages a
//! texture's usages ask for, and which filters, address modes, view types
//! and aspects stand for the renderer's own. The device's values are its
//! own numbers.

use vstd::prelude::*;

verus! {

pub const TEXTURE_USAGE_VERTEX_SHADER_SAMPLED: u32 = 0x0001;

pub const TEXTURE_USAGE_FRAGMENT_SHADER_SAMPLED: u32 = 0x0002;

pub const TEXTURE_USAGE_COMPUTE_SHADER_SAMPLED: u32 = 0x0004;

pub const TEXTURE_USAGE_VERTEX_SHADER_STORAGE_READ: u32 = 0x0008;

pub const TEXTURE_USAGE_FRAGMENT_SHADER_STORAGE_READ: u32 = 0x0010;

pub const TEXTURE_USAGE_COMPUTE_SHADER_STORAGE_READ: u32 = 0x0020;

pub const TEXTURE_USAGE_VERTEX_SHADER_STORAGE_WRITE: u32 = 0x0040;

pub const TEXTURE_USAGE_FRAGMENT_SHADER_STORAGE_WRITE: u32 = 0x0080;

pub const TEXTURE_USAGE_COMPUTE_SHADER_STORAGE_WRITE: u32 = 0x0100;

pub const TEXTURE_USAGE_FRAGMENT_SHADER_LOCAL: u32 = 0x0200;

pub const TEXTURE_USAGE_RENDER_TARGET: u32 = 0x0400;

pub const TEXTURE_USAGE_DEPTH_READ: u32 = 0x0800;

pub const TEXTURE_USAGE_DEPTH_WRITE: u32 = 0x1000;

pub const TEXTURE_USAGE_RESOLVE_SRC: u32 = 0x2000;

pub const TEXTURE_USAGE_RESOLVE_DST: u32 = 0x4000;

pub const TEXTURE_USAGE_BLIT_SRC: u32 = 0x8000;

pub const TEXTURE_USAGE_BLIT_DST: u32 = 0x1_0000;

pub const TEXTURE_USAGE_COPY_SRC: u32 = 0x2_0000;

pub const TEXTURE_USAGE_COPY_DST: u32 = 0x4_0000;

/// The usages that read or write a texture as storage.
pub const STORAGE_USAGES: u32 = 0x01F8;

/// The usages that sample a texture.
pub const SAMPLING_USAGES: u32 = 0x0007;

/// The usages that copy from a texture.
pub const TRANSFER_SRC_USAGES: u32 = 0x2_A000;

/// The usages that copy to a texture.
pub const TRANSFER_DST_USAGES: u32 = 0x5_4000;

/// The usages that read or write depth.
pub const DEPTH_STENCIL_USAGES: u32 = 0x1800;

pub const IMAGE_USAGE_TRANSFER_SRC: u32 = 0x01;

pub const IMAGE_USAGE_TRANSFER_DST: u32 = 0x02;

pub const IMAGE_USAGE_SAMPLED: u32 = 0x04;

pub const IMAGE_USAGE_STORAGE: u32 = 0x08;

pub const IMAGE_USAGE_COLOR_ATTACHMENT: u32 = 0x10;

pub const IMAGE_USAGE_DEPTH_STENCIL_ATTACHMENT: u32 = 0x20;

pub const IMAGE_USAGE_INPUT_ATTACHMENT: u32 = 0x80;

/// The device's image usage `flag` if `usage` has one of the usages of
/// `group`, else none.
pub open spec fn flag_if(usage: u32, group: u32, flag: u32) -> u32 {
    if usage & group != 0 {
        flag
    } else {
        0
    }
}

/// The device's image usages for a texture with the usages `usage`. A
/// texture that is a render target and nothing else is a colour attachment
/// and nothing else; one that is local to the fragment shader and nothing
/// else is an input attachment. Any other asks for each image usage that
/// one of its usages needs.
pub open spec fn image_usage(usage: u32) -> u32 {
    if usage == TEXTURE_USAGE_RENDER_TARGET {
        IMAGE_USAGE_COLOR_ATTACHMENT
    } else if usage == TEXTURE_USAGE_FRAGMENT_SHADER_LOCAL {
        IMAGE_USAGE_INPUT_ATTACHMENT
    } else {
        flag_if(usage, STORAGE_USAGES, IMAGE_USAGE_STORAGE) | flag_if(
            usage,
            SAMPLING_USAGES,
            IMAGE_USAGE_SAMPLED,
        ) | flag_if(usage, TRANSFER_SRC_USAGES, IMAGE_USAGE_TRANSFER_SRC) | flag_if(
            usage,
            TRANSFER_DST_USAGES,
            IMAGE_USAGE_TRANSFER_DST,
        ) | flag_if(usage, DEPTH_STENCIL_USAGES, IMAGE_USAGE_DEPTH_STENCIL_ATTACHMENT) | flag_if(
            usage,
            TEXTURE_USAGE_RENDER_TARGET,
            IMAGE_USAGE_COLOR_ATTACHMENT,
        )
    }
}

/// The device's image usages for a texture with the usages `usage`.
pub fn texture_usage_to_vk(usage: u32) -> (flags: u32)
    ensures
        flags == image_usage(usage),
{
    if usage == TEXTURE_USAGE_RENDER_TARGET {
        return IMAGE_USAGE_COLOR_ATTACHMENT;
    }
    if usage == TEXTURE_USAGE_FRAGMENT_SHADER_LOCAL {
        return IMAGE_USAGE_INPUT_ATTACHMENT;
    }
    flag_when(usage, STORAGE_USAGES, IMAGE_USAGE_STORAGE) | flag_when(
        usage,
        SAMPLING_USAGES,
        IMAGE_USAGE_SAMPLED,
    ) | flag_when(usage, TRANSFER_SRC_USAGES, IMAGE_USAGE_TRANSFER_SRC) | flag_when(
        usage,
        TRANSFER_DST_USAGES,
        IMAGE_USAGE_TRANSFER_DST,
    ) | flag_when(usage, DEPTH_STENCIL_USAGES, IMAGE_USAGE_DEPTH_STENCIL_ATTACHMENT) | flag_when(
        usage,
        TEXTURE_USAGE_RENDER_TARGET,
        IMAGE_USAGE_COLOR_ATTACHMENT,
    )
}

/// The device's image usage `flag` if `usage` has one of the usages of
/// `group`, else none.
fn flag_when(usage: u32, group: u32, flag: u32) -> (result: u32)
    ensures
        result == flag_if(usage, group, flag),
{
    if usage & group != 0 {
        flag
    } else {
        0
    }
}

/// How a texture is sampled between its texels.
#[derive(Clone, Copy, Debug, PartialEq, Eq, Structural)]
pub enum Filter {
    Linear,
    Nearest,
}

/// What a texture shows outside its bounds.
#[derive(Clone, Copy, Debug, PartialEq, Eq, Structural)]
pub enum AddressMode {
    Repeat,
    ClampToBorder,
    ClampToEdge,
    MirroredRepeat,
}

/// The device's filter for `filter`: 1 is linear, 0 is nearest.
pub fn filter_to_vk(filter: Filter) -> (value: i32)
    ensures
        value == match filter {
            Filter::Linear => 1i32,
            Filter::Nearest => 0i32,
        },
{
    match filter {
        Filter::Linear => 1,
        Filter::Nearest => 0,
    }
}

/// The device's filter between mip maps for `filter`: 1 is linear, 0 is
/// nearest.
pub fn filter_to_vk_mip(filter: Filter) -> (value: i32)
    ensures
        value == match filter {
            Filter::Linear => 1i32,
            Filter::Nearest => 0i32,
        },
{
    match filter {
        Filter::Linear => 1,
        Filter::Nearest => 0,
    }
}

/// The device's address mode for `address_mode`.
pub fn address_mode_to_vk(address_mode: AddressMode) -> (value: i32)
    ensures
        value == match address_mode {
            AddressMode::Repeat => 0i32,
            AddressMode::MirroredRepeat => 1i32,
            AddressMode::ClampToEdge => 2i32,
            AddressMode::ClampToBorder => 3i32,
        },
{
    match address_mode {
        AddressMode::Repeat => 0,
        AddressMode::ClampToBorder => 3,
        AddressMode::ClampToEdge => 2,
        AddressMode::MirroredRepeat => 1,
    }
}

/// The aspects of an image: colour is 1, depth 2, stencil 4.
pub const IMAGE_ASPECT_COLOR: u32 = 0x1;

pub const IMAGE_ASPECT_DEPTH: u32 = 0x2;

pub const IMAGE_ASPECT_STENCIL: u32 = 0x4;

/// The aspects that a view for shader access shows of a texture whose
/// format has depth, stencil, or neither: depth where there is any, else
/// colour.
pub fn shader_resource_aspect(is_depth: bool, is_stencil: bool) -> (aspect: u32)
    ensures
        aspect == if is_depth {
            IMAGE_ASPECT_DEPTH
        } else {
            IMAGE_ASPECT_COLOR
        },
{
    if is_depth && is_stencil {
        IMAGE_ASPECT_DEPTH
    } else if is_depth {
        IMAGE_ASPECT_DEPTH
    } else {
        IMAGE_ASPECT_COLOR
    }
}

/// The aspects that an attachment view shows: depth and stencil where the
/// format has both, depth where it has depth alone, else colour.
pub fn attachment_aspect(is_depth: bool, is_stencil: bool) -> (aspect: u32)
    ensures
        aspect == if is_depth && is_stencil {
            6u32
        } else if is_depth {
            IMAGE_ASPECT_DEPTH
        } else {
            IMAGE_ASPECT_COLOR
        },
{
    if is_depth && is_stencil {
        assert(IMAGE_ASPECT_DEPTH | IMAGE_ASPECT_STENCIL == 6u32) by (bit_vector);
        IMAGE_ASPECT_DEPTH | IMAGE_ASPECT_STENCIL
    } else if is_depth {
        IMAGE_ASPECT_DEPTH
    } else {
        IMAGE_ASPECT_COLOR
    }
}

/// The number of dimensions of the view of an attachment of the given
/// height and depth: one for a row of texels, two for a sheet, else three.
pub fn attachment_view_dimensions(height: u32, depth: u32) -> (dimensions: u32)
    ensures
        dimensions == if height <= 1 {
            1u32
        } else if depth <= 1 {
            2u32
        } else {
            3u32
        },
{
    if height <= 1 {
        1
    } else if depth <= 1 {
        2
    } else {
        3
    }
}

/// The extent of an image along one axis: never zero.
pub fn image_extent(extent: u32) -> (size: u32)
    ensures
        size == if extent >= 1 {
            extent
        } else {
            1
        },
{
    if extent >= 1 {
        extent
    } else {
        1
    }
}

} // verus!
