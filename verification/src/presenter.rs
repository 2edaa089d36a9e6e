//! What a swapchain is made with: the present mode, the surface format,
//! the extent and the number of images, chosen from what the surface
//! offers. Formats and modes are the device interface's own numbers.

use vstd::prelude::*;

verus! {

/// The name of the swapchain extension.
pub const SWAPCHAIN_EXT_NAME: &'static str = "VK_KHR_swapchain";

/// The present mode that waits for the display: first in, first out.
pub const PRESENT_MODE_FIFO: i32 = 2;

/// The format that stands for "any".
pub const FORMAT_UNDEFINED: i32 = 0;

/// Eight bits each of blue, green, red and alpha.
pub const FORMAT_B8G8R8A8_UNORM: i32 = 44;

/// The sRGB colour space.
pub const COLOR_SPACE_SRGB_NONLINEAR: i32 = 0;

/// A format that a surface offers, with its colour space.
#[derive(Clone, Copy, Debug, PartialEq, Eq, Structural)]
pub struct SurfaceFormat {
    pub format: i32,
    pub color_space: i32,
}

/// A width and a height in pixels.
#[derive(Clone, Copy, Debug, PartialEq, Eq, Structural)]
pub struct Extent2D {
    pub width: u32,
    pub height: u32,
}

/// What a surface can do.
#[derive(Clone, Copy, Debug, PartialEq, Eq, Structural)]
pub struct SurfaceCapabilities {
    pub min_image_count: u32,
    pub max_image_count: u32,
    pub current_extent: Extent2D,
}

/// Whether `format` is the one that swapchains are made with.
pub open spec fn is_wanted_format(format: SurfaceFormat) -> bool {
    format.format == FORMAT_B8G8R8A8_UNORM && format.color_space == COLOR_SPACE_SRGB_NONLINEAR
}

/// Chooses what swapchains are made with.
pub struct Presenter {}

impl Presenter {
    /// The present mode: first in, first out, if the surface offers it.
    pub fn pick_present_mode(present_modes: &Vec<i32>) -> (mode: Option<i32>)
        ensures
            mode is Some <==> present_modes@.contains(PRESENT_MODE_FIFO),
            mode is Some ==> mode == Some(PRESENT_MODE_FIFO),
    {
        let mut i: usize = 0;
        while i < present_modes.len()
            invariant
                i <= present_modes@.len(),
                forall|k: int| 0 <= k < i ==> present_modes@[k] != PRESENT_MODE_FIFO,
            decreases present_modes@.len() - i,
        {
            if present_modes[i] == PRESENT_MODE_FIFO {
                return Some(present_modes[i]);
            }
            i = i + 1;
        }
        None
    }

    /// The surface format: the wanted one, if the surface offers it or
    /// offers any.
    pub fn pick_format(formats: &Vec<SurfaceFormat>) -> (format: Option<SurfaceFormat>)
        ensures
            format is Some <==> (formats@.len() == 1 && formats@[0].format == FORMAT_UNDEFINED)
                || exists|k: int| 0 <= k < formats@.len() && is_wanted_format(#[trigger] formats@[k]),
            format matches Some(f) ==> is_wanted_format(f),
    {
        if formats.len() == 1 && formats[0].format == FORMAT_UNDEFINED {
            return Some(
                SurfaceFormat {
                    format: FORMAT_B8G8R8A8_UNORM,
                    color_space: COLOR_SPACE_SRGB_NONLINEAR,
                },
            );
        }
        let mut i: usize = 0;
        while i < formats.len()
            invariant
                i <= formats@.len(),
                forall|k: int| 0 <= k < i ==> !is_wanted_format(#[trigger] formats@[k]),
            decreases formats@.len() - i,
        {
            if formats[i].format == FORMAT_B8G8R8A8_UNORM && formats[i].color_space
                == COLOR_SPACE_SRGB_NONLINEAR {
                return Some(formats[i]);
            }
            i = i + 1;
        }
        None
    }

    /// The extent: the surface's current one, if it has one.
    pub fn pick_swap_extent(capabilities: &SurfaceCapabilities) -> (extent: Option<Extent2D>)
        ensures
            extent == if capabilities.current_extent.width != u32::MAX {
                Some(capabilities.current_extent)
            } else {
                None
            },
    {
        if capabilities.current_extent.width != u32::MAX {
            Some(capabilities.current_extent)
        } else {
            None
        }
    }

    /// The number of images: as many as the surface allows, or one more
    /// than it needs if it sets no limit.
    pub fn pick_image_count(capabilities: &SurfaceCapabilities) -> (count: u32)
        requires
            capabilities.max_image_count > 0 || capabilities.min_image_count < u32::MAX,
        ensures
            count == if capabilities.max_image_count > 0 {
                capabilities.max_image_count as int
            } else {
                capabilities.min_image_count + 1
            },
    {
        if capabilities.max_image_count > 0 {
            capabilities.max_image_count
        } else {
            capabilities.min_image_count + 1
        }
    }
}

} // verus!
