//! How to make the swapchain.

use vstd::prelude::*;

use crate::extent::Extent;
use crate::image::ImageUses;

verus! {

/// The fewest images that a swapchain is asked for.
pub const LEAST_IMAGES: u32 = 3;

/// When a frame reaches the screen.
#[derive(Debug, Clone, Copy, PartialEq, Eq, Structural)]
pub enum Presentation {
    /// At once, even in the middle of a refresh.
    Immediate,
}

/// How to make the swapchain, for pixel formats `F` and ways to blend with the desktop `A`.
#[derive(Debug)]
pub struct SwapchainPlan<F, A> {
    pub min_image_count: u32,
    pub image_format: F,
    pub image_extent: Extent,
    pub image_uses: ImageUses,
    pub composite_alpha: A,
    pub presentation: Presentation,
}

/// Plans the swapchain of a window from what its surface supports: the least number of images,
/// the pixel formats, each with a color space, and the ways to blend. The first format and the
/// first way to blend are taken.
///
/// The images are drawn on by the user interface and copied to by the renderer.
pub fn plan_swapchain<F: Copy, C, A: Copy>(
    min_image_count: u32,
    formats: &Vec<(F, C)>,
    composite_alphas: &Vec<A>,
    window: Extent,
) -> (r: SwapchainPlan<F, A>)
    requires
        formats@.len() > 0,
        composite_alphas@.len() > 0,
    ensures
        r.min_image_count == if min_image_count < LEAST_IMAGES {
            LEAST_IMAGES
        } else {
            min_image_count
        },
        r.image_format == formats@[0].0,
        r.image_extent == window,
        r.image_uses == (ImageUses {
            storage: false,
            transfer_src: false,
            transfer_dst: true,
            color_attachment: true,
        }),
        r.composite_alpha == composite_alphas@[0],
        r.presentation == Presentation::Immediate,
{
    SwapchainPlan {
        min_image_count: if min_image_count < LEAST_IMAGES {
            LEAST_IMAGES
        } else {
            min_image_count
        },
        image_format: formats[0].0,
        image_extent: window,
        image_uses: ImageUses {
            storage: false,
            transfer_src: false,
            transfer_dst: true,
            color_attachment: true,
        },
        composite_alpha: composite_alphas[0],
        presentation: Presentation::Immediate,
    }
}

/// The swapchain is as large as the window. It has three images at least, and no fewer than the
/// surface asks for, but not more than these two ask for. It takes the format and the way to blend
/// that the surface names first, whatever else the surface names.
pub proof fn law_swapchain_suits_window_and_surface<F: Copy, C, A: Copy>(
    min_image_count: u32,
    formats: Vec<(F, C)>,
    composite_alphas: Vec<A>,
    window: Extent,
    r: SwapchainPlan<F, A>,
)
    requires
        formats@.len() > 0,
        composite_alphas@.len() > 0,
        call_ensures(
            plan_swapchain::<F, C, A>,
            (min_image_count, &formats, &composite_alphas, window),
            r,
        ),
    ensures
        r.image_extent.width == window.width,
        r.image_extent.height == window.height,
        r.min_image_count >= 3,
        r.min_image_count >= min_image_count,
        r.min_image_count == 3 || r.min_image_count == min_image_count,
        r.image_format == formats@.first().0,
        r.composite_alpha == composite_alphas@.first(),
{
}

/// What the images of the swapchain are used for, and when they reach the screen, depends neither
/// on the window nor on the surface: they are copied to and drawn on, and shown at once.
pub proof fn law_swapchains_are_used_alike<F: Copy, C, A: Copy>(
    min_image_count: u32,
    formats: Vec<(F, C)>,
    composite_alphas: Vec<A>,
    window: Extent,
    r: SwapchainPlan<F, A>,
)
    requires
        formats@.len() > 0,
        composite_alphas@.len() > 0,
        call_ensures(
            plan_swapchain::<F, C, A>,
            (min_image_count, &formats, &composite_alphas, window),
            r,
        ),
    ensures
        r.image_uses.transfer_dst && r.image_uses.color_attachment,
        !r.image_uses.transfer_src && !r.image_uses.storage,
        r.presentation is Immediate,
{
}

} // verus!
