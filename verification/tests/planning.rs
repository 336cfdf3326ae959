use voxel_ray_traversal::extent::{Extent, INITIAL_WINDOW_HEIGHT, INITIAL_WINDOW_WIDTH};
use voxel_ray_traversal::image::{
    can_read_back, readback_len, render_image, scene_voxels, voxel_image, Extent3, ImageDimension,
    ImageUses, TexelFormat,
};
use voxel_ray_traversal::swapchain::{plan_swapchain, Presentation};
use vulkano::format::Format;

fn extent(width: u32, height: u32) -> Extent {
    Extent { width, height }
}

#[test]
fn the_window_opens_as_a_square() {
    assert_eq!((INITIAL_WINDOW_WIDTH, INITIAL_WINDOW_HEIGHT), (960, 960));
}

#[test]
fn an_extent_is_empty_without_width_or_height() {
    assert!(extent(0, 10).is_empty());
    assert!(extent(10, 0).is_empty());
    assert!(extent(0, 0).is_empty());
    assert!(!extent(1, 1).is_empty());
}

#[test]
fn the_swapchain_has_three_images_or_more() {
    let formats = vec![(Format::B8G8R8A8_SRGB, 'a'), (Format::R8G8B8A8_UNORM, 'b')];
    let plan = plan_swapchain(2, &formats, &vec!["opaque", "inherit"], extent(960, 540));
    assert_eq!(plan.min_image_count, 3);
    assert_eq!(plan.image_format, Format::B8G8R8A8_SRGB);
    assert_eq!(plan.image_extent, extent(960, 540));
    assert_eq!(
        plan.image_uses,
        ImageUses {
            storage: false,
            transfer_src: false,
            transfer_dst: true,
            color_attachment: true,
        }
    );
    assert_eq!(plan.composite_alpha, "opaque");
    assert_eq!(plan.presentation, Presentation::Immediate);
    assert_eq!(plan_swapchain(3, &formats, &vec![0], extent(1, 1)).min_image_count, 3);
    assert_eq!(plan_swapchain(5, &formats, &vec![0], extent(1, 1)).min_image_count, 5);
}

#[test]
fn the_render_image_is_as_large_as_the_window() {
    let plan = render_image(extent(960, 540));
    assert_eq!(plan.dimension, ImageDimension::Dim2d);
    assert_eq!(plan.format, TexelFormat::Rgba8Unorm);
    assert_eq!(plan.extent, Extent3 { width: 960, height: 540, depth: 1 });
    assert_eq!(
        plan.uses,
        ImageUses {
            storage: true,
            transfer_src: true,
            transfer_dst: false,
            color_attachment: false,
        }
    );
    assert_eq!((plan.set, plan.binding), (0, 0));
}

#[test]
fn the_voxel_image_is_a_small_cube() {
    let plan = voxel_image();
    assert_eq!(plan.dimension, ImageDimension::Dim3d);
    assert_eq!(plan.format, TexelFormat::Rgba8Uint);
    assert_eq!(plan.extent, Extent3 { width: 4, height: 4, depth: 4 });
    assert_eq!(
        plan.uses,
        ImageUses {
            storage: true,
            transfer_src: false,
            transfer_dst: true,
            color_attachment: false,
        }
    );
    assert_eq!((plan.set, plan.binding), (1, 0));
}

#[test]
fn the_scene_has_seven_voxels() {
    let voxels = scene_voxels();
    let filled: Vec<usize> = (0..voxels.len()).filter(|&place| voxels[place] != 0).collect();
    assert_eq!(voxels.len(), 64);
    assert_eq!(filled, vec![0, 12, 15, 28, 47, 60, 63]);
    assert!(filled.iter().all(|&place| voxels[place] == 1));
}

#[test]
fn the_scene_fills_the_voxel_image() {
    let size = voxel_image().extent;
    assert_eq!(scene_voxels().len() as u32, size.width * size.height * size.depth);
}

#[test]
fn the_readback_buffer_has_four_bytes_for_each_pixel() {
    assert_eq!(readback_len(extent(960, 960)), 3_686_400);
    assert_eq!(readback_len(extent(1, 1)), 4);
    assert_eq!(readback_len(extent(32_767, 32_768)), 4_294_836_224);
}

#[test]
fn images_that_are_too_large_cannot_be_read_back() {
    assert!(can_read_back(extent(32_767, 32_768)));
    assert!(!can_read_back(extent(32_768, 32_768)));
    assert!(!can_read_back(extent(u32::MAX, u32::MAX)));
    assert!(can_read_back(extent(u32::MAX, 0)));
    assert!(can_read_back(extent(u32::MAX / 4, 1)));
    assert!(!can_read_back(extent(u32::MAX / 4 + 1, 1)));
}
