use voxel_ray_traversal::extent::Extent;
use voxel_ray_traversal::frame::{AcquireOutcome, DrawPlan, FrameAction, FrameLoop};
use voxel_ray_traversal::image::Extent3;

fn extent(width: u32, height: u32) -> Extent {
    Extent { width, height }
}

fn acquired(image_index: u32) -> AcquireOutcome {
    AcquireOutcome::Acquired { image_index, suboptimal: false }
}

fn draws(image_index: u32, width: u32, height: u32) -> Option<DrawPlan> {
    Some(DrawPlan {
        image_index,
        groups: Extent3 { width, height, depth: 1 },
        readback_len: width * height * 4,
    })
}

#[test]
fn a_new_window_is_drawn_at_once() {
    let mut frames = FrameLoop::new(extent(960, 960));
    assert_eq!(frames.redraw(false, extent(960, 960)), FrameAction::Acquire);
    assert_eq!(frames.acquired(acquired(2)), draws(2, 960, 960));
    assert_eq!(frames.redraw(false, extent(960, 960)), FrameAction::Acquire);
}

#[test]
fn a_resized_window_gets_a_new_swapchain() {
    let mut frames = FrameLoop::new(extent(960, 960));
    assert_eq!(frames.redraw(true, extent(100, 50)), FrameAction::Recreate(extent(100, 50)));
    frames.recreated(extent(100, 50));
    assert_eq!(frames.render_extent(), extent(100, 50));
    assert_eq!(frames.acquired(acquired(0)), draws(0, 100, 50));
    assert_eq!(frames.redraw(false, extent(100, 50)), FrameAction::Acquire);
}

#[test]
fn a_window_without_pixels_is_not_drawn() {
    let mut frames = FrameLoop::new(extent(960, 960));
    assert_eq!(frames.redraw(false, extent(0, 960)), FrameAction::Skip);
    assert_eq!(frames.redraw(false, extent(960, 0)), FrameAction::Skip);
    assert_eq!(frames.redraw(false, extent(960, 960)), FrameAction::Acquire);
    assert_eq!(frames.render_extent(), extent(960, 960));
}

#[test]
fn a_resize_is_not_lost_while_the_window_is_minimized() {
    let mut frames = FrameLoop::new(extent(960, 960));
    assert_eq!(frames.redraw(true, extent(0, 0)), FrameAction::Skip);
    assert_eq!(frames.redraw(false, extent(0, 0)), FrameAction::Skip);
    assert_eq!(frames.redraw(false, extent(30, 20)), FrameAction::Recreate(extent(30, 20)));
    frames.recreated(extent(30, 20));
    assert_eq!(frames.acquired(acquired(1)), draws(1, 30, 20));
}

#[test]
fn an_outdated_swapchain_ends_the_frame_and_is_replaced_in_the_next() {
    let mut frames = FrameLoop::new(extent(960, 960));
    assert_eq!(frames.redraw(false, extent(960, 960)), FrameAction::Acquire);
    assert_eq!(frames.acquired(AcquireOutcome::OutOfDate), None);
    assert_eq!(frames.redraw(false, extent(960, 960)), FrameAction::Recreate(extent(960, 960)));
    frames.recreated(extent(960, 960));
    assert_eq!(frames.acquired(acquired(0)), draws(0, 960, 960));
}

#[test]
fn a_suboptimal_swapchain_is_drawn_on_once_more() {
    let mut frames = FrameLoop::new(extent(8, 6));
    assert_eq!(frames.redraw(false, extent(8, 6)), FrameAction::Acquire);
    let outcome = AcquireOutcome::Acquired { image_index: 1, suboptimal: true };
    assert_eq!(frames.acquired(outcome), draws(1, 8, 6));
    assert_eq!(frames.redraw(false, extent(9, 6)), FrameAction::Recreate(extent(9, 6)));
}

#[test]
fn frames_fit_the_window_if_every_resize_is_reported() {
    let sizes = [(4, 4), (4, 4), (0, 4), (5, 4), (5, 4), (0, 0), (0, 0), (4, 4), (7, 3)];
    let mut frames = FrameLoop::new(extent(4, 4));
    let mut last = (4, 4);
    for (width, height) in sizes {
        let window = extent(width, height);
        match frames.redraw((width, height) != last, window) {
            FrameAction::Skip => assert!(window.is_empty()),
            action => {
                if let FrameAction::Recreate(size) = action {
                    frames.recreated(size);
                }
                assert_eq!(frames.acquired(acquired(0)), draws(0, width, height));
            }
        }
        last = (width, height);
    }
}

#[test]
fn a_mismatch_is_not_lost_while_the_window_is_minimized() {
    let suboptimal = AcquireOutcome::Acquired { image_index: 0, suboptimal: true };
    for outcome in [AcquireOutcome::OutOfDate, suboptimal] {
        let mut frames = FrameLoop::new(extent(6, 4));
        assert_eq!(frames.redraw(false, extent(6, 4)), FrameAction::Acquire);
        frames.acquired(outcome);
        for _ in 0..3 {
            assert_eq!(frames.redraw(false, extent(0, 0)), FrameAction::Skip);
        }
        assert_eq!(frames.redraw(false, extent(6, 4)), FrameAction::Recreate(extent(6, 4)));
    }
}
