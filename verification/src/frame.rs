//! Drawing a frame: when to make the swapchain again, and what to draw.
//!
//! A frame goes like this. [`FrameLoop::redraw`] tells what to do first. If the swapchain and the
//! render image are to be made again, that is done and [`FrameLoop::recreated`] told. Then an
//! image of the swapchain is acquired, and [`FrameLoop::acquired`] tells what to draw on it.

use vstd::prelude::*;

use crate::extent::Extent;
use crate::image::{is_readable, readback_len, render_image_of, Extent3};

verus! {

/// What a redraw begins with.
#[derive(Debug, Clone, Copy, PartialEq, Eq, Structural)]
pub enum FrameAction {
    /// Nothing: the window has no pixel to draw.
    Skip,
    /// Make the swapchain and the render image again, in this size, then acquire an image.
    Recreate(Extent),
    /// Acquire an image.
    Acquire,
}

/// How acquiring an image went. Any other failure is fatal.
#[derive(Debug, Clone, Copy, PartialEq, Eq, Structural)]
pub enum AcquireOutcome {
    /// There is an image, though the swapchain may no longer match the window well.
    Acquired { image_index: u32, suboptimal: bool },
    /// The swapchain no longer matches the window at all.
    OutOfDate,
}

/// What to draw.
#[derive(Debug, Clone, Copy, PartialEq, Eq, Structural)]
pub struct DrawPlan {
    /// The image of the swapchain to draw on.
    pub image_index: u32,
    /// The shader's work groups: one for each pixel of the render image.
    pub groups: Extent3,
    /// The length of the buffer that the render image is read back into.
    pub readback_len: u32,
}

/// The state between frames.
pub struct FrameModel {
    /// Whether the swapchain is to be made again before the next image is acquired.
    pub recreate_swapchain: bool,
    /// The size of the render image.
    pub render_extent: Extent,
}

impl FrameModel {
    pub open spec fn wf(self) -> bool {
        !self.render_extent.is_blank()
    }

    /// With a new swapchain and a render image of this size.
    pub open spec fn fresh(extent: Extent) -> FrameModel {
        FrameModel { recreate_swapchain: false, render_extent: extent }
    }

    /// A redraw notes that the window was resized, even if it draws nothing.
    pub open spec fn after_redraw(self, resized: bool) -> FrameModel {
        FrameModel { recreate_swapchain: self.recreate_swapchain || resized, ..self }
    }

    /// What a redraw begins with, in a window of this size.
    pub open spec fn first_action(self, resized: bool, window: Extent) -> FrameAction {
        if window.is_blank() {
            FrameAction::Skip
        } else if self.recreate_swapchain || resized {
            FrameAction::Recreate(window)
        } else {
            FrameAction::Acquire
        }
    }

    /// A swapchain that does not match the window is to be made again.
    pub open spec fn after_acquire(self, outcome: AcquireOutcome) -> FrameModel {
        let mismatch = match outcome {
            AcquireOutcome::Acquired { suboptimal, .. } => suboptimal,
            AcquireOutcome::OutOfDate => true,
        };
        FrameModel { recreate_swapchain: self.recreate_swapchain || mismatch, ..self }
    }

    /// What to draw, if an image was acquired.
    pub open spec fn drawing(self, outcome: AcquireOutcome) -> Option<DrawPlan> {
        match outcome {
            AcquireOutcome::Acquired { image_index, .. } => Some(
                DrawPlan {
                    image_index,
                    groups: Extent3 {
                        width: self.render_extent.width,
                        height: self.render_extent.height,
                        depth: 1,
                    },
                    readback_len: (self.render_extent.width * self.render_extent.height * 4) as u32,
                },
            ),
            AcquireOutcome::OutOfDate => None,
        }
    }
}

/// The part of a window's state that decides how its frames are drawn.
pub struct FrameLoop {
    recreate_swapchain: bool,
    render_extent: Extent,
}

impl View for FrameLoop {
    type V = FrameModel;

    closed spec fn view(&self) -> FrameModel {
        FrameModel {
            recreate_swapchain: self.recreate_swapchain,
            render_extent: self.render_extent,
        }
    }
}

impl FrameLoop {
    /// With a new swapchain and a render image of this size.
    pub fn new(extent: Extent) -> (r: FrameLoop)
        requires
            !extent.is_blank(),
        ensures
            r@ == FrameModel::fresh(extent),
            r@.wf(),
    {
        FrameLoop { recreate_swapchain: false, render_extent: extent }
    }

    /// The size of the render image.
    pub fn render_extent(&self) -> (r: Extent)
        ensures
            r == self@.render_extent,
    {
        self.render_extent
    }

    /// Begins a frame in a window of this size, where `resized` tells whether the size changed
    /// in the current step.
    pub fn redraw(&mut self, resized: bool, window: Extent) -> (r: FrameAction)
        requires
            old(self)@.wf(),
        ensures
            final(self)@ == old(self)@.after_redraw(resized),
            final(self)@.wf(),
            r == old(self)@.first_action(resized, window),
    {
        if resized {
            self.recreate_swapchain = true;
        }
        if window.is_empty() {
            FrameAction::Skip
        } else if self.recreate_swapchain {
            FrameAction::Recreate(window)
        } else {
            FrameAction::Acquire
        }
    }

    /// Notes that the swapchain and the render image were made again, in this size.
    pub fn recreated(&mut self, extent: Extent)
        requires
            !extent.is_blank(),
        ensures
            final(self)@ == FrameModel::fresh(extent),
            final(self)@.wf(),
    {
        self.recreate_swapchain = false;
        self.render_extent = extent;
    }

    /// Goes on once the swapchain was asked for an image: what to draw, or nothing if the frame
    /// is to be given up.
    pub fn acquired(&mut self, outcome: AcquireOutcome) -> (r: Option<DrawPlan>)
        requires
            old(self)@.wf(),
            outcome is Acquired ==> is_readable(old(self)@.render_extent),
        ensures
            final(self)@ == old(self)@.after_acquire(outcome),
            final(self)@.wf(),
            r == old(self)@.drawing(outcome),
    {
        match outcome {
            AcquireOutcome::Acquired { image_index, suboptimal } => {
                if suboptimal {
                    self.recreate_swapchain = true;
                }
                let groups = Extent3 {
                    width: self.render_extent.width,
                    height: self.render_extent.height,
                    depth: 1,
                };
                Some(DrawPlan { image_index, groups, readback_len: readback_len(self.render_extent) })
            },
            AcquireOutcome::OutOfDate => {
                self.recreate_swapchain = true;
                None
            },
        }
    }
}

/// What happens around one frame.
pub struct FrameInput {
    /// Whether the window was resized in the current step.
    pub resized: bool,
    /// The size of the window.
    pub window: Extent,
    /// How acquiring an image goes, if the frame comes that far.
    pub outcome: AcquireOutcome,
}

impl FrameModel {
    /// The state in which an image is acquired, if the frame comes that far.
    pub open spec fn ready(self, input: FrameInput) -> FrameModel {
        match self.first_action(input.resized, input.window) {
            FrameAction::Recreate(extent) => FrameModel::fresh(extent),
            _ => self.after_redraw(input.resized),
        }
    }

    /// The state after a whole frame.
    pub open spec fn after_frame(self, input: FrameInput) -> FrameModel {
        if self.first_action(input.resized, input.window) is Skip {
            self.after_redraw(input.resized)
        } else {
            self.ready(input).after_acquire(input.outcome)
        }
    }

    /// What a whole frame draws.
    pub open spec fn drawn(self, input: FrameInput) -> Option<DrawPlan> {
        if self.first_action(input.resized, input.window) is Skip {
            None
        } else {
            self.ready(input).drawing(input.outcome)
        }
    }

    /// The state after whole frames, one after the other.
    pub open spec fn after_frames(self, inputs: Seq<FrameInput>) -> FrameModel
        decreases inputs.len(),
    {
        if inputs.len() == 0 {
            self
        } else {
            self.after_frames(inputs.drop_last()).after_frame(inputs.last())
        }
    }
}

/// A frame keeps the state well formed: the render image never loses its last pixel, however
/// small the window gets.
pub proof fn law_frame_keeps_wf(frames: FrameModel, input: FrameInput)
    requires
        frames.wf(),
    ensures
        frames.after_frame(input).wf(),
        frames.drawn(input) matches Some(plan) ==> plan.groups.width > 0 && plan.groups.height > 0,
{
}

/// An image is acquired only from a swapchain that is not waiting to be made again.
pub proof fn law_acquire_from_a_good_swapchain(frames: FrameModel, input: FrameInput)
    requires
        !input.window.is_blank(),
    ensures
        !frames.ready(input).recreate_swapchain,
{
}

/// A swapchain that is to be made again is made again in the first frame that draws anything,
/// however many frames before it draw nothing.
pub proof fn law_recreation_outlasts_skipped_frames(
    frames: FrameModel,
    skipped: Seq<FrameInput>,
    next: FrameInput,
)
    requires
        frames.recreate_swapchain,
        forall|k: int| 0 <= k < skipped.len() ==> (#[trigger] skipped[k]).window.is_blank(),
        !next.window.is_blank(),
    ensures
        frames.after_frames(skipped).recreate_swapchain,
        frames.after_frames(skipped).first_action(next.resized, next.window)
            == FrameAction::Recreate(next.window),
    decreases skipped.len(),
{
    if skipped.len() > 0 {
        let rest = skipped.drop_last();
        assert forall|k: int| 0 <= k < rest.len() implies (#[trigger] rest[k]).window.is_blank() by {
            assert(rest[k] == skipped[k]);
        }
        law_recreation_outlasts_skipped_frames(frames, rest, next);
        assert(skipped.last().window.is_blank());
    }
}

/// A swapchain that turned out not to match the window is made again in the next frame that
/// draws anything, however many frames in between draw nothing.
pub proof fn law_mismatch_recreates(
    frames: FrameModel,
    input: FrameInput,
    skipped: Seq<FrameInput>,
    next: FrameInput,
)
    requires
        !input.window.is_blank(),
        match input.outcome {
            AcquireOutcome::Acquired { suboptimal, .. } => suboptimal,
            AcquireOutcome::OutOfDate => true,
        },
        forall|k: int| 0 <= k < skipped.len() ==> (#[trigger] skipped[k]).window.is_blank(),
        !next.window.is_blank(),
    ensures
        frames.after_frame(input).after_frames(skipped).first_action(next.resized, next.window)
            == FrameAction::Recreate(next.window),
{
    law_recreation_outlasts_skipped_frames(frames.after_frame(input), skipped, next);
}

/// A resize is not lost while the window has no pixel: the swapchain is made again in the first
/// frame that draws anything, however long that takes.
pub proof fn law_resize_outlasts_skipped_frames(
    frames: FrameModel,
    skipped: Seq<FrameInput>,
    resize: int,
    next: FrameInput,
)
    requires
        0 <= resize < skipped.len(),
        skipped[resize].resized,
        forall|k: int| 0 <= k < skipped.len() ==> (#[trigger] skipped[k]).window.is_blank(),
        !next.window.is_blank(),
    ensures
        frames.after_frames(skipped).recreate_swapchain,
        frames.after_frames(skipped).first_action(next.resized, next.window)
            == FrameAction::Recreate(next.window),
    decreases skipped.len(),
{
    if resize < skipped.len() - 1 {
        let rest = skipped.drop_last();
        assert forall|k: int| 0 <= k < rest.len() implies (#[trigger] rest[k]).window.is_blank() by {
            assert(rest[k] == skipped[k]);
        }
        law_resize_outlasts_skipped_frames(frames, rest, resize, next);
    }
    assert(skipped.last().window.is_blank());
}

/// Frames that draw nothing leave the render image alone.
pub proof fn law_skipped_frames_change_no_image(frames: FrameModel, skipped: Seq<FrameInput>)
    requires
        forall|k: int| 0 <= k < skipped.len() ==> (#[trigger] skipped[k]).window.is_blank(),
    ensures
        frames.after_frames(skipped).render_extent == frames.render_extent,
    decreases skipped.len(),
{
    if skipped.len() > 0 {
        let rest = skipped.drop_last();
        assert forall|k: int| 0 <= k < rest.len() implies (#[trigger] rest[k]).window.is_blank() by {
            assert(rest[k] == skipped[k]);
        }
        law_skipped_frames_change_no_image(frames, rest);
        assert(skipped.last().window.is_blank());
    }
}

/// Whether every change of the window's size, from `start` on, is reported as a resize.
pub open spec fn reports_every_resize(start: Extent, inputs: Seq<FrameInput>) -> bool {
    forall|k: int|
        0 <= k < inputs.len() ==> (#[trigger] inputs[k]).resized || inputs[k].window == if k == 0 {
            start
        } else {
            inputs[k - 1].window
        }
}

/// If every change of the window's size is reported, every frame that is drawn has one work
/// group for each pixel of its window.
pub proof fn law_frames_fit_the_window(start: Extent, inputs: Seq<FrameInput>, k: int)
    requires
        !start.is_blank(),
        reports_every_resize(start, inputs),
        0 <= k < inputs.len(),
    ensures
        FrameModel::fresh(start).after_frames(inputs.take(k)).drawn(inputs[k]) matches Some(plan)
            ==> plan.groups == (Extent3 {
            width: inputs[k].window.width,
            height: inputs[k].window.height,
            depth: 1,
        }),
{
    lemma_keeps_up(start, inputs, k);
}

/// Before frame `k` the swapchain is to be made again, or the render image is as large as the
/// window last was.
proof fn lemma_keeps_up(start: Extent, inputs: Seq<FrameInput>, k: int)
    requires
        !start.is_blank(),
        reports_every_resize(start, inputs),
        0 <= k <= inputs.len(),
    ensures
        FrameModel::fresh(start).after_frames(inputs.take(k)).wf(),
        ({
            let frames = FrameModel::fresh(start).after_frames(inputs.take(k));
            frames.recreate_swapchain || frames.render_extent == if k == 0 {
                start
            } else {
                inputs[k - 1].window
            }
        }),
    decreases k,
{
    if k > 0 {
        lemma_keeps_up(start, inputs, k - 1);
        assert(inputs.take(k).drop_last() =~= inputs.take(k - 1));
        assert(inputs.take(k).last() == inputs[k - 1]);
    }
}

/// Whatever makes a redraw ask for a recreation, it asks for the size that the window has.
pub proof fn law_recreation_takes_the_size_of_the_window(
    frames: FrameModel,
    resized: bool,
    window: Extent,
)
    ensures
        frames.first_action(resized, window) matches FrameAction::Recreate(extent) ==> extent.width
            == window.width && extent.height == window.height,
{
}

/// A redraw does nothing exactly if the window has no pixel. Otherwise the swapchain is made again
/// if that was pending or the window was resized, and an image is acquired at once if neither is
/// so; the size of the render image has no part in it.
pub proof fn law_what_a_redraw_begins_with(
    frames: FrameModel,
    other: FrameModel,
    resized: bool,
    window: Extent,
)
    ensures
        window.width == 0 || window.height == 0 <==> frames.first_action(resized, window) is Skip,
        window.width > 0 && window.height > 0 && frames.recreate_swapchain ==> frames.first_action(
            resized,
            window,
        ) is Recreate,
        window.width > 0 && window.height > 0 ==> frames.first_action(true, window) is Recreate,
        frames.first_action(false, window) is Recreate ==> frames.recreate_swapchain,
        frames.recreate_swapchain == other.recreate_swapchain ==> frames.first_action(
            resized,
            window,
        ) == other.first_action(resized, window),
{
}

/// A redraw makes the swapchain again in the window's size or not at all. It leaves the render
/// image alone, and what is pending stays pending until the swapchain was made again.
pub proof fn law_redraw_asks_for_the_size_of_the_window(
    frames: &mut FrameLoop,
    resized: bool,
    window: Extent,
    r: FrameAction,
)
    requires
        old(frames)@.wf(),
        call_ensures(FrameLoop::redraw, (frames, resized, window), r),
    ensures
        r matches FrameAction::Recreate(extent) ==> extent.width == window.width && extent.height
            == window.height,
        r is Skip <==> window.width == 0 || window.height == 0,
        r is Acquire <==> window.width > 0 && window.height > 0 && !resized && !old(
            frames,
        )@.recreate_swapchain,
        final(frames)@.recreate_swapchain <==> resized || old(frames)@.recreate_swapchain,
        final(frames)@.render_extent.width == old(frames)@.render_extent.width,
        final(frames)@.render_extent.height == old(frames)@.render_extent.height,
{
}

/// A redraw that asks for a recreation, the recreation, and an image acquired after it: the frame
/// is drawn on that image, with one work group for each pixel of the window, into a render image of
/// exactly that size.
pub proof fn law_frame_after_a_recreation_fits_the_window(
    begun: &mut FrameLoop,
    recreated: &mut FrameLoop,
    drawn: &mut FrameLoop,
    resized: bool,
    window: Extent,
    extent: Extent,
    image_index: u32,
    suboptimal: bool,
    r: Option<DrawPlan>,
)
    requires
        old(begun)@.wf(),
        call_ensures(
            FrameLoop::redraw,
            (begun, resized, window),
            FrameAction::Recreate(extent),
        ),
        *old(recreated) == *final(begun),
        call_ensures(FrameLoop::recreated, (recreated, extent), ()),
        *old(drawn) == *final(recreated),
        is_readable(window),
        call_ensures(
            FrameLoop::acquired,
            (drawn, AcquireOutcome::Acquired { image_index, suboptimal }),
            r,
        ),
    ensures
        r matches Some(plan) && plan.image_index == image_index && plan.groups.width == window.width
            && plan.groups.height == window.height && plan.groups.depth == 1 && plan.groups
            == render_image_of(window).extent && plan.readback_len == render_image_of(
            window,
        ).byte_len(),
        final(drawn)@.recreate_swapchain <==> suboptimal,
        final(drawn)@.render_extent == window,
{
    let whole = window.width * window.height;
    assert(whole * 1 * 4 == whole * 4);
}

/// Once the swapchain was made again nothing is pending: a redraw of the same window acquires an
/// image at once, unless the window is resized again.
pub proof fn law_recreation_settles_what_was_pending(
    recreated: &mut FrameLoop,
    next: &mut FrameLoop,
    extent: Extent,
    window: Extent,
    r: FrameAction,
)
    requires
        !extent.is_blank(),
        !window.is_blank(),
        call_ensures(FrameLoop::recreated, (recreated, extent), ()),
        *old(next) == *final(recreated),
        call_ensures(FrameLoop::redraw, (next, false, window), r),
    ensures
        r is Acquire,
        final(next)@.render_extent == extent,
{
}

/// A new window is drawn at once, in the size that it was opened with.
pub proof fn law_new_window_is_drawn_at_once(
    extent: Extent,
    opened: FrameLoop,
    begun: &mut FrameLoop,
    window: Extent,
    r: FrameAction,
    size: Extent,
)
    requires
        !extent.is_blank(),
        !window.is_blank(),
        call_ensures(FrameLoop::new, (extent,), opened),
        call_ensures(FrameLoop::render_extent, (&opened,), size),
        *old(begun) == opened,
        call_ensures(FrameLoop::redraw, (begun, false, window), r),
    ensures
        r is Acquire,
        size.width == extent.width && size.height == extent.height,
{
}

/// An image that was acquired is drawn on, whether or not the swapchain still matches the window
/// well; without an image nothing is drawn. There is a work group for each texel of the render
/// image and a byte to read back for each of its bytes.
pub proof fn law_what_is_acquired_is_drawn_on(
    frames: &mut FrameLoop,
    outcome: AcquireOutcome,
    r: Option<DrawPlan>,
)
    requires
        old(frames)@.wf(),
        is_readable(old(frames)@.render_extent),
        call_ensures(FrameLoop::acquired, (frames, outcome), r),
    ensures
        r is None <==> outcome is OutOfDate,
        outcome matches AcquireOutcome::Acquired { image_index, .. } ==> r matches Some(plan)
            && plan.image_index == image_index && plan.groups == render_image_of(
            old(frames)@.render_extent,
        ).extent && plan.readback_len == render_image_of(old(frames)@.render_extent).byte_len(),
        final(frames)@.render_extent == old(frames)@.render_extent,
{
    let extent = frames@.render_extent;
    let whole = extent.width * extent.height;
    assert(whole * 1 * 4 == whole * 4);
}

/// A swapchain that did not match the window is made again in the next frame that draws anything;
/// one that did match, and that was not to be made again, is kept if the window keeps its size.
pub proof fn law_only_a_mismatch_recreates(
    frames: &mut FrameLoop,
    next: &mut FrameLoop,
    outcome: AcquireOutcome,
    drawn: Option<DrawPlan>,
    window: Extent,
    r: FrameAction,
)
    requires
        old(frames)@.wf(),
        !window.is_blank(),
        call_ensures(FrameLoop::acquired, (frames, outcome), drawn),
        *old(next) == *final(frames),
        call_ensures(FrameLoop::redraw, (next, false, window), r),
    ensures
        match outcome {
            AcquireOutcome::OutOfDate => r == FrameAction::Recreate(window),
            AcquireOutcome::Acquired { suboptimal, .. } => if suboptimal {
                r == FrameAction::Recreate(window)
            } else {
                !old(frames)@.recreate_swapchain ==> r is Acquire
            },
        },
{
}

/// The work groups of a drawn frame are the texels of the render image that the frame is drawn
/// into, and the bytes read back are its bytes.
pub proof fn law_work_groups_cover_the_render_image(frames: FrameModel, input: FrameInput)
    requires
        is_readable(frames.ready(input).render_extent),
    ensures
        frames.drawn(input) matches Some(plan) ==> plan.groups == render_image_of(
            frames.ready(input).render_extent,
        ).extent && plan.readback_len == render_image_of(
            frames.ready(input).render_extent,
        ).byte_len(),
{
    let extent = frames.ready(input).render_extent;
    let whole = extent.width * extent.height;
    assert(whole * 1 * 4 == whole * 4);
}

/// A frame draws exactly if the window has a pixel and an image was acquired, and it draws on that
/// image.
pub proof fn law_when_a_frame_draws(frames: FrameModel, input: FrameInput)
    ensures
        frames.drawn(input) is Some <==> input.window.width > 0 && input.window.height > 0
            && input.outcome is Acquired,
        frames.drawn(input) matches Some(plan) ==> match input.outcome {
            AcquireOutcome::Acquired { image_index, .. } => plan.image_index == image_index,
            AcquireOutcome::OutOfDate => false,
        },
{
}

} // verus!
