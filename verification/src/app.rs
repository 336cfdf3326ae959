//! The state of the program and what it does with the events of the window.

use vstd::prelude::*;
use winit::event::{DeviceEvent, WindowEvent};
use winit_input_helper::WinitInputHelper;

use crate::controls::{
    actions_of, asks_for, grab_after, law_actions_are_what_is_asked_for, update, UpdateAction,
};
use crate::event::{
    fits, marks_after, motion, move_of, moves_mouse, process_device_event, process_window_event,
    read_event, signals_after, tells_size, told, travel_after, travel_moved, travel_told, Told,
    NUMBERED_BUTTONS,
};
use crate::extent::Extent;
use crate::frame::{AcquireOutcome, DrawPlan, FrameAction, FrameLoop, FrameModel};
use crate::image::{
    is_readable, is_scene, law_scene_fills_the_voxel_image, render_image, render_image_of,
    scene_voxels, voxel_image, voxel_image_plan, ImagePlan, TEXEL_BYTES,
};
use crate::input::{
    end_step, held_of, is_number, is_resized, marks, marks_at_end, marks_at_start, mouse_diff,
    new_input, shows_travel, signals, snapshot_of, step, travel, window_resized, Button,
    InputSnapshot, Key, Mark, Signal,
};

verus! {

/// What a window needs to be drawn in, besides its swapchain.
#[derive(Debug)]
pub struct ContextPlan {
    pub render_image: ImagePlan,
    pub voxel_image: ImagePlan,
    /// What the voxel image is filled with.
    pub voxels: Vec<u32>,
}

/// The state of the program.
pub struct App {
    /// The events of the current step.
    pub input: WinitInputHelper,
    /// Whether the window has the focus.
    pub is_focused: bool,
    /// How frames are drawn, once there is a window.
    pub frames: Option<FrameLoop>,
    /// Whether the view is grabbed.
    pub is_grab: bool,
}

impl App {
    /// The state of the window's frames, once there is a window.
    pub open spec fn frame_state(self) -> Option<FrameModel> {
        match self.frames {
            None => None,
            Some(frames) => Some(frames@),
        }
    }

    pub open spec fn wf(self) -> bool {
        &&& self.frame_state() matches Some(frames) ==> frames.wf()
        &&& self.is_focused == marks(self.input).contains(Mark::Focused)
    }

    /// Whether the input has room for the event.
    pub open spec fn takes(self, event: WindowEvent) -> bool {
        self.is_focused ==> fits(told(event))
    }

    /// A program without a window.
    pub fn new() -> (r: App)
        ensures
            r.wf(),
            signals(r.input) == Set::<Signal>::empty(),
            marks(r.input) == set![Mark::Focused],
            travel(r.input) == Seq::<u32>::empty(),
            r.frame_state() is None,
            !r.is_grab,
    {
        App { input: new_input(), is_focused: true, frames: None, is_grab: false }
    }

    /// Takes a new window of this size, in place of any earlier one.
    pub fn resumed(&mut self, window: Extent) -> (r: ContextPlan)
        requires
            old(self).wf(),
            !window.is_blank(),
        ensures
            final(self).wf(),
            final(self).frame_state() == Some(FrameModel::fresh(window)),
            final(self).input == old(self).input,
            final(self).is_grab == old(self).is_grab,
            r.render_image == render_image_of(window),
            r.voxel_image == voxel_image_plan(),
            is_scene(r.voxels@),
    {
        self.frames = Some(FrameLoop::new(window));
        ContextPlan {
            render_image: render_image(window),
            voxel_image: voxel_image(),
            voxels: scene_voxels(),
        }
    }

    /// Begins a step of input.
    pub fn new_events(&mut self)
        requires
            old(self).wf(),
        ensures
            final(self).wf(),
            signals(final(self).input) == held_of(signals(old(self).input)),
            marks(final(self).input) == marks_at_start(marks(old(self).input)),
            travel(final(self).input) == Seq::<u32>::empty(),
            final(self).frame_state() == old(self).frame_state(),
            final(self).is_grab == old(self).is_grab,
    {
        step(&mut self.input);
    }

    /// Whether the input has room for the event.
    pub fn can_take(&self, event: &WindowEvent) -> (r: bool)
        ensures
            r == self.takes(*event),
    {
        match read_event(event) {
            Some(Told::OtherButton(number)) => {
                proof {
                    assert(told(*event).contains(Told::OtherButton(number)));
                }
                !self.is_focused || number < NUMBERED_BUTTONS
            },
            _ => true,
        }
    }

    /// Takes an event of the window and tells whether to draw a frame. An event that the user
    /// interface keeps for itself does not reach the input; a frame that it asks for is drawn all
    /// the same.
    pub fn window_event(&mut self, event: &WindowEvent, used_by_gui: bool) -> (r: bool)
        requires
            old(self).wf(),
            old(self).frame_state() is Some,
            used_by_gui || old(self).takes(*event),
        ensures
            final(self).wf(),
            final(self).frame_state() == old(self).frame_state(),
            final(self).is_grab == old(self).is_grab,
            used_by_gui ==> final(self).input == old(self).input,
            !used_by_gui ==> signals(final(self).input) == signals_after(
                signals(old(self).input),
                marks(old(self).input).contains(Mark::Focused),
                told(*event),
            ),
            !used_by_gui ==> marks(final(self).input) == marks_after(
                marks(old(self).input),
                told(*event),
            ),
            !used_by_gui ==> travel(final(self).input) == travel_told(
                travel(old(self).input),
                told(*event),
            ),
            r == told(*event).contains(Told::RedrawRequested),
    {
        let read = read_event(event);
        if !used_by_gui {
            process_window_event(&mut self.input, event);
            if let Some(Told::Focused(focused)) = read {
                self.is_focused = focused;
            }
        }
        match read {
            Some(Told::RedrawRequested) => true,
            _ => false,
        }
    }

    /// Takes an event of a device.
    pub fn device_event(&mut self, event: &DeviceEvent)
        requires
            old(self).wf(),
        ensures
            final(self).wf(),
            final(self).frame_state() == old(self).frame_state(),
            final(self).is_grab == old(self).is_grab,
            signals(final(self).input) == signals(old(self).input),
            marks(final(self).input) == marks(old(self).input),
            travel(final(self).input) == travel_moved(
                travel(old(self).input),
                marks(old(self).input).contains(Mark::Focused),
                motion(*event),
            ),
    {
        process_device_event(&mut self.input, event);
    }

    /// Acts on the input of the step.
    pub fn update(&mut self) -> (r: Vec<UpdateAction>)
        requires
            old(self).wf(),
        ensures
            final(self).wf(),
            final(self).input == old(self).input,
            final(self).frame_state() == old(self).frame_state(),
            final(self).is_grab == grab_after(
                old(self).is_grab,
                snapshot_of(signals(old(self).input)),
            ),
            r@ == actions_of(old(self).is_grab, snapshot_of(signals(old(self).input))),
    {
        let snapshot = InputSnapshot::read(&self.input);
        let (is_grab, actions) = update(self.is_grab, &snapshot);
        self.is_grab = is_grab;
        actions
    }

    /// Ends the step of input, acts on it, then has the window drawn again, even if the program
    /// is to end.
    pub fn about_to_wait(&mut self) -> (r: Vec<UpdateAction>)
        requires
            old(self).wf(),
        ensures
            final(self).wf(),
            signals(final(self).input) == signals(old(self).input),
            marks(final(self).input) == marks_at_end(marks(old(self).input)),
            travel(final(self).input) == travel(old(self).input),
            final(self).frame_state() == old(self).frame_state(),
            final(self).is_grab == grab_after(
                old(self).is_grab,
                snapshot_of(signals(old(self).input)),
            ),
            r@ == actions_of(old(self).is_grab, snapshot_of(signals(old(self).input))).push(
                UpdateAction::RequestRedraw,
            ),
    {
        end_step(&mut self.input);
        let mut actions = self.update();
        actions.push(UpdateAction::RequestRedraw);
        actions
    }

    /// How far the mouse moved in the step, to the side and down, by the bits of the two numbers.
    /// The view turns by as much.
    pub fn mouse_diff(&self) -> (r: (u32, u32))
        ensures
            shows_travel(r, travel(self.input)),
    {
        mouse_diff(&self.input)
    }

    /// Begins a frame in a window of this size.
    pub fn redraw(&mut self, window: Extent) -> (r: FrameAction)
        requires
            old(self).wf(),
            old(self).frame_state() is Some,
        ensures
            final(self).wf(),
            final(self).input == old(self).input,
            final(self).is_grab == old(self).is_grab,
            final(self).frame_state() == Some(
                old(self).frame_state()->0.after_redraw(is_resized(signals(old(self).input))),
            ),
            r == old(self).frame_state()->0.first_action(is_resized(signals(old(self).input)), window),
    {
        let resized = window_resized(&self.input);
        proof {
            if let Some(size) = resized {
                assert(signals(self.input).contains(Signal::Resized(size)));
            }
        }
        match &mut self.frames {
            Some(frames) => frames.redraw(resized.is_some(), window),
            None => FrameAction::Skip,
        }
    }

    /// Notes that the swapchain and the render image were made again, in this size.
    pub fn recreated(&mut self, extent: Extent)
        requires
            old(self).wf(),
            old(self).frame_state() is Some,
            !extent.is_blank(),
        ensures
            final(self).wf(),
            final(self).input == old(self).input,
            final(self).is_grab == old(self).is_grab,
            final(self).frame_state() == Some(FrameModel::fresh(extent)),
    {
        match &mut self.frames {
            Some(frames) => frames.recreated(extent),
            None => {},
        }
    }

    /// Goes on with the frame once the swapchain was asked for an image.
    pub fn acquired(&mut self, outcome: AcquireOutcome) -> (r: Option<DrawPlan>)
        requires
            old(self).wf(),
            old(self).frame_state() is Some,
            outcome is Acquired ==> is_readable(old(self).frame_state()->0.render_extent),
        ensures
            final(self).wf(),
            final(self).input == old(self).input,
            final(self).is_grab == old(self).is_grab,
            final(self).frame_state() == Some(old(self).frame_state()->0.after_acquire(outcome)),
            r == old(self).frame_state()->0.drawing(outcome),
    {
        match &mut self.frames {
            Some(frames) => frames.acquired(outcome),
            None => None,
        }
    }
}

/// A new program has no window, has not grabbed the view, and takes the window to have the focus.
/// Ending its first step at once does nothing but have the window drawn.
pub proof fn law_new_program_is_idle(app: App, first: &mut App, r: Vec<UpdateAction>)
    requires
        call_ensures(App::new, (), app),
        *old(first) == app,
        call_ensures(App::about_to_wait, (first,), r),
    ensures
        app.frames is None,
        app.is_focused,
        !app.is_grab,
        r@ == seq![UpdateAction::RequestRedraw],
        !final(first).is_grab,
{
    let read = snapshot_of(signals(app.input));
    law_actions_are_what_is_asked_for(false, read);
    let actions = actions_of(false, read);
    if actions.len() > 0 {
        assert(actions.contains(actions[0]));
    }
    assert(r@ =~= seq![UpdateAction::RequestRedraw]);
}

/// A new window has a render image of its size, the scene in its voxel image, and a swapchain that
/// is not to be made again. The input and the grab stay as they are.
pub proof fn law_new_window_is_ready(
    app: &mut App,
    window: Extent,
    r: ContextPlan,
    rendered: ImagePlan,
    voxels: ImagePlan,
)
    requires
        old(app).wf(),
        !window.is_blank(),
        call_ensures(App::resumed, (app, window), r),
        call_ensures(render_image, (window,), rendered),
        call_ensures(voxel_image, (), voxels),
    ensures
        r.render_image == rendered,
        r.render_image.extent.width == window.width && r.render_image.extent.height
            == window.height,
        r.voxel_image == voxels,
        r.voxels@.len() * TEXEL_BYTES == r.voxel_image.byte_len(),
        final(app).frame_state() matches Some(frames) && frames.render_extent == window
            && !frames.recreate_swapchain,
        final(app).input == old(app).input,
        final(app).is_grab == old(app).is_grab,
{
    law_scene_fills_the_voxel_image(r.voxels@);
}

/// The end of a step asks for what the step asks for, and then, last and once, for the window to
/// be drawn, even if the program is to end.
pub proof fn law_every_step_ends_with_a_redraw(
    app: &mut App,
    same: &mut App,
    r: Vec<UpdateAction>,
    asked: Vec<UpdateAction>,
)
    requires
        old(app).wf(),
        *old(same) == *old(app),
        call_ensures(App::about_to_wait, (app,), r),
        call_ensures(App::update, (same,), asked),
    ensures
        r@.len() == asked@.len() + 1,
        r@.last() == UpdateAction::RequestRedraw,
        r@.drop_last() == asked@,
        !asked@.contains(UpdateAction::RequestRedraw),
        final(app).is_grab == final(same).is_grab,
{
    law_actions_are_what_is_asked_for(app.is_grab, snapshot_of(signals(app.input)));
    assert(r@.drop_last() =~= asked@);
}

/// A step with one event of the window: it asks for the end of the program exactly if the event
/// asks the window to close and the user interface does not keep it. It grabs the view only if the
/// left button goes down, lets it go only if that button goes up, and otherwise turns it exactly if
/// it is grabbed.
pub proof fn law_what_one_event_can_do(
    begun: &mut App,
    heard: &mut App,
    ended: &mut App,
    event: WindowEvent,
    used_by_gui: bool,
    draws: bool,
    r: Vec<UpdateAction>,
)
    requires
        old(begun).wf(),
        old(begun).frame_state() is Some,
        call_ensures(App::new_events, (begun,), ()),
        *old(heard) == *final(begun),
        used_by_gui || old(heard).takes(event),
        call_ensures(App::window_event, (heard, &event, used_by_gui), draws),
        *old(ended) == *final(heard),
        call_ensures(App::about_to_wait, (ended,), r),
    ensures
        r@.contains(UpdateAction::Exit) <==> !used_by_gui && told(event).contains(
            Told::CloseRequested,
        ),
        final(ended).is_grab && !old(begun).is_grab ==> !used_by_gui && told(event).contains(
            Told::ButtonDown(Button::Left),
        ),
        old(begun).is_grab && !final(ended).is_grab ==> !used_by_gui && told(event).contains(
            Told::ButtonUp(Button::Left),
        ),
        r@.contains(UpdateAction::Turn) <==> final(ended).is_grab && !r@.contains(
            UpdateAction::Exit,
        ),
        r@.contains(UpdateAction::RequestRedraw),
        draws <==> told(event).contains(Told::RedrawRequested),
        final(ended).frame_state() == old(begun).frame_state(),
{
    lemma_what_a_step_asks_for(ended, r);
}

/// A step with one event of the window that has the focus: the left button going down grabs the
/// view, and going up lets it go. A key going down makes its move, and so does one that was down
/// before and does not go up, unless the focus is lost or the window is to close; no other key
/// does.
pub proof fn law_what_one_event_does(
    begun: &mut App,
    heard: &mut App,
    ended: &mut App,
    event: WindowEvent,
    what: Told,
    draws: bool,
    r: Vec<UpdateAction>,
    key: Key,
)
    requires
        old(begun).wf(),
        old(begun).frame_state() is Some,
        old(begun).is_focused,
        call_ensures(App::new_events, (begun,), ()),
        *old(heard) == *final(begun),
        old(heard).takes(event),
        told(event) == set![what],
        call_ensures(App::window_event, (heard, &event, false), draws),
        *old(ended) == *final(heard),
        call_ensures(App::about_to_wait, (ended,), r),
    ensures
        what == Told::ButtonDown(Button::Left) ==> final(ended).is_grab,
        what == Told::ButtonUp(Button::Left) ==> !final(ended).is_grab,
        r@.contains(UpdateAction::GrabStarted) <==> what == Told::ButtonDown(Button::Left),
        r@.contains(UpdateAction::GrabEnded) <==> what == Told::ButtonUp(Button::Left),
        r@.contains(UpdateAction::Move(move_of(key))) <==> what == Told::KeyDown(key) || (signals(
            old(begun).input,
        ).contains(Signal::KeyHeld(key)) && what != Told::KeyUp(key) && what != Told::Focused(false)
            && what != Told::CloseRequested),
{
    lemma_what_a_step_asks_for(ended, r);
}

/// The end of a step asks for what the input asks for, and for the window to be drawn.
proof fn lemma_what_a_step_asks_for(ended: &mut App, r: Vec<UpdateAction>)
    requires
        call_ensures(App::about_to_wait, (ended,), r),
    ensures
        forall|action: UpdateAction| #[trigger]
            r@.contains(action) <==> action == UpdateAction::RequestRedraw || asks_for(
                old(ended).is_grab,
                snapshot_of(signals(old(ended).input)),
                action,
            ),
{
    let read = snapshot_of(signals(ended.input));
    let actions = actions_of(ended.is_grab, read);
    law_actions_are_what_is_asked_for(ended.is_grab, read);
    assert forall|action: UpdateAction| #[trigger]
        r@.contains(action) == (actions.contains(action) || action
            == UpdateAction::RequestRedraw) by {
        if actions.contains(action) {
            let i = actions.index_of(action);
            assert(r@[i] == action);
        }
        if r@.contains(action) {
            let i = r@.index_of(action);
            if i < actions.len() {
                assert(actions[i] == action);
            }
        }
        assert(r@[actions.len() as int] == UpdateAction::RequestRedraw);
    }
}

/// The end of a step loses nothing of its input: the signals, the movement of the mouse and the
/// focus are there afterwards. A step that was begun then has a duration.
pub proof fn law_the_end_of_a_step_loses_nothing(
    begun: &mut App,
    ended: &mut App,
    r: Vec<UpdateAction>,
)
    requires
        old(ended).wf(),
        call_ensures(App::about_to_wait, (ended,), r),
        old(begun).wf(),
        call_ensures(App::new_events, (begun,), ()),
    ensures
        signals(final(ended).input) == signals(old(ended).input),
        travel(final(ended).input) == travel(old(ended).input),
        final(ended).is_focused == old(ended).is_focused,
        *old(ended) == *final(begun) ==> marks(final(ended).input).contains(Mark::Timed),
        !marks(final(begun).input).contains(Mark::Timed),
        final(begun).is_focused == old(begun).is_focused,
        final(begun).frame_state() == old(begun).frame_state(),
{
}

/// An event that the user interface keeps leaves everything as it is; a frame that it asks for is
/// drawn all the same.
pub proof fn law_the_user_interface_keeps_its_events(
    app: &mut App,
    event: WindowEvent,
    draws: bool,
)
    requires
        old(app).wf(),
        old(app).frame_state() is Some,
        call_ensures(App::window_event, (app, &event, true), draws),
    ensures
        final(app).input == old(app).input,
        final(app).is_focused == old(app).is_focused,
        final(app).is_grab == old(app).is_grab,
        final(app).frame_state() == old(app).frame_state(),
        draws <==> told(event).contains(Told::RedrawRequested),
{
}

/// An event of a device changes nothing that the controls read: the step asks for the same with it
/// as without it.
pub proof fn law_device_events_steer_nothing(
    app: &mut App,
    with: &mut App,
    without: &mut App,
    event: DeviceEvent,
    r_with: Vec<UpdateAction>,
    r_without: Vec<UpdateAction>,
)
    requires
        old(app).wf(),
        call_ensures(App::device_event, (app, &event), ()),
        *old(with) == *final(app),
        *old(without) == *old(app),
        call_ensures(App::about_to_wait, (with,), r_with),
        call_ensures(App::about_to_wait, (without,), r_without),
    ensures
        r_with@ == r_without@,
        final(with).is_grab == final(without).is_grab,
        final(with).frame_state() == final(without).frame_state(),
{
}

/// The mouse has not moved when a step begins. Ending the step leaves the movement as it is.
pub proof fn law_a_step_begins_without_movement(
    begun: &mut App,
    ended: &mut App,
    actions: Vec<UpdateAction>,
    shown: (u32, u32),
)
    requires
        old(begun).wf(),
        call_ensures(App::new_events, (begun,), ()),
        *old(ended) == *final(begun),
        call_ensures(App::about_to_wait, (ended,), actions),
        call_ensures(App::mouse_diff, (&*final(ended),), shown),
    ensures
        shown == (0u32, 0u32),
{
}

/// There is room for an event without the focus, and with it for any but that of a button without
/// a name whose number is 250 or more.
pub proof fn law_which_events_can_be_taken(app: App, event: WindowEvent, r: bool, number: u16)
    requires
        call_ensures(App::can_take, (&app, &event), r),
    ensures
        !app.is_focused ==> r,
        r && app.is_focused && told(event).contains(Told::OtherButton(number)) ==> number < 250,
        (forall|n: u16| #[trigger] told(event).contains(Told::OtherButton(n)) ==> n < 250) ==> r,
        r == app.takes(event),
{
}

/// A window that was given a size in the step gets a new swapchain of the size that it has, unless
/// it has no pixel, and then the new swapchain stays pending; without a size, and with nothing
/// pending, an image is acquired at once.
pub proof fn law_a_resize_makes_the_swapchain_again(
    told_app: &mut App,
    drawn: &mut App,
    event: WindowEvent,
    draws: bool,
    size: Extent,
    window: Extent,
    r: FrameAction,
)
    requires
        old(told_app).wf(),
        old(told_app).frame_state() is Some,
        old(told_app).takes(event),
        call_ensures(App::window_event, (told_app, &event, false), draws),
        *old(drawn) == *final(told_app),
        call_ensures(App::redraw, (drawn, window), r),
    ensures
        window.width == 0 || window.height == 0 <==> r is Skip,
        told(event).contains(Told::Resized(size)) && window.width > 0 && window.height > 0 ==> r
            == FrameAction::Recreate(window),
        r matches FrameAction::Recreate(extent) ==> extent.width == window.width && extent.height
            == window.height,
        (forall|other: Extent| !#[trigger] told(event).contains(Told::Resized(other)))
            && !is_resized(signals(old(told_app).input)) && !old(
            told_app,
        ).frame_state()->0.recreate_swapchain && window.width > 0 && window.height > 0 ==> r
            is Acquire,
        told(event).contains(Told::Resized(size)) || old(
            told_app,
        ).frame_state()->0.recreate_swapchain
            ==> final(drawn).frame_state()->0.recreate_swapchain,
        final(drawn).frame_state()->0.render_extent == old(
            told_app,
        ).frame_state()->0.render_extent,
        final(drawn).is_grab == old(told_app).is_grab,
        final(drawn).input == final(told_app).input,
{
    if told(event).contains(Told::Resized(size)) {
        assert(tells_size(told(event)));
        assert(signals(drawn.input).contains(Signal::Resized(size)));
    }
    if forall|other: Extent| !#[trigger] told(event).contains(Told::Resized(other)) {
        assert(!tells_size(told(event)));
        if is_resized(signals(drawn.input)) {
            let last = choose|last: Extent| signals(drawn.input).contains(Signal::Resized(last));
            assert(signals(told_app.input).contains(Signal::Resized(last)));
        }
    }
}

/// A frame that begins with a recreation, in the program as a whole: the image that is acquired
/// afterwards is drawn on, with one work group for each pixel of the window and four bytes to read
/// back for each. The input and the grab stay as they are.
pub proof fn law_a_frame_fits_the_window(
    begun: &mut App,
    recreated: &mut App,
    drawn: &mut App,
    window: Extent,
    extent: Extent,
    image_index: u32,
    suboptimal: bool,
    r: Option<DrawPlan>,
)
    requires
        old(begun).wf(),
        old(begun).frame_state() is Some,
        is_readable(window),
        call_ensures(App::redraw, (begun, window), FrameAction::Recreate(extent)),
        *old(recreated) == *final(begun),
        call_ensures(App::recreated, (recreated, extent), ()),
        *old(drawn) == *final(recreated),
        call_ensures(
            App::acquired,
            (drawn, AcquireOutcome::Acquired { image_index, suboptimal }),
            r,
        ),
    ensures
        r matches Some(plan) && plan.image_index == image_index && plan.groups.width == window.width
            && plan.groups.height == window.height && plan.groups.depth == 1 && plan.readback_len
            == 4 * (window.width * window.height),
        final(drawn).frame_state() matches Some(frames) && frames.render_extent == window && (
        frames.recreate_swapchain <==> suboptimal),
        final(drawn).input == old(begun).input,
        final(drawn).is_grab == old(begun).is_grab,
{
    assert(window.width * window.height * 4 == 4 * (window.width * window.height))
        by (nonlinear_arith);
}

/// Without an image the frame is given up, and the swapchain is made again, in the window's size,
/// in the next frame that draws anything.
pub proof fn law_an_outdated_swapchain_is_replaced(
    failed: &mut App,
    next: &mut App,
    drawn: Option<DrawPlan>,
    window: Extent,
    r: FrameAction,
)
    requires
        old(failed).wf(),
        old(failed).frame_state() is Some,
        !window.is_blank(),
        call_ensures(App::acquired, (failed, AcquireOutcome::OutOfDate), drawn),
        *old(next) == *final(failed),
        call_ensures(App::redraw, (next, window), r),
    ensures
        drawn is None,
        r == FrameAction::Recreate(window),
        final(failed).frame_state()->0.render_extent == old(failed).frame_state()->0.render_extent,
{
}

/// The movement is shown as it is: to the side first, then down.
pub proof fn law_the_movement_is_shown_as_it_is(app: App, r: (u32, u32))
    requires
        call_ensures(App::mouse_diff, (&app,), r),
    ensures
        travel(app.input).len() == 0 ==> r.0 == 0 && r.1 == 0,
        travel(app.input).len() > 0 && is_number(travel(app.input)[0]) ==> r.0 == travel(
            app.input,
        )[0],
        travel(app.input).len() > 0 && is_number(travel(app.input)[1]) ==> r.1 == travel(
            app.input,
        )[1],
{
}

/// A motion of the mouse is added to the movement while the window has the focus. Any other event
/// of a device, and any event without the focus, leaves the movement as it is.
pub proof fn law_motions_count_while_focused(app: &mut App, event: DeviceEvent, moves: bool)
    requires
        old(app).wf(),
        call_ensures(moves_mouse, (&event,), moves),
        call_ensures(App::device_event, (app, &event), ()),
    ensures
        moves && old(app).is_focused ==> travel(final(app).input) == travel_after(
            travel(old(app).input),
            motion(event),
        ),
        !moves || !old(app).is_focused ==> travel(final(app).input) == travel(old(app).input),
        moves <==> motion(event).len() == 2,
        final(app).is_focused == old(app).is_focused,
{
}

/// Only an event about the focus that reaches the input changes whether the program takes the
/// window to have the focus, and then to what the event says. When the focus is lost the movement
/// of the mouse is forgotten; no other event of the window touches it.
pub proof fn law_the_focus_is_where_the_last_event_put_it(
    app: &mut App,
    event: WindowEvent,
    used_by_gui: bool,
    draws: bool,
    gained: bool,
)
    requires
        old(app).wf(),
        old(app).frame_state() is Some,
        used_by_gui || old(app).takes(event),
        call_ensures(App::window_event, (app, &event, used_by_gui), draws),
    ensures
        !used_by_gui && told(event) == set![Told::Focused(gained)] ==> final(app).is_focused
            == gained,
        used_by_gui || (!told(event).contains(Told::Focused(true)) && !told(event).contains(
            Told::Focused(false),
        )) ==> final(app).is_focused == old(app).is_focused,
        used_by_gui || !told(event).contains(Told::Focused(false)) ==> travel(final(app).input)
            == travel(old(app).input),
        !used_by_gui && told(event).contains(Told::Focused(false)) ==> travel(
            final(app).input,
        ).len() == 0,
{
}

} // verus!
