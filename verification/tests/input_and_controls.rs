use voxel_ray_traversal::app::App;
use voxel_ray_traversal::controls::{
    update, CameraAxis, CameraMove, Course, UpdateAction, TURN_PITCH_DEGREES, TURN_PIXELS,
    TURN_YAW_DEGREES,
};
use voxel_ray_traversal::event::{moves_mouse, read_event, Told};
use voxel_ray_traversal::extent::Extent;
use voxel_ray_traversal::frame::{AcquireOutcome, FrameAction};
use voxel_ray_traversal::input::{Button, InputSnapshot};
use winit::dpi::PhysicalSize;
use winit::event::{DeviceEvent, DeviceId, ElementState, MouseButton, WindowEvent};
use winit_input_helper::WinitInputHelper;

fn still() -> InputSnapshot {
    InputSnapshot {
        close_requested: false,
        forward: false,
        backward: false,
        left: false,
        right: false,
        down: false,
        up: false,
        grab_pressed: false,
        grab_released: false,
    }
}

fn mouse(state: ElementState, button: MouseButton) -> WindowEvent {
    WindowEvent::MouseInput { device_id: DeviceId::dummy(), state, button }
}

fn motion(dx: f64, dy: f64) -> DeviceEvent {
    DeviceEvent::MouseMotion { delta: (dx, dy) }
}

fn moved(app: &App) -> (f32, f32) {
    let (dx, dy) = app.mouse_diff();
    (f32::from_bits(dx), f32::from_bits(dy))
}

fn running(width: u32, height: u32) -> App {
    let mut app = App::new();
    app.resumed(Extent { width, height });
    app
}

#[test]
fn a_still_step_asks_for_nothing() {
    assert_eq!(update(false, &still()), (false, vec![]));
    assert_eq!(update(true, &still()), (true, vec![UpdateAction::Turn]));
}

#[test]
fn each_key_makes_its_move() {
    let moves = [
        (InputSnapshot { forward: true, ..still() }, CameraMove::Forward),
        (InputSnapshot { backward: true, ..still() }, CameraMove::Backward),
        (InputSnapshot { left: true, ..still() }, CameraMove::Left),
        (InputSnapshot { right: true, ..still() }, CameraMove::Right),
        (InputSnapshot { down: true, ..still() }, CameraMove::Down),
        (InputSnapshot { up: true, ..still() }, CameraMove::Up),
    ];
    for (input, made) in moves {
        assert_eq!(update(false, &input), (false, vec![UpdateAction::Move(made)]));
    }
}

#[test]
fn everything_at_once_is_done_in_order() {
    let all = InputSnapshot {
        close_requested: false,
        forward: true,
        backward: true,
        left: true,
        right: true,
        down: true,
        up: true,
        grab_pressed: true,
        grab_released: false,
    };
    let moves = vec![
        UpdateAction::Move(CameraMove::Forward),
        UpdateAction::Move(CameraMove::Backward),
        UpdateAction::Move(CameraMove::Left),
        UpdateAction::Move(CameraMove::Right),
        UpdateAction::Move(CameraMove::Down),
        UpdateAction::Move(CameraMove::Up),
        UpdateAction::GrabStarted,
        UpdateAction::Turn,
    ];
    assert_eq!(update(false, &all), (true, moves));
}

#[test]
fn closing_leaves_everything_else_undone() {
    let closing = InputSnapshot {
        close_requested: true,
        forward: true,
        grab_pressed: true,
        grab_released: true,
        ..still()
    };
    assert_eq!(update(true, &closing), (true, vec![UpdateAction::Exit]));
    assert_eq!(update(false, &closing), (false, vec![UpdateAction::Exit]));
}

#[test]
fn a_release_counts_for_more_than_a_press() {
    let click = InputSnapshot { grab_pressed: true, grab_released: true, ..still() };
    let told = vec![UpdateAction::GrabStarted, UpdateAction::GrabEnded];
    assert_eq!(update(false, &click), (false, told.clone()));
    assert_eq!(update(true, &click), (false, told));
}

#[test]
fn a_drag_lasts_until_the_release() {
    let press = InputSnapshot { grab_pressed: true, ..still() };
    let release = InputSnapshot { grab_released: true, ..still() };
    let (grab, actions) = update(false, &press);
    assert_eq!((grab, actions), (true, vec![UpdateAction::GrabStarted, UpdateAction::Turn]));
    for _ in 0..3 {
        assert_eq!(update(true, &still()), (true, vec![UpdateAction::Turn]));
    }
    assert_eq!(update(true, &release), (false, vec![UpdateAction::GrabEnded]));
    assert_eq!(update(false, &still()), (false, vec![]));
}

#[test]
fn a_new_helper_shows_nothing() {
    assert_eq!(InputSnapshot::read(&WinitInputHelper::new()), still());
}

#[test]
fn the_left_button_grabs() {
    let mut input = WinitInputHelper::new();
    input.process_window_event(&mouse(ElementState::Pressed, MouseButton::Right));
    input.process_window_event(&mouse(ElementState::Released, MouseButton::Middle));
    assert_eq!(InputSnapshot::read(&input), still());
    input.process_window_event(&mouse(ElementState::Pressed, MouseButton::Left));
    assert_eq!(InputSnapshot::read(&input), InputSnapshot { grab_pressed: true, ..still() });
    input.process_window_event(&mouse(ElementState::Released, MouseButton::Left));
    assert_eq!(
        InputSnapshot::read(&input),
        InputSnapshot { grab_pressed: true, grab_released: true, ..still() }
    );
}

#[test]
fn a_request_to_close_is_seen() {
    let mut input = WinitInputHelper::new();
    input.process_window_event(&WindowEvent::CloseRequested);
    assert_eq!(InputSnapshot::read(&input), InputSnapshot { close_requested: true, ..still() });
}

#[test]
fn a_new_program_has_no_window_and_no_grab() {
    let app = App::new();
    assert!(app.frames.is_none());
    assert!(!app.is_grab);
    assert_eq!(InputSnapshot::read(&app.input), still());
}

#[test]
fn a_new_window_comes_with_its_images() {
    let mut app = App::new();
    let plan = app.resumed(Extent { width: 320, height: 200 });
    assert_eq!(plan.render_image.extent.width, 320);
    assert_eq!(plan.render_image.extent.height, 200);
    assert_eq!(plan.voxel_image.extent.depth, 4);
    assert_eq!(plan.voxels.iter().sum::<u32>(), 7);
    assert_eq!(app.frames.unwrap().render_extent(), Extent { width: 320, height: 200 });
}

#[test]
fn events_act_in_their_own_step_only() {
    let mut app = running(10, 10);
    app.new_events();
    app.window_event(&mouse(ElementState::Pressed, MouseButton::Left), false);
    assert_eq!(
        app.about_to_wait(),
        vec![UpdateAction::GrabStarted, UpdateAction::Turn, UpdateAction::RequestRedraw]
    );
    assert!(app.is_grab);
    app.new_events();
    assert_eq!(app.about_to_wait(), vec![UpdateAction::Turn, UpdateAction::RequestRedraw]);
    app.new_events();
    app.window_event(&mouse(ElementState::Released, MouseButton::Left), false);
    assert_eq!(
        app.about_to_wait(),
        vec![UpdateAction::GrabEnded, UpdateAction::RequestRedraw]
    );
    assert!(!app.is_grab);
    app.new_events();
    assert_eq!(app.about_to_wait(), vec![UpdateAction::RequestRedraw]);
}

#[test]
fn the_window_is_drawn_again_even_when_the_program_ends() {
    let mut app = running(10, 10);
    app.new_events();
    app.window_event(&WindowEvent::CloseRequested, false);
    assert_eq!(app.update(), vec![UpdateAction::Exit]);
    assert_eq!(
        app.about_to_wait(),
        vec![UpdateAction::Exit, UpdateAction::RequestRedraw]
    );
}

#[test]
fn window_events_are_read() {
    let size = WindowEvent::Resized(PhysicalSize::new(3, 2));
    let told = [
        (WindowEvent::CloseRequested, Some(Told::CloseRequested)),
        (size, Some(Told::Resized(Extent { width: 3, height: 2 }))),
        (WindowEvent::Focused(true), Some(Told::Focused(true))),
        (WindowEvent::Focused(false), Some(Told::Focused(false))),
        (WindowEvent::RedrawRequested, Some(Told::RedrawRequested)),
        (mouse(ElementState::Pressed, MouseButton::Left), Some(Told::ButtonDown(Button::Left))),
        (mouse(ElementState::Released, MouseButton::Left), Some(Told::ButtonUp(Button::Left))),
        (mouse(ElementState::Pressed, MouseButton::Right), Some(Told::ButtonDown(Button::Right))),
        (mouse(ElementState::Released, MouseButton::Middle), Some(Told::ButtonUp(Button::Middle))),
        (mouse(ElementState::Pressed, MouseButton::Back), Some(Told::ButtonDown(Button::Back))),
        (mouse(ElementState::Released, MouseButton::Forward), Some(Told::ButtonUp(Button::Forward))),
        (mouse(ElementState::Pressed, MouseButton::Other(7)), Some(Told::OtherButton(7))),
        (mouse(ElementState::Released, MouseButton::Other(300)), Some(Told::OtherButton(300))),
        (WindowEvent::Destroyed, None),
        (WindowEvent::Occluded(true), None),
    ];
    for (event, expected) in told {
        assert_eq!(read_event(&event), expected);
    }
}

#[test]
fn the_gui_keeps_its_events_but_not_the_redraws() {
    let mut app = running(10, 10);
    let press = mouse(ElementState::Pressed, MouseButton::Left);
    assert!(!app.window_event(&press, true));
    assert_eq!(InputSnapshot::read(&app.input), still());
    assert!(!app.window_event(&press, false));
    assert_eq!(InputSnapshot::read(&app.input), InputSnapshot { grab_pressed: true, ..still() });
    assert!(app.window_event(&WindowEvent::RedrawRequested, true));
    assert!(app.window_event(&WindowEvent::RedrawRequested, false));
    assert!(!app.window_event(&WindowEvent::CloseRequested, false));
}

#[test]
fn buttons_without_room_are_told_apart() {
    let mut app = running(10, 10);
    assert!(app.can_take(&mouse(ElementState::Pressed, MouseButton::Other(249))));
    assert!(!app.can_take(&mouse(ElementState::Pressed, MouseButton::Other(250))));
    assert!(!app.can_take(&mouse(ElementState::Released, MouseButton::Other(u16::MAX))));
    assert!(app.can_take(&mouse(ElementState::Pressed, MouseButton::Forward)));
    assert!(app.can_take(&WindowEvent::CloseRequested));
    app.window_event(&mouse(ElementState::Pressed, MouseButton::Other(249)), false);
    app.window_event(&mouse(ElementState::Released, MouseButton::Other(249)), false);
    assert_eq!(InputSnapshot::read(&app.input), still());
    app.window_event(&WindowEvent::Focused(false), false);
    let high = mouse(ElementState::Pressed, MouseButton::Other(250));
    assert!(app.can_take(&high));
    assert!(!app.window_event(&high, false));
}

#[test]
fn without_the_focus_only_the_window_counts() {
    let mut app = running(10, 10);
    app.new_events();
    app.window_event(&mouse(ElementState::Pressed, MouseButton::Left), false);
    app.device_event(&DeviceEvent::MouseMotion { delta: (1.0, 1.0) });
    app.window_event(&WindowEvent::Focused(false), false);
    assert!(!app.is_focused);
    assert_eq!(InputSnapshot::read(&app.input), still());
    assert_eq!(moved(&app), (0.0, 0.0));
    app.window_event(&mouse(ElementState::Pressed, MouseButton::Left), false);
    app.device_event(&DeviceEvent::MouseMotion { delta: (1.0, 1.0) });
    assert_eq!(InputSnapshot::read(&app.input), still());
    assert_eq!(moved(&app), (0.0, 0.0));
    app.window_event(&WindowEvent::CloseRequested, false);
    assert_eq!(
        InputSnapshot::read(&app.input),
        InputSnapshot { close_requested: true, ..still() }
    );
    app.new_events();
    assert!(!app.is_focused);
    app.window_event(&WindowEvent::Focused(true), false);
    app.window_event(&mouse(ElementState::Released, MouseButton::Left), false);
    assert!(app.is_focused);
    assert_eq!(InputSnapshot::read(&app.input), InputSnapshot { grab_released: true, ..still() });
}

#[test]
fn a_focus_event_that_the_gui_keeps_changes_nothing() {
    let mut app = running(10, 10);
    app.window_event(&WindowEvent::Focused(false), true);
    assert!(app.is_focused);
    app.window_event(&mouse(ElementState::Pressed, MouseButton::Left), false);
    assert_eq!(InputSnapshot::read(&app.input), InputSnapshot { grab_pressed: true, ..still() });
}

#[test]
fn gaining_the_focus_twice_forgets_nothing() {
    let mut app = running(10, 10);
    app.window_event(&mouse(ElementState::Pressed, MouseButton::Left), false);
    app.window_event(&WindowEvent::Focused(true), false);
    assert_eq!(InputSnapshot::read(&app.input), InputSnapshot { grab_pressed: true, ..still() });
}

#[test]
fn device_events_other_than_motion_leave_the_input_alone() {
    let mut app = running(10, 10);
    app.device_event(&DeviceEvent::Button { button: 0, state: ElementState::Pressed });
    assert_eq!(InputSnapshot::read(&app.input), still());
    assert_eq!(moved(&app), (0.0, 0.0));
}

#[test]
fn the_last_size_of_a_step_is_the_one_that_stays() {
    let mut app = running(10, 10);
    app.new_events();
    app.window_event(&WindowEvent::Resized(PhysicalSize::new(20, 10)), false);
    app.window_event(&WindowEvent::Resized(PhysicalSize::new(5, 5)), false);
    assert_eq!(app.input.window_resized(), Some(PhysicalSize::new(5, 5)));
    let window = Extent { width: 5, height: 5 };
    assert_eq!(app.redraw(window), FrameAction::Recreate(window));
}

#[test]
fn a_resize_event_leads_to_a_new_swapchain() {
    let mut app = running(10, 10);
    let window = Extent { width: 20, height: 10 };
    app.new_events();
    app.window_event(&WindowEvent::Resized(PhysicalSize::new(20, 10)), false);
    assert_eq!(app.redraw(window), FrameAction::Recreate(window));
    app.recreated(window);
    let outcome = AcquireOutcome::Acquired { image_index: 1, suboptimal: false };
    let plan = app.acquired(outcome).unwrap();
    assert_eq!((plan.groups.width, plan.groups.height, plan.groups.depth), (20, 10, 1));
    assert_eq!((plan.image_index, plan.readback_len), (1, 800));
    app.new_events();
    assert_eq!(app.redraw(window), FrameAction::Acquire);
    assert_eq!(app.acquired(AcquireOutcome::OutOfDate), None);
    assert_eq!(app.redraw(window), FrameAction::Recreate(window));
}

#[test]
fn opposite_moves_share_an_axis() {
    let pairs = [
        (CameraMove::Forward, CameraMove::Backward, CameraAxis::View),
        (CameraMove::Right, CameraMove::Left, CameraAxis::Side),
        (CameraMove::Up, CameraMove::Down, CameraAxis::Vertical),
    ];
    for (along, against, axis) in pairs {
        assert_eq!(along.course(), Course { axis, reverse: false });
        assert_eq!(against.course(), Course { axis, reverse: true });
    }
}

#[test]
fn seven_hundred_pixels_are_a_quarter_turn() {
    assert_eq!((TURN_PIXELS, TURN_YAW_DEGREES, TURN_PITCH_DEGREES), (700, 90, 45));
}

#[test]
fn a_step_has_a_duration_once_it_ends() {
    let mut app = running(10, 10);
    assert!(app.input.delta_time().is_none());
    app.new_events();
    assert!(app.input.delta_time().is_none());
    app.about_to_wait();
    assert!(app.input.delta_time().is_some());
    app.new_events();
    assert!(app.input.delta_time().is_none());
}

#[test]
fn a_step_that_was_not_begun_has_no_duration() {
    let mut app = App::new();
    app.about_to_wait();
    assert!(app.input.delta_time().is_none());
    app.about_to_wait();
    assert!(app.input.delta_time().is_some());
}

#[test]
fn the_mouse_movement_lasts_for_its_step() {
    let mut app = running(10, 10);
    app.new_events();
    app.device_event(&DeviceEvent::MouseMotion { delta: (3.0, -2.0) });
    app.about_to_wait();
    assert_eq!(moved(&app), (3.0, -2.0));
    app.new_events();
    assert_eq!(moved(&app), (0.0, 0.0));
}

#[test]
fn without_a_window_a_step_is_ended_all_the_same() {
    let mut app = App::new();
    app.new_events();
    app.input.process_window_event(&mouse(ElementState::Pressed, MouseButton::Left));
    assert_eq!(
        app.about_to_wait(),
        vec![UpdateAction::GrabStarted, UpdateAction::Turn, UpdateAction::RequestRedraw]
    );
    assert!(app.is_grab);
}

#[test]
fn only_motions_move_the_mouse() {
    assert!(moves_mouse(&motion(1.0, 0.0)));
    assert!(moves_mouse(&motion(0.0, 0.0)));
    assert!(!moves_mouse(&DeviceEvent::Added));
    assert!(!moves_mouse(&DeviceEvent::Motion { axis: 0, value: 3.0 }));
}

#[test]
fn the_motions_of_a_step_add_up() {
    let mut app = running(10, 10);
    app.device_event(&motion(100.0, 100.0));
    app.new_events();
    assert_eq!(moved(&app), (0.0, 0.0));
    app.device_event(&motion(3.0, -2.0));
    assert_eq!(moved(&app), (3.0, -2.0));
    app.window_event(&WindowEvent::RedrawRequested, false);
    app.device_event(&DeviceEvent::Added);
    app.device_event(&motion(0.5, 1.0));
    app.device_event(&motion(0.5, 1.0));
    assert_eq!(moved(&app), (4.0, 0.0));
    app.about_to_wait();
    assert_eq!(moved(&app), (4.0, 0.0));
    assert_eq!(app.mouse_diff(), (0x4080_0000, 0));
}

#[test]
fn a_motion_that_is_not_a_number_stays_so() {
    let mut app = running(10, 10);
    app.device_event(&motion(f64::NAN, 1.0));
    app.device_event(&motion(2.0, 1.0));
    let (dx, dy) = moved(&app);
    assert!(dx.is_nan());
    assert_eq!(dy, 2.0);
}
