//! What the window's input helper reports of the current step.

use vstd::prelude::*;
use winit::event::MouseButton;
use winit::keyboard::KeyCode;
use winit_input_helper::WinitInputHelper;

use crate::extent::Extent;

verus! {

/// The keys that steer the camera, by their place on a US keyboard.
#[derive(Debug, Clone, Copy, PartialEq, Eq, Structural)]
pub enum Key {
    W,
    S,
    A,
    D,
    Q,
    E,
}

/// The mouse buttons that have a name.
#[derive(Debug, Clone, Copy, PartialEq, Eq, Structural)]
pub enum Button {
    Left,
    Right,
    Middle,
    Back,
    Forward,
}

/// One thing that an input helper can hold of the current step.
#[derive(Debug, Clone, Copy, PartialEq, Eq, Structural)]
pub enum Signal {
    /// The system asked the window to close.
    CloseRequested,
    /// The window took this size.
    Resized(Extent),
    /// The key went down.
    KeyPressed(Key),
    /// The key is down.
    KeyHeld(Key),
    /// The button went down.
    MousePressed(Button),
    /// The button went up.
    MouseReleased(Button),
}

/// The input helper of `winit_input_helper`, which gathers window events step by step.
#[verifier::external_type_specification]
#[verifier::external_body]
pub struct ExWinitInputHelper(WinitInputHelper);

/// The signals that an input helper holds.
pub uninterp spec fn signals(input: WinitInputHelper) -> Set<Signal>;

/// One thing that an input helper can note of the current step besides its signals.
#[derive(Debug, Clone, Copy, PartialEq, Eq, Structural)]
pub enum Mark {
    /// There is a time to measure the step from.
    Begun,
    /// The step has ended and its duration is known.
    Timed,
    /// The window has the focus, so that keys, buttons and the movement of the mouse count.
    Focused,
}

/// The marks that an input helper holds.
pub uninterp spec fn marks(input: WinitInputHelper) -> Set<Mark>;

/// How far the mouse moved in the step, to the side and down: the bits of the two numbers that an
/// input helper holds, with one value for all that are not a number, or nothing if it did not move.
pub uninterp spec fn travel(input: WinitInputHelper) -> Seq<u32>;

/// Whether the bits are those of a number.
pub open spec fn is_number(bits: u32) -> bool {
    bits as int % 0x8000_0000 <= 0x7f80_0000
}

/// Whether two numbers are the same by their bits, or both are not numbers.
pub open spec fn same_number(a: u32, b: u32) -> bool {
    a == b || (!is_number(a) && !is_number(b))
}

/// Whether this is the movement of the mouse: zero both ways if it did not move.
pub open spec fn shows_travel(shown: (u32, u32), travel: Seq<u32>) -> bool {
    if travel.len() == 0 {
        shown == (0u32, 0u32)
    } else {
        travel.len() == 2 && same_number(shown.0, travel[0]) && same_number(shown.1, travel[1])
    }
}

/// The marks once a step has begun: it has no duration yet. The focus stays where it is.
pub open spec fn marks_at_start(marks: Set<Mark>) -> Set<Mark> {
    if marks.contains(Mark::Focused) {
        set![Mark::Begun, Mark::Focused]
    } else {
        set![Mark::Begun]
    }
}

/// The marks once a step has ended. It has a duration if there was a time to measure it from, and
/// the next one is measured from now.
pub open spec fn marks_at_end(marks: Set<Mark>) -> Set<Mark> {
    if marks.contains(Mark::Begun) {
        marks.insert(Mark::Timed)
    } else {
        marks.remove(Mark::Timed).insert(Mark::Begun)
    }
}

/// The keys that are down, of all the signals.
pub open spec fn held_of(signals: Set<Signal>) -> Set<Signal> {
    signals.filter(|signal: Signal| signal is KeyHeld)
}

/// Calls `WinitInputHelper::new`: a helper that has received no event and takes the window to have
/// the focus.
#[verifier::external_body]
pub(crate) fn new_input() -> (r: WinitInputHelper)
    ensures
        signals(r) == Set::<Signal>::empty(),
        marks(r) == set![Mark::Focused],
        travel(r) == Seq::<u32>::empty(),
{
    WinitInputHelper::new()
}

/// Calls `WinitInputHelper::step`: of the last step only the keys that are down stay. The helper
/// forgets how the mouse moved and how long the last step took, and it has a time to measure the
/// new step from. Which time that is, is left unsaid.
#[verifier::external_body]
pub(crate) fn step(input: &mut WinitInputHelper)
    ensures
        signals(*final(input)) == held_of(signals(*old(input))),
        marks(*final(input)) == marks_at_start(marks(*old(input))),
        travel(*final(input)) == Seq::<u32>::empty(),
{
    input.step()
}

/// Calls `WinitInputHelper::end_step`: the helper keeps its signals and the mouse movement. It
/// notes how long the step took, if there was a time to measure it from, and the time now. Which
/// times these are, is left unsaid.
#[verifier::external_body]
pub(crate) fn end_step(input: &mut WinitInputHelper)
    ensures
        signals(*final(input)) == signals(*old(input)),
        marks(*final(input)) == marks_at_end(marks(*old(input))),
        travel(*final(input)) == travel(*old(input)),
{
    input.end_step()
}

/// Calls `WinitInputHelper::close_requested`: whether a request to close was received in this
/// step.
#[verifier::external_body]
fn close_requested(input: &WinitInputHelper) -> (r: bool)
    ensures
        r == signals(*input).contains(Signal::CloseRequested),
{
    input.close_requested()
}

/// Calls `WinitInputHelper::window_resized`: the size that the window was given in this step.
/// The helper keeps the last one only, so there is at most one.
#[verifier::external_body]
pub(crate) fn window_resized(input: &WinitInputHelper) -> (r: Option<Extent>)
    ensures
        forall|size: Extent| #[trigger]
            signals(*input).contains(Signal::Resized(size)) <==> r == Some(size),
{
    input.window_resized().map(|size| Extent { width: size.width, height: size.height })
}

/// Calls `WinitInputHelper::key_pressed`: whether the key went down in this step.
#[verifier::external_body]
fn key_pressed(input: &WinitInputHelper, key: Key) -> (r: bool)
    ensures
        r == signals(*input).contains(Signal::KeyPressed(key)),
{
    input.key_pressed(match key {
        Key::W => KeyCode::KeyW,
        Key::S => KeyCode::KeyS,
        Key::A => KeyCode::KeyA,
        Key::D => KeyCode::KeyD,
        Key::Q => KeyCode::KeyQ,
        Key::E => KeyCode::KeyE,
    })
}

/// Calls `WinitInputHelper::key_held`: whether the key is down.
#[verifier::external_body]
fn key_held(input: &WinitInputHelper, key: Key) -> (r: bool)
    ensures
        r == signals(*input).contains(Signal::KeyHeld(key)),
{
    input.key_held(match key {
        Key::W => KeyCode::KeyW,
        Key::S => KeyCode::KeyS,
        Key::A => KeyCode::KeyA,
        Key::D => KeyCode::KeyD,
        Key::Q => KeyCode::KeyQ,
        Key::E => KeyCode::KeyE,
    })
}

/// Calls `WinitInputHelper::mouse_pressed`: whether the button went down in this step.
#[verifier::external_body]
fn mouse_pressed(input: &WinitInputHelper, button: Button) -> (r: bool)
    ensures
        r == signals(*input).contains(Signal::MousePressed(button)),
{
    input.mouse_pressed(match button {
        Button::Left => MouseButton::Left,
        Button::Right => MouseButton::Right,
        Button::Middle => MouseButton::Middle,
        Button::Back => MouseButton::Back,
        Button::Forward => MouseButton::Forward,
    })
}

/// Calls `WinitInputHelper::mouse_released`: whether the button went up in this step.
#[verifier::external_body]
fn mouse_released(input: &WinitInputHelper, button: Button) -> (r: bool)
    ensures
        r == signals(*input).contains(Signal::MouseReleased(button)),
{
    input.mouse_released(match button {
        Button::Left => MouseButton::Left,
        Button::Right => MouseButton::Right,
        Button::Middle => MouseButton::Middle,
        Button::Back => MouseButton::Back,
        Button::Forward => MouseButton::Forward,
    })
}

/// Calls `WinitInputHelper::mouse_diff`: how far the mouse moved in this step, by the bits of the
/// two numbers.
#[verifier::external_body]
pub(crate) fn mouse_diff(input: &WinitInputHelper) -> (r: (u32, u32))
    ensures
        shows_travel(r, travel(*input)),
{
    let (dx, dy) = input.mouse_diff();
    (dx.to_bits(), dy.to_bits())
}

/// What the controls read of the input in one step.
#[derive(Debug, Clone, Copy, PartialEq, Eq, Structural)]
pub struct InputSnapshot {
    pub close_requested: bool,
    pub forward: bool,
    pub backward: bool,
    pub left: bool,
    pub right: bool,
    pub down: bool,
    pub up: bool,
    pub grab_pressed: bool,
    pub grab_released: bool,
}

/// Whether a key steers: it went down in this step, or it is down.
pub open spec fn is_active(signals: Set<Signal>, key: Key) -> bool {
    signals.contains(Signal::KeyPressed(key)) || signals.contains(Signal::KeyHeld(key))
}

/// Whether the window was resized in this step.
pub open spec fn is_resized(signals: Set<Signal>) -> bool {
    exists|size: Extent| signals.contains(Signal::Resized(size))
}

/// What the controls make of the signals: W and S go forward and back, A and D to the sides, Q
/// and E down and up, and the left button grabs the view.
pub open spec fn snapshot_of(signals: Set<Signal>) -> InputSnapshot {
    InputSnapshot {
        close_requested: signals.contains(Signal::CloseRequested),
        forward: is_active(signals, Key::W),
        backward: is_active(signals, Key::S),
        left: is_active(signals, Key::A),
        right: is_active(signals, Key::D),
        down: is_active(signals, Key::Q),
        up: is_active(signals, Key::E),
        grab_pressed: signals.contains(Signal::MousePressed(Button::Left)),
        grab_released: signals.contains(Signal::MouseReleased(Button::Left)),
    }
}

fn key_active(input: &WinitInputHelper, key: Key) -> (r: bool)
    ensures
        r == is_active(signals(*input), key),
{
    key_pressed(input, key) || key_held(input, key)
}

impl InputSnapshot {
    /// Reads the input.
    pub fn read(input: &WinitInputHelper) -> (r: InputSnapshot)
        ensures
            r == snapshot_of(signals(*input)),
    {
        InputSnapshot {
            close_requested: close_requested(input),
            forward: key_active(input, Key::W),
            backward: key_active(input, Key::S),
            left: key_active(input, Key::A),
            right: key_active(input, Key::D),
            down: key_active(input, Key::Q),
            up: key_active(input, Key::E),
            grab_pressed: mouse_pressed(input, Button::Left),
            grab_released: mouse_released(input, Button::Left),
        }
    }
}

/// In a step without events only the keys that are down have an effect: a press, a release or a
/// request to close acts in the step in which it arrives and in no other.
pub proof fn law_events_act_once(before: Set<Signal>)
    ensures
        snapshot_of(held_of(before)) == (InputSnapshot {
            close_requested: false,
            forward: before.contains(Signal::KeyHeld(Key::W)),
            backward: before.contains(Signal::KeyHeld(Key::S)),
            left: before.contains(Signal::KeyHeld(Key::A)),
            right: before.contains(Signal::KeyHeld(Key::D)),
            down: before.contains(Signal::KeyHeld(Key::Q)),
            up: before.contains(Signal::KeyHeld(Key::E)),
            grab_pressed: false,
            grab_released: false,
        }),
        !is_resized(held_of(before)),
{
}

/// A step that was begun has a duration once it has ended; when the next one begins, it is gone.
pub proof fn law_a_step_has_a_duration_once_it_ends(during: Set<Mark>)
    requires
        during.contains(Mark::Begun),
    ensures
        marks_at_end(during).contains(Mark::Timed),
        marks_at_start(marks_at_end(during)).contains(Mark::Begun),
        !marks_at_start(marks_at_end(during)).contains(Mark::Timed),
{
}

/// Each signal that the controls know shows in one place of what they read, and takes nothing else
/// along.
pub proof fn law_each_signal_shows_in_one_place(signals: Set<Signal>)
    ensures
        snapshot_of(signals.insert(Signal::CloseRequested)) == (InputSnapshot {
            close_requested: true,
            ..snapshot_of(signals)
        }),
        snapshot_of(signals.insert(Signal::MousePressed(Button::Left))) == (InputSnapshot {
            grab_pressed: true,
            ..snapshot_of(signals)
        }),
        snapshot_of(signals.insert(Signal::MouseReleased(Button::Left))) == (InputSnapshot {
            grab_released: true,
            ..snapshot_of(signals)
        }),
{
}

/// A key shows in its own place, both when it goes down and while it is down: W is forward, S
/// backward, A left, D right, Q down and E up.
pub proof fn law_each_key_shows_in_one_place(signals: Set<Signal>, signal: Signal)
    ensures
        signal == Signal::KeyPressed(Key::W) || signal == Signal::KeyHeld(Key::W) ==> snapshot_of(
            signals.insert(signal),
        ) == (InputSnapshot { forward: true, ..snapshot_of(signals) }),
        signal == Signal::KeyPressed(Key::S) || signal == Signal::KeyHeld(Key::S) ==> snapshot_of(
            signals.insert(signal),
        ) == (InputSnapshot { backward: true, ..snapshot_of(signals) }),
        signal == Signal::KeyPressed(Key::A) || signal == Signal::KeyHeld(Key::A) ==> snapshot_of(
            signals.insert(signal),
        ) == (InputSnapshot { left: true, ..snapshot_of(signals) }),
        signal == Signal::KeyPressed(Key::D) || signal == Signal::KeyHeld(Key::D) ==> snapshot_of(
            signals.insert(signal),
        ) == (InputSnapshot { right: true, ..snapshot_of(signals) }),
        signal == Signal::KeyPressed(Key::Q) || signal == Signal::KeyHeld(Key::Q) ==> snapshot_of(
            signals.insert(signal),
        ) == (InputSnapshot { down: true, ..snapshot_of(signals) }),
        signal == Signal::KeyPressed(Key::E) || signal == Signal::KeyHeld(Key::E) ==> snapshot_of(
            signals.insert(signal),
        ) == (InputSnapshot { up: true, ..snapshot_of(signals) }),
{
}

/// A new size, or a button other than the left one, does not show in what the controls read,
/// whatever else there is to read.
pub proof fn law_sizes_and_other_buttons_do_not_show(signals: Set<Signal>, signal: Signal)
    requires
        match signal {
            Signal::Resized(_) => true,
            Signal::MousePressed(button) => button != Button::Left,
            Signal::MouseReleased(button) => button != Button::Left,
            _ => false,
        },
    ensures
        snapshot_of(signals.insert(signal)) == snapshot_of(signals),
        snapshot_of(signals.remove(signal)) == snapshot_of(signals),
{
}

/// Without signals, or with none but sizes and buttons other than the left one, there is nothing to
/// read.
pub proof fn law_nothing_shows_without_signals(signals: Set<Signal>)
    requires
        forall|signal: Signal| #[trigger]
            signals.contains(signal) ==> signal is Resized || (signal is MousePressed && signal
                != Signal::MousePressed(Button::Left)) || (signal is MouseReleased && signal
                != Signal::MouseReleased(Button::Left)),
    ensures
        snapshot_of(signals) == (InputSnapshot {
            close_requested: false,
            forward: false,
            backward: false,
            left: false,
            right: false,
            down: false,
            up: false,
            grab_pressed: false,
            grab_released: false,
        }),
{
}

/// What the controls read depends on the signals alone. The grab is read off the left button, the
/// end off the request to close, and a helper without any signal reads as still.
pub proof fn law_reading_goes_by_the_signals(
    input: WinitInputHelper,
    other: WinitInputHelper,
    r: InputSnapshot,
    of_other: InputSnapshot,
)
    requires
        call_ensures(InputSnapshot::read, (&input,), r),
        call_ensures(InputSnapshot::read, (&other,), of_other),
    ensures
        signals(input) == signals(other) ==> r == of_other,
        r.close_requested <==> signals(input).contains(Signal::CloseRequested),
        r.grab_pressed <==> signals(input).contains(Signal::MousePressed(Button::Left)),
        r.grab_released <==> signals(input).contains(Signal::MouseReleased(Button::Left)),
        r == snapshot_of(signals(input)),
{
}

/// A step counts as one with a resize exactly if a size is among its signals.
pub proof fn law_only_sizes_tell_of_a_resize(signals: Set<Signal>, signal: Signal)
    ensures
        !is_resized(Set::<Signal>::empty()),
        signal is Resized ==> is_resized(signals.insert(signal)),
        signal !is Resized ==> is_resized(signals.insert(signal)) == is_resized(signals),
{
    if let Signal::Resized(size) = signal {
        assert(signals.insert(signal).contains(Signal::Resized(size)));
    } else {
        if is_resized(signals) {
            let size = choose|size: Extent| signals.contains(Signal::Resized(size));
            assert(signals.insert(signal).contains(Signal::Resized(size)));
        }
        if is_resized(signals.insert(signal)) {
            let size = choose|size: Extent|
                signals.insert(signal).contains(Signal::Resized(size));
            assert(signals.contains(Signal::Resized(size)));
        }
    }
}

/// The bits of a number are those up to infinity, with either sign.
pub proof fn law_which_bits_are_numbers(bits: u32)
    ensures
        is_number(bits) <==> bits <= 0x7f80_0000 || 0x8000_0000 <= bits <= 0xff80_0000,
{
}

/// Movement is shown by the bits of its numbers; what is not a number is shown as something that is
/// not one.
pub proof fn law_how_movement_is_shown(a: u32, b: u32)
    ensures
        same_number(a, a),
        is_number(a) && same_number(a, b) ==> a == b,
        same_number(a, b) ==> is_number(a) == is_number(b),
        same_number(a, b) == same_number(b, a),
{
}

} // verus!
