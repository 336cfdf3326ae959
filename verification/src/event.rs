//! What the events of the window and of the mouse do to the input.

use vstd::prelude::*;
use winit::event::{DeviceEvent, ElementState, MouseButton, WindowEvent};
use winit::keyboard::{KeyCode, PhysicalKey};
use winit_input_helper::WinitInputHelper;

use crate::controls::{
    actions_of, grab_after, law_actions_are_what_is_asked_for, CameraMove, UpdateAction,
};
use crate::extent::Extent;
use crate::input::{
    held_of, is_active, is_resized, marks, marks_at_end, marks_at_start, signals, snapshot_of,
    travel, Button, InputSnapshot, Key, Mark, Signal,
};

verus! {

/// The window events of `winit`.
#[verifier::external_type_specification]
#[verifier::external_body]
pub struct ExWindowEvent(WindowEvent);

/// The device events of `winit`.
#[verifier::external_type_specification]
#[verifier::external_body]
pub struct ExDeviceEvent(DeviceEvent);

/// What a window event can tell.
#[derive(Debug, Clone, Copy, PartialEq, Eq, Structural)]
pub enum Told {
    /// The system asks the window to close.
    CloseRequested,
    /// The window takes this size.
    Resized(Extent),
    /// The window gains the focus, or loses it.
    Focused(bool),
    /// The system asks for a frame.
    RedrawRequested,
    /// The key goes down, or the system repeats that it is down.
    KeyDown(Key),
    /// The key goes up.
    KeyUp(Key),
    /// The button goes down.
    ButtonDown(Button),
    /// The button goes up.
    ButtonUp(Button),
    /// A button that has a number in place of a name goes down or up.
    OtherButton(u16),
}

impl Told {
    pub open spec fn is_of_key(self) -> bool {
        self is KeyDown || self is KeyUp
    }

    pub open spec fn is_of_button(self) -> bool {
        self is ButtonDown || self is ButtonUp || self is OtherButton
    }
}

/// What the window event tells: one thing, or nothing that is listed.
pub uninterp spec fn told(event: WindowEvent) -> Set<Told>;

/// How far the device event moves the mouse, to the side and down: the bits of the two numbers, or
/// nothing if it reports no motion.
pub uninterp spec fn motion(event: DeviceEvent) -> Seq<u64>;

/// How far the mouse moved in the step, as an input helper adds it up: `travel` and then `motion`.
pub uninterp spec fn travel_after(travel: Seq<u32>, motion: Seq<u64>) -> Seq<u32>;

/// Tells apart the variants of `WindowEvent` that concern the window as a whole.
#[verifier::external_body]
fn read_window(event: &WindowEvent) -> (r: Option<Told>)
    ensures
        forall|t: Told|
            !t.is_of_key() && !t.is_of_button() ==> (#[trigger] told(*event).contains(t) <==> r
                == Some(t)),
        r is Some ==> forall|t: Told| #[trigger] told(*event).contains(t) <==> r == Some(t),
{
    match event {
        WindowEvent::CloseRequested => Some(Told::CloseRequested),
        WindowEvent::Resized(size) => Some(
            Told::Resized(Extent { width: size.width, height: size.height }),
        ),
        WindowEvent::Focused(focused) => Some(Told::Focused(*focused)),
        WindowEvent::RedrawRequested => Some(Told::RedrawRequested),
        _ => None,
    }
}

/// Tells apart the keys, by their place, and the states of `WindowEvent::KeyboardInput`.
#[verifier::external_body]
fn read_key(event: &WindowEvent) -> (r: Option<Told>)
    ensures
        forall|t: Told| t.is_of_key() ==> (#[trigger] told(*event).contains(t) <==> r == Some(t)),
        r is Some ==> forall|t: Told| #[trigger] told(*event).contains(t) <==> r == Some(t),
{
    let WindowEvent::KeyboardInput { event, .. } = event else { return None };
    let key = match event.physical_key {
        PhysicalKey::Code(KeyCode::KeyW) => Key::W,
        PhysicalKey::Code(KeyCode::KeyS) => Key::S,
        PhysicalKey::Code(KeyCode::KeyA) => Key::A,
        PhysicalKey::Code(KeyCode::KeyD) => Key::D,
        PhysicalKey::Code(KeyCode::KeyQ) => Key::Q,
        PhysicalKey::Code(KeyCode::KeyE) => Key::E,
        _ => return None,
    };
    match event.state {
        ElementState::Pressed => Some(Told::KeyDown(key)),
        ElementState::Released => Some(Told::KeyUp(key)),
    }
}

/// Tells apart the buttons and the states of `WindowEvent::MouseInput`.
#[verifier::external_body]
fn read_button(event: &WindowEvent) -> (r: Option<Told>)
    ensures
        forall|t: Told|
            t.is_of_button() ==> (#[trigger] told(*event).contains(t) <==> r == Some(t)),
        r is Some ==> forall|t: Told| #[trigger] told(*event).contains(t) <==> r == Some(t),
{
    let WindowEvent::MouseInput { state, button, .. } = event else { return None };
    let button = match button {
        MouseButton::Left => Button::Left,
        MouseButton::Right => Button::Right,
        MouseButton::Middle => Button::Middle,
        MouseButton::Back => Button::Back,
        MouseButton::Forward => Button::Forward,
        MouseButton::Other(number) => return Some(Told::OtherButton(*number)),
    };
    match state {
        ElementState::Pressed => Some(Told::ButtonDown(button)),
        ElementState::Released => Some(Told::ButtonUp(button)),
    }
}

/// Tells the variant `DeviceEvent::MouseMotion` apart, and gives the bits of its two numbers.
#[verifier::external_body]
fn read_motion(event: &DeviceEvent) -> (r: Option<(u64, u64)>)
    ensures
        motion(*event) == match r {
            Some((dx, dy)) => seq![dx, dy],
            None => Seq::<u64>::empty(),
        },
{
    match event {
        DeviceEvent::MouseMotion { delta } => Some((delta.0.to_bits(), delta.1.to_bits())),
        _ => None,
    }
}

/// Whether the device event reports that the mouse moved.
pub fn moves_mouse(event: &DeviceEvent) -> (r: bool)
    ensures
        r == (motion(*event).len() > 0),
        motion(*event).len() == 0 || motion(*event).len() == 2,
{
    read_motion(event).is_some()
}

/// What the window event tells, if it is listed.
pub fn read_event(event: &WindowEvent) -> (r: Option<Told>)
    ensures
        forall|t: Told| #[trigger] told(*event).contains(t) <==> r == Some(t),
        told(*event) == match r {
            Some(t) => set![t],
            None => Set::<Told>::empty(),
        },
{
    let read = match read_window(event) {
        Some(t) => Some(t),
        None => match read_key(event) {
            Some(t) => Some(t),
            None => read_button(event),
        },
    };
    proof {
        match read {
            Some(t) => {
                assert(told(*event) =~= set![t]);
            },
            None => {
                assert(told(*event) =~= Set::<Told>::empty());
            },
        }
    }
    read
}

/// How many buttons without a name an input helper has room for.
pub const NUMBERED_BUTTONS: u16 = 250;

/// Whether there is room to note the button.
pub open spec fn fits(told: Set<Told>) -> bool {
    forall|number: u16| #[trigger] told.contains(Told::OtherButton(number)) ==> number
        < NUMBERED_BUTTONS
}

/// Whether a new size is told.
pub open spec fn tells_size(told: Set<Told>) -> bool {
    exists|size: Extent| #[trigger] told.contains(Told::Resized(size))
}

/// Whether a helper with these signals holds the signal once this is told. Without the focus,
/// keys and buttons do not count, and those that counted are forgotten. Of the sizes only the
/// last one stays. A key that is down already does not go down again.
pub open spec fn signal_after(
    signals: Set<Signal>,
    focused: bool,
    told: Set<Told>,
    signal: Signal,
) -> bool {
    let unfocused = told.contains(Told::Focused(false));
    match signal {
        Signal::CloseRequested => signals.contains(signal) || told.contains(Told::CloseRequested),
        Signal::Resized(size) => if tells_size(told) {
            told.contains(Told::Resized(size))
        } else {
            signals.contains(signal)
        },
        Signal::KeyPressed(key) => !unfocused && (signals.contains(signal) || (focused
            && told.contains(Told::KeyDown(key)) && !signals.contains(Signal::KeyHeld(key)))),
        Signal::KeyHeld(key) => !unfocused && !told.contains(Told::KeyUp(key)) && (signals.contains(
            signal,
        ) || (focused && told.contains(Told::KeyDown(key)))),
        Signal::MousePressed(button) => !unfocused && (signals.contains(signal) || (focused
            && told.contains(Told::ButtonDown(button)))),
        Signal::MouseReleased(button) => !unfocused && (signals.contains(signal) || (focused
            && told.contains(Told::ButtonUp(button)))),
    }
}

/// The signals of a helper once this is told.
pub open spec fn signals_after(
    signals: Set<Signal>,
    focused: bool,
    told: Set<Told>,
) -> Set<Signal> {
    Set::new(|signal: Signal| signal_after(signals, focused, told, signal))
}

/// The marks of a helper once this is told.
pub open spec fn marks_after(marks: Set<Mark>, told: Set<Told>) -> Set<Mark> {
    if told.contains(Told::Focused(false)) {
        marks.remove(Mark::Focused)
    } else if told.contains(Told::Focused(true)) {
        marks.insert(Mark::Focused)
    } else {
        marks
    }
}

/// The movement of the mouse once this is told: it is forgotten when the focus is lost.
pub open spec fn travel_told(travel: Seq<u32>, told: Set<Told>) -> Seq<u32> {
    if told.contains(Told::Focused(false)) {
        Seq::empty()
    } else {
        travel
    }
}

/// The movement of the mouse once a device event was received: a motion counts if the window has
/// the focus.
pub open spec fn travel_moved(travel: Seq<u32>, focused: bool, motion: Seq<u64>) -> Seq<u32> {
    if focused && motion.len() > 0 {
        travel_after(travel, motion)
    } else {
        travel
    }
}

/// Calls `WinitInputHelper::process_window_event`: the signals, the marks and the mouse
/// movement after what the event tells. The helper has 255 places for buttons, five of them for those with a name, and panics on
/// a button without a place if the window has the focus.
#[verifier::external_body]
pub(crate) fn process_window_event(input: &mut WinitInputHelper, event: &WindowEvent)
    requires
        marks(*old(input)).contains(Mark::Focused) ==> fits(told(*event)),
    ensures
        signals(*final(input)) == signals_after(
            signals(*old(input)),
            marks(*old(input)).contains(Mark::Focused),
            told(*event),
        ),
        marks(*final(input)) == marks_after(marks(*old(input)), told(*event)),
        travel(*final(input)) == travel_told(travel(*old(input)), told(*event)),
{
    input.process_window_event(event);
}

/// Calls `WinitInputHelper::process_device_event`: the signals and the marks stay, and a motion is
/// added to the movement of the mouse if the window has the focus. The sum depends on the movement
/// so far and on the motion alone.
#[verifier::external_body]
pub(crate) fn process_device_event(input: &mut WinitInputHelper, event: &DeviceEvent)
    ensures
        signals(*final(input)) == signals(*old(input)),
        marks(*final(input)) == marks(*old(input)),
        travel(*final(input)) == if marks(*old(input)).contains(Mark::Focused) && motion(
            *event,
        ).len() > 0 {
            travel_after(travel(*old(input)), motion(*event))
        } else {
            travel(*old(input))
        },
{
    input.process_device_event(event)
}

/// What happens to a helper.
pub enum InputEvent {
    StepBegins,
    StepEnds,
    /// A window event that tells this is received.
    Window(Set<Told>),
    /// A device event with this motion is received.
    Device(Seq<u64>),
}

/// What a helper holds.
pub struct InputModel {
    pub signals: Set<Signal>,
    pub marks: Set<Mark>,
    pub travel: Seq<u32>,
}

impl InputModel {
    /// What the helper holds afterwards.
    pub open spec fn after(self, event: InputEvent) -> InputModel {
        match event {
            InputEvent::StepBegins => InputModel {
                signals: held_of(self.signals),
                marks: marks_at_start(self.marks),
                travel: Seq::empty(),
            },
            InputEvent::StepEnds => InputModel { marks: marks_at_end(self.marks), ..self },
            InputEvent::Window(told) => InputModel {
                signals: signals_after(self.signals, self.marks.contains(Mark::Focused), told),
                marks: marks_after(self.marks, told),
                travel: travel_told(self.travel, told),
            },
            InputEvent::Device(motion) => InputModel {
                travel: travel_moved(self.travel, self.marks.contains(Mark::Focused), motion),
                ..self
            },
        }
    }

    /// What the helper holds after one event after the other.
    pub open spec fn after_all(self, events: Seq<InputEvent>) -> InputModel
        decreases events.len(),
    {
        if events.len() == 0 {
            self
        } else {
            self.after_all(events.drop_last()).after(events.last())
        }
    }

    /// Whether the key steers the camera, whether or not the view is grabbed.
    pub open spec fn steers(self, key: Key) -> bool {
        forall|is_grab: bool|
            (#[trigger] actions_of(is_grab, snapshot_of(self.signals))).contains(
                UpdateAction::Move(move_of(key)),
            )
    }

    /// Whether the key leaves the camera alone, whether or not the view is grabbed.
    pub open spec fn ignores(self, key: Key) -> bool {
        forall|is_grab: bool|
            !(#[trigger] actions_of(is_grab, snapshot_of(self.signals))).contains(
                UpdateAction::Move(move_of(key)),
            )
    }
}

/// Whether the event tells this.
pub open spec fn event_tells(event: InputEvent, what: Told) -> bool {
    event matches InputEvent::Window(told) && told.contains(what)
}

/// The move that a key makes.
pub open spec fn move_of(key: Key) -> CameraMove {
    match key {
        Key::W => CameraMove::Forward,
        Key::S => CameraMove::Backward,
        Key::A => CameraMove::Left,
        Key::D => CameraMove::Right,
        Key::Q => CameraMove::Down,
        Key::E => CameraMove::Up,
    }
}

/// A key steers the camera exactly if it went down in the step or is down, unless the window is
/// to close.
pub proof fn law_active_keys_steer(input: InputModel, key: Key)
    ensures
        is_active(input.signals, key) && !input.signals.contains(Signal::CloseRequested)
            ==> input.steers(key),
        !is_active(input.signals, key) || input.signals.contains(Signal::CloseRequested)
            ==> input.ignores(key),
{
    assert forall|is_grab: bool|
        (#[trigger] actions_of(is_grab, snapshot_of(input.signals))).contains(
            UpdateAction::Move(move_of(key)),
        ) == (is_active(input.signals, key) && !input.signals.contains(
            Signal::CloseRequested,
        )) by {
        law_actions_are_what_is_asked_for(is_grab, snapshot_of(input.signals));
    }
}

/// A key that goes down while the window has the focus is down, and steers the camera in every
/// step, until it goes up or the focus is lost; a request to close suspends it for its step.
pub proof fn law_key_steers_until_it_goes_up(
    input: InputModel,
    events: Seq<InputEvent>,
    key: Key,
)
    requires
        input.marks.contains(Mark::Focused),
        events.len() > 0,
        event_tells(events[0], Told::KeyDown(key)),
        forall|k: int|
            0 <= k < events.len() ==> !event_tells(#[trigger] events[k], Told::KeyUp(key))
                && !event_tells(events[k], Told::Focused(false)),
    ensures
        input.after_all(events).signals.contains(Signal::KeyHeld(key)),
        !input.after_all(events).signals.contains(Signal::CloseRequested) ==> input.after_all(
            events,
        ).steers(key),
    decreases events.len(),
{
    let rest = events.drop_last();
    assert(events.last() == events[events.len() - 1]);
    if rest.len() > 0 {
        assert(rest[0] == events[0]);
        assert forall|k: int| 0 <= k < rest.len() implies !event_tells(
            #[trigger] rest[k],
            Told::KeyUp(key),
        ) && !event_tells(rest[k], Told::Focused(false)) by {
            assert(rest[k] == events[k]);
        }
        law_key_steers_until_it_goes_up(input, rest, key);
    } else {
        assert(input.after_all(rest) == input);
    }
    law_active_keys_steer(input.after_all(events), key);
}

/// A key that goes up is not down until it goes down again, and from the next step on it leaves
/// the camera alone.
pub proof fn law_key_that_went_up_stops(
    input: InputModel,
    events: Seq<InputEvent>,
    key: Key,
)
    requires
        events.len() > 0,
        event_tells(events[0], Told::KeyUp(key)),
        forall|k: int|
            0 <= k < events.len() ==> !event_tells(#[trigger] events[k], Told::KeyDown(key)),
    ensures
        !input.after_all(events).signals.contains(Signal::KeyHeld(key)),
        (exists|k: int| 0 <= k < events.len() && (#[trigger] events[k]) is StepBegins)
            ==> input.after_all(events).ignores(key),
{
    lemma_key_that_went_up(input, events, key);
    law_active_keys_steer(input.after_all(events), key);
}

proof fn lemma_key_that_went_up(input: InputModel, events: Seq<InputEvent>, key: Key)
    requires
        events.len() > 0,
        event_tells(events[0], Told::KeyUp(key)),
        forall|k: int|
            0 <= k < events.len() ==> !event_tells(#[trigger] events[k], Told::KeyDown(key)),
    ensures
        !input.after_all(events).signals.contains(Signal::KeyHeld(key)),
        (exists|k: int| 0 <= k < events.len() && (#[trigger] events[k]) is StepBegins)
            ==> !is_active(input.after_all(events).signals, key),
    decreases events.len(),
{
    let rest = events.drop_last();
    assert(events.last() == events[events.len() - 1]);
    if rest.len() > 0 {
        assert(rest[0] == events[0]);
        assert forall|k: int| 0 <= k < rest.len() implies !event_tells(
            #[trigger] rest[k],
            Told::KeyDown(key),
        ) by {
            assert(rest[k] == events[k]);
        }
        lemma_key_that_went_up(input, rest, key);
        if exists|k: int| 0 <= k < events.len() && (#[trigger] events[k]) is StepBegins {
            let k = choose|k: int| 0 <= k < events.len() && (#[trigger] events[k]) is StepBegins;
            if k < rest.len() {
                assert(rest[k] is StepBegins);
            }
        }
    } else {
        assert(input.after_all(rest) == input);
    }
}

/// When the window loses the focus, every key leaves the camera alone at once, until it goes down
/// again.
pub proof fn law_lost_focus_stops_a_key(input: InputModel, events: Seq<InputEvent>, key: Key)
    requires
        events.len() > 0,
        event_tells(events[0], Told::Focused(false)),
        forall|k: int|
            0 <= k < events.len() ==> !event_tells(#[trigger] events[k], Told::KeyDown(key)),
    ensures
        !is_active(input.after_all(events).signals, key),
        input.after_all(events).ignores(key),
    decreases events.len(),
{
    let rest = events.drop_last();
    assert(events.last() == events[events.len() - 1]);
    if rest.len() > 0 {
        assert(rest[0] == events[0]);
        assert forall|k: int| 0 <= k < rest.len() implies !event_tells(
            #[trigger] rest[k],
            Told::KeyDown(key),
        ) by {
            assert(rest[k] == events[k]);
        }
        law_lost_focus_stops_a_key(input, rest, key);
    } else {
        assert(input.after_all(rest) == input);
    }
    law_active_keys_steer(input.after_all(events), key);
}

/// Without the focus, keys, buttons and the movement of the mouse leave no trace.
pub proof fn law_without_focus_nothing_counts(input: InputModel, events: Seq<InputEvent>)
    requires
        events.len() > 0,
        event_tells(events[0], Told::Focused(false)),
        forall|k: int|
            0 <= k < events.len() ==> !event_tells(#[trigger] events[k], Told::Focused(true)),
    ensures
        !input.after_all(events).marks.contains(Mark::Focused),
        input.after_all(events).travel == Seq::<u32>::empty(),
        forall|signal: Signal| #[trigger]
            input.after_all(events).signals.contains(signal) ==> signal is CloseRequested
                || signal is Resized,
    decreases events.len(),
{
    let rest = events.drop_last();
    assert(events.last() == events[events.len() - 1]);
    if rest.len() > 0 {
        assert(rest[0] == events[0]);
        assert forall|k: int| 0 <= k < rest.len() implies !event_tells(
            #[trigger] rest[k],
            Told::Focused(true),
        ) by {
            assert(rest[k] == events[k]);
        }
        law_without_focus_nothing_counts(input, rest);
    } else {
        assert(input.after_all(rest) == input);
    }
}

/// The motions among the events, in their order.
pub open spec fn motions_in(events: Seq<InputEvent>) -> Seq<Seq<u64>>
    decreases events.len(),
{
    if events.len() == 0 {
        Seq::empty()
    } else {
        match events.last() {
            InputEvent::Device(motion) if motion.len() > 0 => motions_in(events.drop_last()).push(
                motion,
            ),
            _ => motions_in(events.drop_last()),
        }
    }
}

/// The motions added up, from the first to the last.
pub open spec fn travel_of(motions: Seq<Seq<u64>>) -> Seq<u32>
    decreases motions.len(),
{
    if motions.len() == 0 {
        Seq::empty()
    } else {
        travel_after(travel_of(motions.drop_last()), motions.last())
    }
}

/// In a step during which the window keeps the focus, the movement of the mouse is made of the
/// motions received since the step began, each of them once and in their order. The focus is still
/// there.
pub proof fn law_travel_is_made_of_the_motions_of_the_step(
    input: InputModel,
    events: Seq<InputEvent>,
)
    requires
        input.marks.contains(Mark::Focused),
        events.len() > 0,
        events[0] is StepBegins,
        forall|k: int| 0 < k < events.len() ==> !((#[trigger] events[k]) is StepBegins),
        forall|k: int|
            0 <= k < events.len() ==> !event_tells(#[trigger] events[k], Told::Focused(false)),
    ensures
        input.after_all(events).marks.contains(Mark::Focused),
        input.after_all(events).travel == travel_of(motions_in(events)),
    decreases events.len(),
{
    let rest = events.drop_last();
    let last = events.last();
    assert(last == events[events.len() - 1]);
    if rest.len() > 0 {
        assert(rest[0] == events[0]);
        assert forall|k: int| 0 < k < rest.len() implies !((#[trigger] rest[k]) is StepBegins) by {
            assert(rest[k] == events[k]);
        }
        assert forall|k: int| 0 <= k < rest.len() implies !event_tells(
            #[trigger] rest[k],
            Told::Focused(false),
        ) by {
            assert(rest[k] == events[k]);
        }
        law_travel_is_made_of_the_motions_of_the_step(input, rest);
        if let InputEvent::Device(motion) = last {
            if motion.len() > 0 {
                assert(motions_in(events).drop_last() =~= motions_in(rest));
            }
        }
    } else {
        assert(input.after_all(rest) == input);
        assert(motions_in(rest) == Seq::<Seq<u64>>::empty());
    }
}

/// The left button grabs the view and lets it go, a request to close is seen, and each of them
/// leaves the rest of the input as it is. An event that tells nothing listed, or asks for a frame,
/// leaves all of it.
pub proof fn law_one_event_changes_one_thing(signals: Set<Signal>, focused: bool)
    ensures
        focused ==> snapshot_of(
            signals_after(signals, focused, set![Told::ButtonDown(Button::Left)]),
        ) == (InputSnapshot { grab_pressed: true, ..snapshot_of(signals) }),
        focused ==> snapshot_of(
            signals_after(signals, focused, set![Told::ButtonUp(Button::Left)]),
        ) == (InputSnapshot { grab_released: true, ..snapshot_of(signals) }),
        snapshot_of(signals_after(signals, focused, set![Told::CloseRequested])) == (InputSnapshot {
            close_requested: true,
            ..snapshot_of(signals)
        }),
        signals_after(signals, focused, Set::empty()) == signals,
        signals_after(signals, focused, set![Told::RedrawRequested]) == signals,
{
    assert(!tells_size(Set::<Told>::empty()));
    assert(!tells_size(set![Told::RedrawRequested]));
    assert(signals_after(signals, focused, Set::empty()) =~= signals);
    assert(signals_after(signals, focused, set![Told::RedrawRequested]) =~= signals);
}

/// A key that is down already does not go down again, however often the system repeats it.
pub proof fn law_repeated_key_goes_down_once(signals: Set<Signal>, focused: bool, key: Key)
    requires
        signals.contains(Signal::KeyHeld(key)),
    ensures
        signals_after(signals, focused, set![Told::KeyDown(key)]) == signals,
{
    let told = set![Told::KeyDown(key)];
    assert(!tells_size(told));
    assert(signals_after(signals, focused, told) =~= signals);
}

/// The window was resized in the step exactly if a size was told or had been before, and the last
/// size told is the only one that stays.
pub proof fn law_last_size_stays(signals: Set<Signal>, focused: bool, size: Extent, other: Extent)
    ensures
        signals_after(signals, focused, set![Told::Resized(size)]).contains(Signal::Resized(other))
            == (other == size),
{
    assert(set![Told::Resized(size)].contains(Told::Resized(size)));
}

/// A button other than the left one does not reach the controls, whether it goes down or up; nor
/// does one without a name, a new size, a request for a frame or a focus that is gained.
pub proof fn law_other_buttons_leave_the_controls_alone(
    signals: Set<Signal>,
    focused: bool,
    button: Button,
    number: u16,
    size: Extent,
)
    requires
        button != Button::Left,
    ensures
        snapshot_of(signals_after(signals, focused, set![Told::ButtonDown(button)])) == snapshot_of(
            signals,
        ),
        snapshot_of(signals_after(signals, focused, set![Told::ButtonUp(button)])) == snapshot_of(
            signals,
        ),
        snapshot_of(signals_after(signals, focused, set![Told::OtherButton(number)]))
            == snapshot_of(signals),
        snapshot_of(signals_after(signals, focused, set![Told::Resized(size)])) == snapshot_of(
            signals,
        ),
        snapshot_of(signals_after(signals, focused, set![Told::RedrawRequested])) == snapshot_of(
            signals,
        ),
        snapshot_of(signals_after(signals, focused, set![Told::Focused(true)])) == snapshot_of(
            signals,
        ),
{
}

/// A key that goes down while the window has the focus asks for its own move and leaves the rest
/// of the input as it is: W goes forward, S back, A left, D right, Q down and E up.
pub proof fn law_each_key_asks_for_its_move(signals: Set<Signal>)
    ensures
        snapshot_of(signals_after(signals, true, set![Told::KeyDown(Key::W)])) == (InputSnapshot {
            forward: true,
            ..snapshot_of(signals)
        }),
        snapshot_of(signals_after(signals, true, set![Told::KeyDown(Key::S)])) == (InputSnapshot {
            backward: true,
            ..snapshot_of(signals)
        }),
        snapshot_of(signals_after(signals, true, set![Told::KeyDown(Key::A)])) == (InputSnapshot {
            left: true,
            ..snapshot_of(signals)
        }),
        snapshot_of(signals_after(signals, true, set![Told::KeyDown(Key::D)])) == (InputSnapshot {
            right: true,
            ..snapshot_of(signals)
        }),
        snapshot_of(signals_after(signals, true, set![Told::KeyDown(Key::Q)])) == (InputSnapshot {
            down: true,
            ..snapshot_of(signals)
        }),
        snapshot_of(signals_after(signals, true, set![Told::KeyDown(Key::E)])) == (InputSnapshot {
            up: true,
            ..snapshot_of(signals)
        }),
{
}

/// A key that goes up leaves the grab, the request to close and the moves of the other keys as
/// they are. Its own move is asked for in this step only if the key also went down in it.
pub proof fn law_a_key_going_up_stops_its_own_move(signals: Set<Signal>, focused: bool, key: Key)
    ensures
        ({
            let before = snapshot_of(signals);
            let after = snapshot_of(signals_after(signals, focused, set![Told::KeyUp(key)]));
            &&& after.close_requested == before.close_requested
            &&& after.grab_pressed == before.grab_pressed
            &&& after.grab_released == before.grab_released
            &&& after.forward == if key is W {
                signals.contains(Signal::KeyPressed(key))
            } else {
                before.forward
            }
            &&& after.backward == if key is S {
                signals.contains(Signal::KeyPressed(key))
            } else {
                before.backward
            }
            &&& after.left == if key is A {
                signals.contains(Signal::KeyPressed(key))
            } else {
                before.left
            }
            &&& after.right == if key is D {
                signals.contains(Signal::KeyPressed(key))
            } else {
                before.right
            }
            &&& after.down == if key is Q {
                signals.contains(Signal::KeyPressed(key))
            } else {
                before.down
            }
            &&& after.up == if key is E {
                signals.contains(Signal::KeyPressed(key))
            } else {
                before.up
            }
        }),
{
}

/// When the focus is lost, nothing but a request to close is left of what the controls read.
/// Without the focus, keys and buttons that go down change nothing in it.
pub proof fn law_without_the_focus_only_a_request_to_close_is_read(
    signals: Set<Signal>,
    focused: bool,
    key: Key,
    button: Button,
)
    ensures
        snapshot_of(signals_after(signals, focused, set![Told::Focused(false)])) == (
        InputSnapshot {
            close_requested: signals.contains(Signal::CloseRequested),
            forward: false,
            backward: false,
            left: false,
            right: false,
            down: false,
            up: false,
            grab_pressed: false,
            grab_released: false,
        }),
        snapshot_of(signals_after(signals, false, set![Told::KeyDown(key)])) == snapshot_of(
            signals,
        ),
        snapshot_of(signals_after(signals, false, set![Told::ButtonDown(button)]))
            == snapshot_of(signals),
        snapshot_of(signals_after(signals, false, set![Told::ButtonUp(button)])) == snapshot_of(
            signals,
        ),
{
}

/// Only an event about the focus moves the focus, and it moves it where it says. No event changes
/// whether the step has begun or has a duration.
pub proof fn law_only_focus_events_move_the_focus(marks: Set<Mark>, what: Told, mark: Mark)
    ensures
        what matches Told::Focused(gained) ==> marks_after(marks, set![what]).contains(
            Mark::Focused,
        ) == gained,
        what !is Focused ==> marks_after(marks, set![what]) == marks,
        mark !is Focused ==> marks_after(marks, set![what]).contains(mark) == marks.contains(mark),
{
}

/// There is room for every button with a name and for the first 250 of the others; an event that
/// is not about a button always finds room.
pub proof fn law_which_buttons_find_room(what: Told)
    ensures
        what matches Told::OtherButton(number) ==> (fits(set![what]) <==> number < 250),
        what !is OtherButton ==> fits(set![what]),
        fits(Set::empty()),
{
    if let Told::OtherButton(number) = what {
        assert(set![what].contains(Told::OtherButton(number)));
    }
}

/// Whether the events are those of a step so far: it begins with the first of them and with no
/// other.
pub open spec fn is_one_step(events: Seq<InputEvent>) -> bool {
    &&& events.len() > 0
    &&& events[0] is StepBegins
    &&& forall|k: int| 0 < k < events.len() ==> !((#[trigger] events[k]) is StepBegins)
}

/// Whether one of the events tells this.
pub open spec fn told_among(events: Seq<InputEvent>, what: Told) -> bool {
    exists|k: int| 0 <= k < events.len() && event_tells(#[trigger] events[k], what)
}

proof fn lemma_told_among(events: Seq<InputEvent>, what: Told)
    requires
        events.len() > 0,
    ensures
        told_among(events, what) <==> told_among(events.drop_last(), what) || event_tells(
            events.last(),
            what,
        ),
{
    let rest = events.drop_last();
    if told_among(rest, what) {
        let k = choose|k: int| 0 <= k < rest.len() && event_tells(#[trigger] rest[k], what);
        assert(event_tells(events[k], what));
    }
    if told_among(events, what) {
        let k = choose|k: int| 0 <= k < events.len() && event_tells(#[trigger] events[k], what);
        if k < rest.len() {
            assert(event_tells(rest[k], what));
        }
    }
    if event_tells(events.last(), what) {
        assert(event_tells(events[events.len() - 1], what));
    }
}

proof fn lemma_rest_of_step(events: Seq<InputEvent>)
    requires
        is_one_step(events),
    ensures
        events.len() > 1 ==> is_one_step(events.drop_last()) && !(events.last() is StepBegins),
        events.len() == 1 ==> events.drop_last() == Seq::<InputEvent>::empty() && events.last()
            is StepBegins,
{
    let rest = events.drop_last();
    if events.len() > 1 {
        assert(rest[0] == events[0]);
        assert forall|k: int| 0 < k < rest.len() implies !((#[trigger] rest[k]) is StepBegins) by {
            assert(rest[k] == events[k]);
        }
        assert(events.last() == events[events.len() - 1]);
    } else {
        assert(rest =~= Seq::<InputEvent>::empty());
    }
}

/// A step asks for the end of the program exactly if the window was asked to close in it, whatever
/// else happened before and in the step.
pub proof fn law_the_program_ends_when_the_window_is_to_close(
    input: InputModel,
    events: Seq<InputEvent>,
    is_grab: bool,
)
    requires
        is_one_step(events),
    ensures
        actions_of(is_grab, snapshot_of(input.after_all(events).signals)).contains(
            UpdateAction::Exit,
        ) <==> told_among(events, Told::CloseRequested),
{
    lemma_close_is_noted(input, events);
    law_actions_are_what_is_asked_for(is_grab, snapshot_of(input.after_all(events).signals));
}

proof fn lemma_close_is_noted(input: InputModel, events: Seq<InputEvent>)
    requires
        is_one_step(events),
    ensures
        input.after_all(events).signals.contains(Signal::CloseRequested) <==> told_among(
            events,
            Told::CloseRequested,
        ),
    decreases events.len(),
{
    lemma_rest_of_step(events);
    lemma_told_among(events, Told::CloseRequested);
    if events.len() > 1 {
        lemma_close_is_noted(input, events.drop_last());
    }
}

/// A view that is not grabbed is grabbed only in a step in which the left button goes down, and a
/// view that is grabbed is let go only in one in which it goes up. In any other step the view stays
/// as it is, and turns exactly if it is grabbed, unless the window is to close.
pub proof fn law_only_the_left_button_grabs_and_lets_go(
    input: InputModel,
    events: Seq<InputEvent>,
    is_grab: bool,
)
    requires
        is_one_step(events),
    ensures
        ({
            let read = snapshot_of(input.after_all(events).signals);
            let after = grab_after(is_grab, read);
            &&& after && !is_grab ==> told_among(events, Told::ButtonDown(Button::Left))
            &&& is_grab && !after ==> told_among(events, Told::ButtonUp(Button::Left))
            &&& actions_of(is_grab, read).contains(UpdateAction::GrabStarted) ==> told_among(
                events,
                Told::ButtonDown(Button::Left),
            )
            &&& actions_of(is_grab, read).contains(UpdateAction::GrabEnded) ==> told_among(
                events,
                Told::ButtonUp(Button::Left),
            )
            &&& actions_of(is_grab, read).contains(UpdateAction::Turn) <==> after && !told_among(
                events,
                Told::CloseRequested,
            )
        }),
{
    lemma_buttons_are_noted(input, events, Button::Left);
    lemma_close_is_noted(input, events);
    law_actions_are_what_is_asked_for(is_grab, snapshot_of(input.after_all(events).signals));
}

proof fn lemma_buttons_are_noted(input: InputModel, events: Seq<InputEvent>, button: Button)
    requires
        is_one_step(events),
    ensures
        input.after_all(events).signals.contains(Signal::MousePressed(button)) ==> told_among(
            events,
            Told::ButtonDown(button),
        ),
        input.after_all(events).signals.contains(Signal::MouseReleased(button)) ==> told_among(
            events,
            Told::ButtonUp(button),
        ),
    decreases events.len(),
{
    lemma_rest_of_step(events);
    lemma_told_among(events, Told::ButtonDown(button));
    lemma_told_among(events, Told::ButtonUp(button));
    if events.len() > 1 {
        lemma_buttons_are_noted(input, events.drop_last(), button);
    }
}

/// In a step during which the window keeps the focus and is not asked to close, the left button
/// going up lets the view go, and going down without going up grabs it.
pub proof fn law_the_left_button_grabs_and_lets_go(
    input: InputModel,
    events: Seq<InputEvent>,
    is_grab: bool,
)
    requires
        is_one_step(events),
        input.marks.contains(Mark::Focused),
        !told_among(events, Told::Focused(false)),
        !told_among(events, Told::CloseRequested),
    ensures
        ({
            let after = grab_after(is_grab, snapshot_of(input.after_all(events).signals));
            &&& told_among(events, Told::ButtonUp(Button::Left)) ==> !after
            &&& told_among(events, Told::ButtonDown(Button::Left)) && !told_among(
                events,
                Told::ButtonUp(Button::Left),
            ) ==> after
        }),
{
    lemma_buttons_are_noted(input, events, Button::Left);
    lemma_close_is_noted(input, events);
    lemma_focused_buttons_are_noted(input, events, Button::Left);
}

proof fn lemma_focused_buttons_are_noted(input: InputModel, events: Seq<InputEvent>, button: Button)
    requires
        is_one_step(events),
        input.marks.contains(Mark::Focused),
        !told_among(events, Told::Focused(false)),
    ensures
        input.after_all(events).marks.contains(Mark::Focused),
        told_among(events, Told::ButtonDown(button)) ==> input.after_all(events).signals.contains(
            Signal::MousePressed(button),
        ),
        told_among(events, Told::ButtonUp(button)) ==> input.after_all(events).signals.contains(
            Signal::MouseReleased(button),
        ),
    decreases events.len(),
{
    lemma_rest_of_step(events);
    lemma_told_among(events, Told::ButtonDown(button));
    lemma_told_among(events, Told::ButtonUp(button));
    lemma_told_among(events, Told::Focused(false));
    if events.len() > 1 {
        lemma_focused_buttons_are_noted(input, events.drop_last(), button);
    } else {
        assert(input.after_all(events.drop_last()) == input);
    }
}

/// A key makes its move in a step only if it was down when the step began or goes down in it.
pub proof fn law_only_its_own_key_makes_a_move(
    input: InputModel,
    events: Seq<InputEvent>,
    is_grab: bool,
    key: Key,
)
    requires
        is_one_step(events),
    ensures
        actions_of(is_grab, snapshot_of(input.after_all(events).signals)).contains(
            UpdateAction::Move(move_of(key)),
        ) ==> input.signals.contains(Signal::KeyHeld(key)) || told_among(
            events,
            Told::KeyDown(key),
        ),
{
    lemma_keys_are_noted(input, events, key);
    law_actions_are_what_is_asked_for(is_grab, snapshot_of(input.after_all(events).signals));
}

proof fn lemma_keys_are_noted(input: InputModel, events: Seq<InputEvent>, key: Key)
    requires
        is_one_step(events),
    ensures
        is_active(input.after_all(events).signals, key) ==> input.signals.contains(
            Signal::KeyHeld(key),
        ) || told_among(events, Told::KeyDown(key)),
    decreases events.len(),
{
    lemma_rest_of_step(events);
    lemma_told_among(events, Told::KeyDown(key));
    if events.len() > 1 {
        lemma_keys_are_noted(input, events.drop_last(), key);
    } else {
        assert(input.after_all(events.drop_last()) == input);
    }
}

/// A step counts as one with a resize exactly if the window was given a size in it, with or
/// without the focus.
pub proof fn law_a_step_is_resized_when_a_size_is_told(
    input: InputModel,
    events: Seq<InputEvent>,
)
    requires
        is_one_step(events),
    ensures
        is_resized(input.after_all(events).signals) <==> exists|size: Extent| #[trigger]
            told_among(events, Told::Resized(size)),
    decreases events.len(),
{
    lemma_rest_of_step(events);
    let rest = events.drop_last();
    let before = input.after_all(rest).signals;
    let after = input.after_all(events).signals;
    assert forall|size: Extent| #[trigger]
        told_among(events, Told::Resized(size)) == (told_among(rest, Told::Resized(size))
            || event_tells(events.last(), Told::Resized(size))) by {
        lemma_told_among(events, Told::Resized(size));
    }
    if events.len() > 1 {
        law_a_step_is_resized_when_a_size_is_told(input, rest);
        if is_resized(before) {
            let size = choose|size: Extent| before.contains(Signal::Resized(size));
            let other = choose|other: Extent| #[trigger]
                told_among(rest, Told::Resized(other));
            assert(told_among(events, Told::Resized(other)));
            if let InputEvent::Window(told) = events.last() {
                if tells_size(told) {
                    let last = choose|last: Extent| #[trigger] told.contains(Told::Resized(last));
                    assert(after.contains(Signal::Resized(last)));
                } else {
                    assert(after.contains(Signal::Resized(size)));
                }
            } else {
                assert(after.contains(Signal::Resized(size)));
            }
        }
        if exists|size: Extent| #[trigger] told_among(events, Told::Resized(size)) {
            let size = choose|size: Extent| #[trigger] told_among(events, Told::Resized(size));
            if event_tells(events.last(), Told::Resized(size)) {
                assert(after.contains(Signal::Resized(size)));
            }
        }
        if is_resized(after) {
            let size = choose|size: Extent| after.contains(Signal::Resized(size));
            if before.contains(Signal::Resized(size)) {
                assert(is_resized(before));
            } else {
                assert(event_tells(events.last(), Told::Resized(size)));
                assert(told_among(events, Told::Resized(size)));
            }
        }
    } else {
        assert forall|size: Extent| !#[trigger] told_among(rest, Told::Resized(size)) by {}
    }
}

/// A window event tells one thing at most, and that is what is read of it.
pub proof fn law_what_is_told_is_read(event: WindowEvent, r: Option<Told>, t: Told, other: Told)
    requires
        call_ensures(read_event, (&event,), r),
    ensures
        told(event).contains(t) ==> r == Some(t),
        r == Some(t) ==> told(event).contains(t),
        told(event).contains(t) && told(event).contains(other) ==> t == other,
{
}

} // verus!
