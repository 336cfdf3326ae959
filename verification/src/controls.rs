//! What the input of a step does to the camera.

use vstd::prelude::*;

use crate::input::{held_of, law_events_act_once, snapshot_of, InputSnapshot, Signal};

verus! {

/// A move of the camera.
#[derive(Debug, Clone, Copy, PartialEq, Eq, Structural)]
pub enum CameraMove {
    Forward,
    Backward,
    Left,
    Right,
    Down,
    Up,
}

/// A line that the camera can move along.
#[derive(Debug, Clone, Copy, PartialEq, Eq, Structural)]
pub enum CameraAxis {
    /// The direction of view.
    View,
    /// The horizontal line across the camera's position.
    Side,
    /// The vertical line.
    Vertical,
}

/// Which way a move goes.
#[derive(Debug, Clone, Copy, PartialEq, Eq, Structural)]
pub struct Course {
    pub axis: CameraAxis,
    /// Whether the move goes against the axis.
    pub reverse: bool,
}

impl CameraMove {
    /// The move back.
    pub open spec fn opposite(self) -> CameraMove {
        match self {
            CameraMove::Forward => CameraMove::Backward,
            CameraMove::Backward => CameraMove::Forward,
            CameraMove::Left => CameraMove::Right,
            CameraMove::Right => CameraMove::Left,
            CameraMove::Down => CameraMove::Up,
            CameraMove::Up => CameraMove::Down,
        }
    }

    /// Which way the move goes.
    pub open spec fn heading(self) -> Course {
        match self {
            CameraMove::Forward => Course { axis: CameraAxis::View, reverse: false },
            CameraMove::Backward => Course { axis: CameraAxis::View, reverse: true },
            CameraMove::Left => Course { axis: CameraAxis::Side, reverse: true },
            CameraMove::Right => Course { axis: CameraAxis::Side, reverse: false },
            CameraMove::Down => Course { axis: CameraAxis::Vertical, reverse: true },
            CameraMove::Up => Course { axis: CameraAxis::Vertical, reverse: false },
        }
    }

    /// Which way the move goes.
    pub fn course(&self) -> (r: Course)
        ensures
            r == self.heading(),
    {
        match self {
            CameraMove::Forward => Course { axis: CameraAxis::View, reverse: false },
            CameraMove::Backward => Course { axis: CameraAxis::View, reverse: true },
            CameraMove::Left => Course { axis: CameraAxis::Side, reverse: true },
            CameraMove::Right => Course { axis: CameraAxis::Side, reverse: false },
            CameraMove::Down => Course { axis: CameraAxis::Vertical, reverse: true },
            CameraMove::Up => Course { axis: CameraAxis::Vertical, reverse: false },
        }
    }
}

/// A move and its opposite go along the same axis, one each way.
pub proof fn law_opposite_moves_share_an_axis(made: CameraMove)
    ensures
        made.opposite().heading().axis == made.heading().axis,
        made.opposite().heading().reverse != made.heading().reverse,
        made.opposite().opposite() == made,
{
}

/// How far the mouse has to move, in pixels, for the turns below.
pub const TURN_PIXELS: u32 = 700;

/// How far the view turns to the side over that distance, in degrees.
pub const TURN_YAW_DEGREES: u32 = 90;

/// How far the view turns up or down over that distance, in degrees.
pub const TURN_PITCH_DEGREES: u32 = 45;

/// Something to do once the input of a step is complete.
#[derive(Debug, Clone, Copy, PartialEq, Eq, Structural)]
pub enum UpdateAction {
    /// End the program.
    Exit,
    Move(CameraMove),
    /// Tell that the view was grabbed.
    GrabStarted,
    /// Tell that the view was let go.
    GrabEnded,
    /// Turn the camera by as much as the mouse moved in the step.
    Turn,
    /// Ask for the window to be drawn again.
    RequestRedraw,
}

/// Whether the view is grabbed after a step. A release counts for more than a press, and a
/// request to close leaves the view as it is.
pub open spec fn grab_after(is_grab: bool, input: InputSnapshot) -> bool {
    if input.close_requested {
        is_grab
    } else {
        !input.grab_released && (input.grab_pressed || is_grab)
    }
}

/// Everything that a step can ask for, in the order in which it is done.
pub open spec fn agenda() -> Seq<UpdateAction> {
    seq![
        UpdateAction::Exit,
        UpdateAction::Move(CameraMove::Forward),
        UpdateAction::Move(CameraMove::Backward),
        UpdateAction::Move(CameraMove::Left),
        UpdateAction::Move(CameraMove::Right),
        UpdateAction::Move(CameraMove::Down),
        UpdateAction::Move(CameraMove::Up),
        UpdateAction::GrabStarted,
        UpdateAction::GrabEnded,
        UpdateAction::Turn,
    ]
}

/// Whether a step asks for the action. A request to close asks for nothing else. Opposite moves
/// are both made.
pub open spec fn asks_for(is_grab: bool, input: InputSnapshot, action: UpdateAction) -> bool {
    if input.close_requested {
        action == UpdateAction::Exit
    } else {
        match action {
            UpdateAction::Exit => false,
            UpdateAction::Move(CameraMove::Forward) => input.forward,
            UpdateAction::Move(CameraMove::Backward) => input.backward,
            UpdateAction::Move(CameraMove::Left) => input.left,
            UpdateAction::Move(CameraMove::Right) => input.right,
            UpdateAction::Move(CameraMove::Down) => input.down,
            UpdateAction::Move(CameraMove::Up) => input.up,
            UpdateAction::GrabStarted => input.grab_pressed,
            UpdateAction::GrabEnded => input.grab_released,
            UpdateAction::Turn => grab_after(is_grab, input),
            UpdateAction::RequestRedraw => false,
        }
    }
}

/// What a step asks for, in the order in which it is done.
pub open spec fn actions_of(is_grab: bool, input: InputSnapshot) -> Seq<UpdateAction> {
    agenda().filter(|action: UpdateAction| asks_for(is_grab, input, action))
}

/// Takes the input of a step: whether the view is grabbed from now on, and what there is to do.
pub fn update(is_grab: bool, input: &InputSnapshot) -> (r: (bool, Vec<UpdateAction>))
    ensures
        r.0 == grab_after(is_grab, *input),
        r.1@ == actions_of(is_grab, *input),
{
    let stays = !input.close_requested;
    let grabbed = if stays {
        !input.grab_released && (input.grab_pressed || is_grab)
    } else {
        is_grab
    };
    let candidates: Vec<(bool, UpdateAction)> = vec![
        (input.close_requested, UpdateAction::Exit),
        (stays && input.forward, UpdateAction::Move(CameraMove::Forward)),
        (stays && input.backward, UpdateAction::Move(CameraMove::Backward)),
        (stays && input.left, UpdateAction::Move(CameraMove::Left)),
        (stays && input.right, UpdateAction::Move(CameraMove::Right)),
        (stays && input.down, UpdateAction::Move(CameraMove::Down)),
        (stays && input.up, UpdateAction::Move(CameraMove::Up)),
        (stays && input.grab_pressed, UpdateAction::GrabStarted),
        (stays && input.grab_released, UpdateAction::GrabEnded),
        (stays && grabbed, UpdateAction::Turn),
    ];
    let mut actions: Vec<UpdateAction> = Vec::new();
    let ghost wanted = |action: UpdateAction| asks_for(is_grab, *input, action);
    let mut i: usize = 0;
    assert(agenda().take(0).filter(wanted) =~= Seq::<UpdateAction>::empty()) by {
        reveal(Seq::filter);
    }
    while i < candidates.len()
        invariant
            i <= candidates@.len(),
            candidates@.len() == agenda().len(),
            forall|k: int|
                0 <= k < agenda().len() ==> (#[trigger] candidates@[k]).1 == agenda()[k]
                    && candidates@[k].0 == wanted(agenda()[k]),
            actions@ == agenda().take(i as int).filter(wanted),
        decreases candidates.len() - i,
    {
        let (is_wanted, action) = candidates[i];
        if is_wanted {
            actions.push(action);
        }
        proof {
            let before = agenda().take(i as int);
            let after = agenda().take(i + 1);
            assert(after.drop_last() =~= before);
            assert(after.last() == action);
            reveal(Seq::filter);
        }
        i = i + 1;
    }
    assert(agenda().take(agenda().len() as int) =~= agenda());
    (grabbed, actions)
}

/// A step's actions are the ones that it asks for, each of them once.
pub proof fn law_actions_are_what_is_asked_for(is_grab: bool, input: InputSnapshot)
    ensures
        forall|action: UpdateAction| #[trigger]
            actions_of(is_grab, input).contains(action) <==> asks_for(is_grab, input, action),
        actions_of(is_grab, input).no_duplicates(),
{
    let wanted = |action: UpdateAction| asks_for(is_grab, input, action);
    assert forall|action: UpdateAction| #[trigger]
        actions_of(is_grab, input).contains(action) == asks_for(is_grab, input, action) by {
        if asks_for(is_grab, input, action) {
            let i = place_of(action);
            assert(agenda()[i] == action);
            agenda().lemma_filter_contains(wanted, i);
        }
        if agenda().filter(wanted).contains(action) {
            let i = agenda().filter(wanted).index_of(action);
            agenda().lemma_filter_pred(wanted, i);
        }
    }
    assert forall|i: int, j: int| 0 <= i < j < agenda().len() implies agenda()[i]
        != agenda()[j] by {
        assert(place_of(agenda()[i]) == i);
        assert(place_of(agenda()[j]) == j);
    }
    lemma_filter_keeps_distinct(agenda(), wanted);
}

/// The place of an action in the agenda.
spec fn place_of(action: UpdateAction) -> int {
    match action {
        UpdateAction::Exit => 0,
        UpdateAction::Move(CameraMove::Forward) => 1,
        UpdateAction::Move(CameraMove::Backward) => 2,
        UpdateAction::Move(CameraMove::Left) => 3,
        UpdateAction::Move(CameraMove::Right) => 4,
        UpdateAction::Move(CameraMove::Down) => 5,
        UpdateAction::Move(CameraMove::Up) => 6,
        UpdateAction::GrabStarted => 7,
        UpdateAction::GrabEnded => 8,
        UpdateAction::Turn => 9,
        UpdateAction::RequestRedraw => -1,
    }
}

proof fn lemma_filter_keeps_distinct(s: Seq<UpdateAction>, p: spec_fn(UpdateAction) -> bool)
    requires
        s.no_duplicates(),
    ensures
        s.filter(p).no_duplicates(),
    decreases s.len(),
{
    reveal(Seq::filter);
    if s.len() > 0 {
        let rest = s.drop_last();
        lemma_filter_keeps_distinct(rest, p);
        assert(!rest.filter(p).contains(s.last())) by {
            if rest.filter(p).contains(s.last()) {
                rest.lemma_filter_contains_rev(p, s.last());
                let i = rest.index_of(s.last());
                assert(s[i] == s[s.len() - 1]);
            }
        }
    }
}

/// A request to close asks for the end of the program, and leaves the view as it is.
pub proof fn law_close_does_nothing_else(is_grab: bool, input: InputSnapshot)
    requires
        input.close_requested,
    ensures
        actions_of(is_grab, input) == seq![UpdateAction::Exit],
        grab_after(is_grab, input) == is_grab,
{
    law_actions_are_what_is_asked_for(is_grab, input);
    let actions = actions_of(is_grab, input);
    assert(actions.contains(UpdateAction::Exit));
    assert forall|i: int| 0 <= i < actions.len() implies actions[i] == UpdateAction::Exit by {
        assert(actions.contains(actions[i]));
    }
    if actions.len() > 1 {
        assert(actions[0] == actions[1]);
    }
    assert(actions =~= seq![UpdateAction::Exit]);
}

/// Whether the view is grabbed after steps with these inputs.
pub open spec fn grab_after_all(is_grab: bool, inputs: Seq<InputSnapshot>) -> bool
    decreases inputs.len(),
{
    if inputs.len() == 0 {
        is_grab
    } else {
        grab_after(grab_after_all(is_grab, inputs.drop_last()), inputs.last())
    }
}

/// A view that is grabbed stays so, and turns with the mouse in every step, until the button
/// goes up.
pub proof fn law_drag_lasts_until_release(
    is_grab: bool,
    inputs: Seq<InputSnapshot>,
    press: int,
    later: int,
)
    requires
        0 <= press <= later < inputs.len(),
        inputs[press].grab_pressed,
        !inputs[press].close_requested,
        forall|k: int| press <= k <= later ==> !(#[trigger] inputs[k]).grab_released,
    ensures
        grab_after_all(is_grab, inputs.take(later + 1)),
        !inputs[later].close_requested ==> actions_of(
            grab_after_all(is_grab, inputs.take(later)),
            inputs[later],
        ).contains(UpdateAction::Turn),
    decreases later - press,
{
    let upto = inputs.take(later + 1);
    assert(upto.drop_last() =~= inputs.take(later));
    assert(upto.last() == inputs[later]);
    if press < later {
        law_drag_lasts_until_release(is_grab, inputs, press, later - 1);
    }
    law_actions_are_what_is_asked_for(grab_after_all(is_grab, inputs.take(later)), inputs[later]);
}

/// A view that was let go does not turn, until the button goes down again.
pub proof fn law_release_lasts_until_press(
    is_grab: bool,
    inputs: Seq<InputSnapshot>,
    release: int,
    later: int,
)
    requires
        0 <= release <= later < inputs.len(),
        inputs[release].grab_released,
        !inputs[release].close_requested,
        forall|k: int| release < k <= later ==> !(#[trigger] inputs[k]).grab_pressed,
    ensures
        !grab_after_all(is_grab, inputs.take(later + 1)),
        !actions_of(grab_after_all(is_grab, inputs.take(later)), inputs[later]).contains(
            UpdateAction::Turn,
        ),
    decreases later - release,
{
    let upto = inputs.take(later + 1);
    assert(upto.drop_last() =~= inputs.take(later));
    assert(upto.last() == inputs[later]);
    if release < later {
        law_release_lasts_until_press(is_grab, inputs, release, later - 1);
    }
    law_actions_are_what_is_asked_for(grab_after_all(is_grab, inputs.take(later)), inputs[later]);
}

/// A step without events neither grabs the view nor lets it go, and does not end the program.
pub proof fn law_quiet_step_keeps_the_view(is_grab: bool, before: Set<Signal>)
    ensures
        grab_after(is_grab, snapshot_of(held_of(before))) == is_grab,
        actions_of(is_grab, snapshot_of(held_of(before))).contains(UpdateAction::Turn) == is_grab,
        !actions_of(is_grab, snapshot_of(held_of(before))).contains(UpdateAction::Exit),
{
    law_events_act_once(before);
    law_actions_are_what_is_asked_for(is_grab, snapshot_of(held_of(before)));
}

/// A step asks for the end of the program exactly if the window was asked to close, whatever else
/// happens in it. It never asks for the window to be drawn.
pub proof fn law_the_program_ends_only_on_request(
    is_grab: bool,
    input: InputSnapshot,
    r: (bool, Vec<UpdateAction>),
)
    requires
        call_ensures(update, (is_grab, &input), r),
    ensures
        r.1@.contains(UpdateAction::Exit) <==> input.close_requested,
        actions_of(is_grab, input).contains(UpdateAction::Exit) <==> input.close_requested,
        r.1@.contains(UpdateAction::Exit) ==> r.1@.len() == 1 && r.0 == is_grab,
        !r.1@.contains(UpdateAction::RequestRedraw),
{
    law_actions_are_what_is_asked_for(is_grab, input);
    if input.close_requested {
        law_close_does_nothing_else(is_grab, input);
    }
}

/// Unless the window is to close, each move is made exactly if its own input asks for it, also
/// when the opposite one is made. Nothing else in the input, and no grab, stands in the way.
pub proof fn law_each_move_has_its_own_input(
    is_grab: bool,
    input: InputSnapshot,
    r: (bool, Vec<UpdateAction>),
)
    requires
        !input.close_requested,
        call_ensures(update, (is_grab, &input), r),
    ensures
        r.1@.contains(UpdateAction::Move(CameraMove::Forward)) <==> input.forward,
        r.1@.contains(UpdateAction::Move(CameraMove::Backward)) <==> input.backward,
        r.1@.contains(UpdateAction::Move(CameraMove::Left)) <==> input.left,
        r.1@.contains(UpdateAction::Move(CameraMove::Right)) <==> input.right,
        r.1@.contains(UpdateAction::Move(CameraMove::Down)) <==> input.down,
        r.1@.contains(UpdateAction::Move(CameraMove::Up)) <==> input.up,
        r.1@.no_duplicates(),
{
    law_actions_are_what_is_asked_for(is_grab, input);
}

/// Unless the window is to close, a press grabs the view and a release lets it go, which counts
/// for more; without either the view stays as it is. Both are told, and the view turns exactly if
/// it is grabbed in the end.
pub proof fn law_the_button_grabs_and_lets_go(
    is_grab: bool,
    input: InputSnapshot,
    r: (bool, Vec<UpdateAction>),
)
    requires
        !input.close_requested,
        call_ensures(update, (is_grab, &input), r),
    ensures
        input.grab_released ==> !r.0,
        input.grab_pressed && !input.grab_released ==> r.0,
        !input.grab_pressed && !input.grab_released ==> r.0 == is_grab,
        r.1@.contains(UpdateAction::GrabStarted) <==> input.grab_pressed,
        r.1@.contains(UpdateAction::GrabEnded) <==> input.grab_released,
        r.1@.contains(UpdateAction::Turn) <==> r.0,
        r.0 == grab_after(is_grab, input),
{
    law_actions_are_what_is_asked_for(is_grab, input);
}

/// The actions of a step come in a fixed order: the moves, along the view, to the sides and
/// vertically; then what there is to tell of the grab, its start first; then the turn.
pub proof fn law_actions_come_in_order(
    is_grab: bool,
    input: InputSnapshot,
    r: (bool, Vec<UpdateAction>),
    i: int,
    j: int,
)
    requires
        call_ensures(update, (is_grab, &input), r),
        0 <= i < j < r.1@.len(),
    ensures
        r.1@[j] is Move ==> r.1@[i] is Move,
        r.1@[i] !is Turn,
        r.1@[j] !is GrabStarted || r.1@[i] is Move,
        r.1@[j] !is GrabEnded || r.1@[i] is Move || r.1@[i] is GrabStarted,
        r.1@[j] != UpdateAction::Move(CameraMove::Forward),
        r.1@[j] == UpdateAction::Move(CameraMove::Backward) ==> r.1@[i] == UpdateAction::Move(
            CameraMove::Forward,
        ),
        r.1@[i] == UpdateAction::Move(CameraMove::Up) ==> r.1@[j] !is Move,
        r.1@[i] == UpdateAction::Move(CameraMove::Down) && r.1@[j] is Move ==> r.1@[j]
            == UpdateAction::Move(CameraMove::Up),
        r.1@[i] == UpdateAction::Move(CameraMove::Right) ==> r.1@[j] != UpdateAction::Move(
            CameraMove::Left,
        ),
{
    law_actions_are_what_is_asked_for(is_grab, input);
    lemma_filter_keeps_order(
        agenda(),
        |action: UpdateAction| asks_for(is_grab, input, action),
        i,
        j,
    );
}

/// What is left of a sequence stands in the order in which it stood there.
proof fn lemma_filter_keeps_order(
    s: Seq<UpdateAction>,
    p: spec_fn(UpdateAction) -> bool,
    i: int,
    j: int,
)
    requires
        0 <= i < j < s.filter(p).len(),
    ensures
        exists|a: int, b: int|
            0 <= a < b < s.len() && #[trigger] s[a] == s.filter(p)[i] && #[trigger] s[b]
                == s.filter(p)[j],
    decreases s.len(),
{
    reveal(Seq::filter);
    let rest = s.drop_last();
    if j < rest.filter(p).len() {
        lemma_filter_keeps_order(rest, p, i, j);
        let (a, b) = choose|a: int, b: int|
            0 <= a < b < rest.len() && #[trigger] rest[a] == rest.filter(p)[i] && #[trigger] rest[b]
                == rest.filter(p)[j];
        assert(s[a] == s.filter(p)[i] && s[b] == s.filter(p)[j]);
    } else {
        assert(rest.filter(p).contains(rest.filter(p)[i]));
        rest.lemma_filter_contains_rev(p, rest.filter(p)[i]);
        let a = rest.index_of(rest.filter(p)[i]);
        assert(s[a] == s.filter(p)[i]);
        assert(s[s.len() - 1] == s.filter(p)[j]);
    }
}

/// Forward goes along the view, right along the side and up along the vertical, and no two moves
/// go the same way.
pub proof fn law_each_move_goes_its_own_way(
    made: CameraMove,
    other: CameraMove,
    r: Course,
    of_other: Course,
)
    requires
        call_ensures(CameraMove::course, (&made,), r),
        call_ensures(CameraMove::course, (&other,), of_other),
    ensures
        made is Forward ==> r.axis is View && !r.reverse,
        made is Right ==> r.axis is Side && !r.reverse,
        made is Up ==> r.axis is Vertical && !r.reverse,
        r == of_other <==> made == other,
        other == made.opposite() ==> r.axis == of_other.axis && r.reverse != of_other.reverse,
        made.opposite() != made,
        made is Forward ==> made.opposite() is Backward,
        made is Left ==> made.opposite() is Right,
        made is Down ==> made.opposite() is Up,
{
}

} // verus!
