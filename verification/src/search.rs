//! The search through the physical devices, one question at a time.

use vstd::prelude::*;

use crate::device::{queue_abilities, DeviceProfile, QueueAbility};

verus! {

/// Whether it matters if this queue family presents to the window: the device is suitable and
/// the family does graphics.
pub open spec fn worth_asking(devices: Seq<DeviceProfile>, device: int, family: int) -> bool {
    &&& 0 <= device < devices.len()
    &&& devices[device].suits()
    &&& 0 <= family < devices[device].queue_families@.len()
    &&& queue_abilities(devices[device].queue_families@[family]).contains(QueueAbility::Graphics)
}

/// Whether one queue family stands before another: on an earlier device, or earlier on the same.
pub open spec fn stands_before(d1: int, f1: int, d2: int, f2: int) -> bool {
    d1 < d2 || (d1 == d2 && f1 < f2)
}

/// Whether `family` is the one to use of the device, where `presents` tells which families
/// present to the window: the first that does graphics and presents.
pub open spec fn is_family_of(
    devices: Seq<DeviceProfile>,
    presents: spec_fn(int, int) -> bool,
    device: int,
    family: int,
) -> bool {
    &&& worth_asking(devices, device, family)
    &&& presents(device, family)
    &&& forall|earlier: int|
        0 <= earlier < family ==> !(#[trigger] worth_asking(devices, device, earlier) && presents(
            device,
            earlier,
        ))
}

/// Whether `choice` is the device and the queue family to use, if only the first `n` devices
/// count: one of the best kind, the first of those; none if no device has a family to use.
pub open spec fn is_choice_among(
    devices: Seq<DeviceProfile>,
    presents: spec_fn(int, int) -> bool,
    n: int,
    choice: Option<(int, int)>,
) -> bool {
    match choice {
        None => forall|d: int, f: int|
            0 <= d < n ==> !#[trigger] is_family_of(devices, presents, d, f),
        Some((device, family)) => {
            &&& 0 <= device < n
            &&& is_family_of(devices, presents, device, family)
            &&& forall|d: int, f: int|
                0 <= d < n && #[trigger] is_family_of(devices, presents, d, f) ==> {
                    ||| devices[device].kind.place() < devices[d].kind.place()
                    ||| devices[device].kind.place() == devices[d].kind.place() && device <= d
                }
        },
    }
}

/// Whether `choice` is the device and the queue family to use.
pub open spec fn is_choice(
    devices: Seq<DeviceProfile>,
    presents: spec_fn(int, int) -> bool,
    choice: Option<(int, int)>,
) -> bool {
    is_choice_among(devices, presents, devices.len() as int, choice)
}

/// A search under way: everything before the queue family `family` of the device `device` has
/// been dealt with, and `best` is the choice so far.
pub struct SearchModel {
    pub devices: Seq<DeviceProfile>,
    pub device: int,
    pub family: int,
    pub best: Option<(int, int)>,
}

impl SearchModel {
    pub open spec fn wf(self) -> bool {
        &&& 0 <= self.device <= self.devices.len()
        &&& 0 <= self.family
        &&& self.family > 0 ==> self.device < self.devices.len() && self.family
            <= self.devices[self.device].queue_families@.len()
        &&& self.best matches Some((d, f)) ==> d < self.device && worth_asking(self.devices, d, f)
    }

    /// The search at its start.
    pub open spec fn start(devices: Seq<DeviceProfile>) -> SearchModel {
        SearchModel { devices, device: 0, family: 0, best: None }
    }

    /// The search with its place moved.
    pub open spec fn at(self, device: int, family: int) -> SearchModel {
        SearchModel { device, family, ..self }
    }

    /// Whether a queue family that is worth asking about is still to come.
    pub open spec fn to_come(self, d: int, f: int) -> bool {
        worth_asking(self.devices, d, f) && !stands_before(d, f, self.device, self.family)
    }

    /// Whether the queue family is the next one to ask about.
    pub open spec fn is_next(self, device: int, family: int) -> bool {
        &&& self.to_come(device, family)
        &&& forall|d: int, f: int| #[trigger]
            self.to_come(d, f) ==> !stands_before(d, f, device, family)
    }

    /// Whether there is nothing left to ask.
    pub open spec fn is_over(self) -> bool {
        forall|d: int, f: int| !#[trigger] self.to_come(d, f)
    }

    /// The search once the question at its place has been answered: after a yes the rest of the
    /// device does not matter, and the device is the new choice if it is of a better kind than
    /// the choice so far.
    pub open spec fn answered(self, presents: bool) -> SearchModel {
        if !presents {
            self.at(self.device, self.family + 1)
        } else {
            let better = match self.best {
                None => true,
                Some((d, _)) => self.devices[self.device].kind.place()
                    < self.devices[d].kind.place(),
            };
            SearchModel {
                devices: self.devices,
                device: self.device + 1,
                family: 0,
                best: if better {
                    Some((self.device, self.family))
                } else {
                    self.best
                },
            }
        }
    }

    /// Whether the search has gone as it should if `presents` tells which families present to
    /// the window.
    pub open spec fn agrees_with(self, presents: spec_fn(int, int) -> bool) -> bool {
        &&& is_choice_among(self.devices, presents, self.device, self.best)
        &&& forall|f: int|
            0 <= f < self.family ==> !(#[trigger] worth_asking(self.devices, self.device, f)
                && presents(self.device, f))
    }
}

/// The device to use, by its place in the list, and the queue family to use of it.
#[derive(Debug, Clone, Copy, PartialEq, Eq, Structural)]
pub struct Selection {
    pub device: usize,
    pub queue_family_index: u32,
}

/// What the search wants.
#[derive(Debug, Clone, Copy, PartialEq, Eq, Structural)]
pub enum SearchStep {
    /// To know whether the queue family of the device presents to the window.
    Ask { device: usize, family: usize },
    /// Nothing more: this is the choice, if any device can be used.
    Done(Option<Selection>),
}

/// The search for the device and the queue family to render with.
pub struct DeviceSearch {
    devices: Vec<DeviceProfile>,
    device: usize,
    family: usize,
    best: Option<(usize, usize)>,
}

impl View for DeviceSearch {
    type V = SearchModel;

    closed spec fn view(&self) -> SearchModel {
        SearchModel {
            devices: self.devices@,
            device: self.device as int,
            family: self.family as int,
            best: match self.best {
                None => None,
                Some((d, f)) => Some((d as int, f as int)),
            },
        }
    }
}

/// The choice in the form that the device is made with.
pub open spec fn selection_of(choice: Option<(int, int)>) -> Option<Selection> {
    match choice {
        None => None,
        Some((d, f)) => Some(
            Selection { device: d as usize, queue_family_index: f as u32 },
        ),
    }
}

impl DeviceSearch {
    /// A search through the devices, in their order.
    pub fn new(devices: Vec<DeviceProfile>) -> (r: DeviceSearch)
        ensures
            r@ == SearchModel::start(devices@),
            r@.wf(),
    {
        DeviceSearch { devices, device: 0, family: 0, best: None }
    }

    /// Moves on to the next queue family that is worth asking about, or to the end.
    pub fn advance(&mut self) -> (r: SearchStep)
        requires
            old(self)@.wf(),
        ensures
            final(self)@.wf(),
            final(self)@ == old(self)@.at(final(self)@.device, final(self)@.family),
            match r {
                SearchStep::Ask { device, family } => {
                    &&& old(self)@.is_next(device as int, family as int)
                    &&& final(self)@.device == device
                    &&& final(self)@.family == family
                },
                SearchStep::Done(selection) => {
                    &&& old(self)@.is_over()
                    &&& final(self)@.device == old(self)@.devices.len()
                    &&& final(self)@.family == 0
                    &&& selection == selection_of(old(self)@.best)
                },
            },
    {
        while self.device < self.devices.len()
            invariant
                self@.wf(),
                old(self)@.wf(),
                self@ == old(self)@.at(self@.device, self@.family),
                forall|d: int, f: int| #[trigger]
                    old(self)@.to_come(d, f) ==> !stands_before(d, f, self@.device, self@.family),
                !stands_before(self@.device, self@.family, old(self)@.device, old(self)@.family),
            decreases self.devices.len() - self.device,
        {
            let device: usize = self.device;
            if self.devices[device].is_suitable() {
                while self.family < self.devices[device].queue_families.len()
                    invariant
                        device == self.device,
                        device < self.devices.len(),
                        self@.devices[device as int].suits(),
                        self@.wf(),
                        old(self)@.wf(),
                        self@ == old(self)@.at(self@.device, self@.family),
                        forall|d: int, f: int| #[trigger]
                            old(self)@.to_come(d, f) ==> !stands_before(
                                d,
                                f,
                                self@.device,
                                self@.family,
                            ),
                        !stands_before(
                            self@.device,
                            self@.family,
                            old(self)@.device,
                            old(self)@.family,
                        ),
                    decreases self.devices[device as int].queue_families.len() - self.family,
                {
                    if self.devices[device].does_graphics(self.family) {
                        return SearchStep::Ask { device, family: self.family };
                    }
                    self.family = self.family + 1;
                }
            }
            self.device = device + 1;
            self.family = 0;
        }
        SearchStep::Done(
            match self.best {
                None => None,
                Some((d, f)) => Some(
                    Selection {
                        device: d,
                        queue_family_index: #[verifier::truncate]
                        (f as u32),
                    },
                ),
            },
        )
    }

    /// Takes the answer to the question that [`DeviceSearch::advance`] asked.
    pub fn answer(&mut self, presents: bool)
        requires
            old(self)@.wf(),
            worth_asking(old(self)@.devices, old(self)@.device, old(self)@.family),
        ensures
            final(self)@.wf(),
            final(self)@ == old(self)@.answered(presents),
    {
        assert(self.device < self.devices.len());
        assert(self.family < self.devices[self.device as int].queue_families.len());
        if presents {
            let better = match self.best {
                None => true,
                Some((d, _)) => self.devices[self.device].kind.rank()
                    < self.devices[d].kind.rank(),
            };
            if better {
                self.best = Some((self.device, self.family));
            }
            self.device = self.device + 1;
            self.family = 0;
        } else {
            self.family = self.family + 1;
        }
    }
}

/// Whether `truth` is what `presents` answers, wherever it may be asked.
pub open spec fn tells<P: Fn(usize, usize) -> bool>(
    presents: P,
    devices: Seq<DeviceProfile>,
    truth: spec_fn(int, int) -> bool,
) -> bool {
    forall|d: usize, f: usize, answer: bool|
        worth_asking(devices, d as int, f as int) && #[trigger] call_ensures(
            presents,
            (d, f),
            answer,
        ) ==> answer == truth(d as int, f as int)
}

/// Whether `truth` holds what `presents` may have answered where it was asked: about each queue
/// family that is worth asking about, up to the first of a device that presents.
pub open spec fn may_have_told<P: Fn(usize, usize) -> bool>(
    presents: P,
    devices: Seq<DeviceProfile>,
    truth: spec_fn(int, int) -> bool,
) -> bool {
    forall|d: usize, f: usize|
        is_asked(devices, truth, d as int, f as int) ==> #[trigger] call_ensures(
            presents,
            (d, f),
            truth(d as int, f as int),
        )
}

/// Whether the queue family is asked about: it is worth it, and no earlier one of its device
/// presents.
pub open spec fn is_asked(
    devices: Seq<DeviceProfile>,
    truth: spec_fn(int, int) -> bool,
    device: int,
    family: int,
) -> bool {
    &&& worth_asking(devices, device, family)
    &&& forall|earlier: int|
        0 <= earlier < family ==> !(#[trigger] worth_asking(devices, device, earlier) && truth(
            device,
            earlier,
        ))
}

/// Searches the devices, in their order, for the one to use, where `presents` finds out whether
/// a queue family of a device presents to the window. Whatever it answers, the result is the
/// choice for these answers.
pub fn choose_device<P: Fn(usize, usize) -> bool>(
    devices: Vec<DeviceProfile>,
    presents: P,
) -> (r: Option<Selection>)
    requires
        forall|d: usize, f: usize|
            worth_asking(devices@, d as int, f as int) ==> #[trigger] call_requires(
                presents,
                (d, f),
            ),
    ensures
        exists|truth: spec_fn(int, int) -> bool, choice: Option<(int, int)>|
            {
                &&& may_have_told(presents, devices@, truth)
                &&& #[trigger] is_choice(devices@, truth, choice)
                &&& r == selection_of(choice)
            },
        forall|truth: spec_fn(int, int) -> bool| #[trigger]
            tells(presents, devices@, truth) ==> exists|choice: Option<(int, int)>| #[trigger]
                is_choice(devices@, truth, choice) && r == selection_of(choice),
{
    let ghost all = devices@;
    let ghost mut answers = |d: int, f: int| false;
    let mut search = DeviceSearch::new(devices);
    loop
        invariant
            all == devices@,
            search@.wf(),
            search@.devices == all,
            forall|d: usize, f: usize|
                worth_asking(all, d as int, f as int) ==> #[trigger] call_requires(
                    presents,
                    (d, f),
                ),
            search@.agrees_with(answers),
            forall|d: usize, f: usize|
                is_asked(all, answers, d as int, f as int) && stands_before(
                    d as int,
                    f as int,
                    search@.device,
                    search@.family,
                ) ==> #[trigger] call_ensures(presents, (d, f), answers(d as int, f as int)),
            forall|truth: spec_fn(int, int) -> bool| #[trigger]
                tells(presents, all, truth) ==> search@.agrees_with(truth),
        decreases
                all.len() - search@.device,
                if search@.device < all.len() {
                    all[search@.device].queue_families@.len() - search@.family
                } else {
                    0
                },
    {
        let ghost before = search@;
        match search.advance() {
            SearchStep::Ask { device, family } => {
                let ghost asked = search@;
                let answer = presents(device, family);
                search.answer(answer);
                proof {
                    let known = answers;
                    answers =
                    |d: int, f: int|
                        if d == device && f == family {
                            answer
                        } else {
                            known(d, f)
                        };
                    law_moving_on_agrees(before, known, device as int, family as int);
                    lemma_agrees_by_what_is_past(asked, known, answers);
                    law_answer_agrees(asked, answers);
                    assert forall|d: usize, f: usize|
                        is_asked(all, answers, d as int, f as int) && stands_before(
                            d as int,
                            f as int,
                            search@.device,
                            search@.family,
                        ) implies #[trigger] call_ensures(
                        presents,
                        (d, f),
                        answers(d as int, f as int),
                    ) by {
                        lemma_asked_is_past(before, asked, answers, known, answer, d, f);
                    }
                    assert forall|truth: spec_fn(int, int) -> bool| #[trigger]
                        tells(presents, all, truth) implies search@.agrees_with(truth) by {
                        law_moving_on_agrees(before, truth, device as int, family as int);
                        law_answer_agrees(asked, truth);
                        assert(call_ensures(presents, (device, family), answer));
                    }
                }
            },
            SearchStep::Done(selection) => {
                proof {
                    law_search_ends_with_the_choice(before, answers);
                    assert forall|d: usize, f: usize|
                        is_asked(all, answers, d as int, f as int) implies #[trigger] call_ensures(
                        presents,
                        (d, f),
                        answers(d as int, f as int),
                    ) by {
                        assert(!before.to_come(d as int, f as int));
                    }
                    assert(may_have_told(presents, all, answers));
                    assert(is_choice(all, answers, before.best));
                    assert forall|truth: spec_fn(int, int) -> bool| #[trigger]
                        tells(presents, all, truth) implies exists|choice: Option<(int, int)>|
                        #[trigger]
                        is_choice(all, truth, choice) && selection == selection_of(choice) by {
                        law_search_ends_with_the_choice(before, truth);
                        assert(is_choice(all, truth, before.best));
                    }
                }
                return selection;
            },
        }
    }
}

/// A search only depends on the answers about what it has dealt with.
proof fn lemma_agrees_by_what_is_past(
    search: SearchModel,
    known: spec_fn(int, int) -> bool,
    answers: spec_fn(int, int) -> bool,
)
    requires
        search.wf(),
        search.agrees_with(known),
        forall|d: int, f: int|
            stands_before(d, f, search.device, search.family) ==> known(d, f) == #[trigger] answers(
                d,
                f,
            ),
    ensures
        search.agrees_with(answers),
{
    assert forall|d: int, f: int| 0 <= d < search.device implies is_family_of(
        search.devices,
        known,
        d,
        f,
    ) == #[trigger] is_family_of(search.devices, answers, d, f) by {
        assert(known(d, f) == answers(d, f));
        assert forall|earlier: int| 0 <= earlier < f implies known(d, earlier) == #[trigger] answers(
            d,
            earlier,
        ) by {}
    }
    assert forall|f: int| 0 <= f < search.family implies !(#[trigger] worth_asking(
        search.devices,
        search.device,
        f,
    ) && answers(search.device, f)) by {
        assert(known(search.device, f) == answers(search.device, f));
    }
}

/// What was asked about before the place that a search has reached after an answer is what was
/// asked about before the question, and the question itself.
proof fn lemma_asked_is_past(
    before: SearchModel,
    asked: SearchModel,
    answers: spec_fn(int, int) -> bool,
    known: spec_fn(int, int) -> bool,
    answer: bool,
    d: usize,
    f: usize,
)
    requires
        before.wf(),
        before.is_next(asked.device, asked.family),
        asked == before.at(asked.device, asked.family),
        answers == (|x: int, y: int|
            if x == asked.device && y == asked.family {
                answer
            } else {
                known(x, y)
            }),
        is_asked(before.devices, answers, d as int, f as int),
        stands_before(
            d as int,
            f as int,
            asked.answered(answer).device,
            asked.answered(answer).family,
        ),
    ensures
        (d == asked.device && f == asked.family && answers(d as int, f as int) == answer) || (
        stands_before(d as int, f as int, before.device, before.family) && is_asked(
            before.devices,
            known,
            d as int,
            f as int,
        ) && answers(d as int, f as int) == known(d as int, f as int)),
{
    let dd = d as int;
    let ff = f as int;
    if !(dd == asked.device && ff == asked.family) {
        assert(worth_asking(before.devices, asked.device, asked.family)) by {
            assert(before.to_come(asked.device, asked.family));
        }
        if dd == asked.device && ff > asked.family {
            assert(answers(dd, asked.family) == answer);
            assert(answer);
            assert(worth_asking(before.devices, dd, asked.family) && answers(dd, asked.family));
        }
        assert(stands_before(dd, ff, asked.device, asked.family));
        assert(!before.to_come(dd, ff));
        assert forall|earlier: int| 0 <= earlier < ff implies !(#[trigger] worth_asking(
            before.devices,
            dd,
            earlier,
        ) && known(dd, earlier)) by {
            assert(answers(dd, earlier) == known(dd, earlier));
        }
    }
}

/// Whatever the families turn out to do, a search starts as it should.
pub proof fn law_start_agrees(devices: Seq<DeviceProfile>, presents: spec_fn(int, int) -> bool)
    ensures
        SearchModel::start(devices).agrees_with(presents),
{
}

/// Passing over queue families that are not worth asking about keeps a search as it should be.
pub proof fn law_moving_on_agrees(
    search: SearchModel,
    presents: spec_fn(int, int) -> bool,
    device: int,
    family: int,
)
    requires
        search.wf(),
        search.agrees_with(presents),
        search.is_next(device, family) || (search.is_over() && device == search.devices.len()
            && family == 0),
    ensures
        search.at(device, family).agrees_with(presents),
{
    assert forall|d: int, f: int|
        worth_asking(search.devices, d, f) && stands_before(d, f, device, family)
            && !stands_before(d, f, search.device, search.family) implies false by {
        assert(search.to_come(d, f));
    }
    assert forall|d: int, f: int|
        search.device <= d < device implies !#[trigger] is_family_of(
        search.devices,
        presents,
        d,
        f,
    ) by {
        if is_family_of(search.devices, presents, d, f) {
            assert(worth_asking(search.devices, d, f));
        }
    }
    assert forall|f: int| 0 <= f < family implies !(#[trigger] worth_asking(
        search.devices,
        device,
        f,
    ) && presents(device, f)) by {
        if worth_asking(search.devices, device, f) {
            assert(stands_before(device, f, device, family));
        }
    }
}

/// A true answer keeps a search as it should be.
pub proof fn law_answer_agrees(search: SearchModel, presents: spec_fn(int, int) -> bool)
    requires
        search.wf(),
        search.agrees_with(presents),
        worth_asking(search.devices, search.device, search.family),
    ensures
        search.answered(presents(search.device, search.family)).agrees_with(presents),
{
    if presents(search.device, search.family) {
        assert(is_family_of(search.devices, presents, search.device, search.family));
        assert forall|f: int| #[trigger]
            is_family_of(search.devices, presents, search.device, f) implies f
            == search.family by {
            if f < search.family {
                assert(worth_asking(search.devices, search.device, f));
            } else if f > search.family {
                assert(worth_asking(search.devices, search.device, search.family));
            }
        }
    }
}

/// A search that is over has made the choice.
pub proof fn law_search_ends_with_the_choice(
    search: SearchModel,
    presents: spec_fn(int, int) -> bool,
)
    requires
        search.wf(),
        search.agrees_with(presents),
        search.is_over(),
    ensures
        is_choice(search.devices, presents, search.best),
{
    law_moving_on_agrees(search, presents, search.devices.len() as int, 0);
}

/// There is only one choice.
pub proof fn law_choice_is_unique(
    devices: Seq<DeviceProfile>,
    presents: spec_fn(int, int) -> bool,
    a: Option<(int, int)>,
    b: Option<(int, int)>,
)
    requires
        is_choice(devices, presents, a),
        is_choice(devices, presents, b),
    ensures
        a == b,
{
    if let (Some((da, fa)), Some((db, fb))) = (a, b) {
        assert(is_family_of(devices, presents, da, fa));
        assert(is_family_of(devices, presents, db, fb));
        assert(da == db);
        assert(worth_asking(devices, da, fa));
        assert(worth_asking(devices, da, fb));
    }
}

/// A search asks about a queue family once at most, and in the order in which they stand: what
/// is next after an answer stands behind what was asked.
pub proof fn law_questions_go_forward(search: SearchModel, presents: bool, d: int, f: int)
    requires
        search.wf(),
        search.answered(presents).is_next(d, f),
    ensures
        stands_before(search.device, search.family, d, f),
{
}

/// Once a queue family presents, no other family of its device is asked about.
pub proof fn law_a_yes_settles_the_device(search: SearchModel, d: int, f: int)
    requires
        search.wf(),
        search.answered(true).is_next(d, f),
    ensures
        d > search.device,
{
}

/// Where a family of a device is worth asking about and presents, there is a first one that is.
proof fn lemma_first_family(
    devices: Seq<DeviceProfile>,
    presents: spec_fn(int, int) -> bool,
    device: int,
    family: int,
) -> (first: int)
    requires
        worth_asking(devices, device, family),
        presents(device, family),
    ensures
        first <= family,
        is_family_of(devices, presents, device, first),
    decreases family,
{
    if exists|earlier: int|
        0 <= earlier < family && #[trigger] worth_asking(devices, device, earlier) && presents(
            device,
            earlier,
        ) {
        let earlier = choose|earlier: int|
            0 <= earlier < family && #[trigger] worth_asking(devices, device, earlier) && presents(
                device,
                earlier,
            );
        lemma_first_family(devices, presents, device, earlier)
    } else {
        family
    }
}

/// Whatever the devices are and whichever families present, there is a choice to make, if only
/// that no device can be used.
pub proof fn law_there_is_a_choice(devices: Seq<DeviceProfile>, presents: spec_fn(int, int) -> bool)
    ensures
        exists|choice: Option<(int, int)>| #[trigger] is_choice(devices, presents, choice),
{
    let choice = lemma_choice_among(devices, presents, devices.len() as int);
    assert(is_choice(devices, presents, choice));
}

proof fn lemma_choice_among(
    devices: Seq<DeviceProfile>,
    presents: spec_fn(int, int) -> bool,
    n: int,
) -> (choice: Option<(int, int)>)
    requires
        0 <= n <= devices.len(),
    ensures
        is_choice_among(devices, presents, n, choice),
    decreases n,
{
    if n == 0 {
        None
    } else {
        let before = lemma_choice_among(devices, presents, n - 1);
        if exists|f: int| #[trigger] is_family_of(devices, presents, n - 1, f) {
            let f = choose|f: int| #[trigger] is_family_of(devices, presents, n - 1, f);
            match before {
                None => Some((n - 1, f)),
                Some((d, _)) => if devices[n - 1].kind.place() < devices[d].kind.place() {
                    Some((n - 1, f))
                } else {
                    before
                },
            }
        } else {
            before
        }
    }
}

/// The choice is a suitable device and a family of it that does graphics and presents, the first
/// of that device. Whatever other device has such a family, it is of a worse kind, or it is of the
/// same kind and stands further back.
pub proof fn law_the_choice_is_the_best_that_can_be_used(
    devices: Seq<DeviceProfile>,
    presents: spec_fn(int, int) -> bool,
    device: int,
    family: int,
    d: int,
    f: int,
)
    requires
        is_choice(devices, presents, Some((device, family))),
    ensures
        0 <= device < devices.len(),
        0 <= family < devices[device].queue_families@.len(),
        devices[device].suits(),
        queue_abilities(devices[device].queue_families@[family]).contains(QueueAbility::Graphics),
        presents(device, family),
        0 <= f < family && queue_abilities(devices[device].queue_families@[f]).contains(
            QueueAbility::Graphics,
        ) ==> !presents(device, f),
        0 <= d < devices.len() && devices[d].suits() && 0 <= f < devices[d].queue_families@.len()
            && queue_abilities(devices[d].queue_families@[f]).contains(QueueAbility::Graphics)
            && presents(d, f) ==> devices[device].kind.place() <= devices[d].kind.place(),
        0 <= d < device && devices[d].suits() && 0 <= f < devices[d].queue_families@.len()
            && queue_abilities(devices[d].queue_families@[f]).contains(QueueAbility::Graphics)
            && presents(d, f) ==> devices[device].kind.place() < devices[d].kind.place(),
{
    assert(is_family_of(devices, presents, device, family));
    if 0 <= f < family {
        assert(worth_asking(devices, device, f) && presents(device, f) ==> false);
    }
    if worth_asking(devices, d, f) && presents(d, f) {
        let first = lemma_first_family(devices, presents, d, f);
        assert(is_family_of(devices, presents, d, first));
    }
}

/// There is no choice only if no family of a suitable device does graphics and presents.
pub proof fn law_no_choice_without_reason(
    devices: Seq<DeviceProfile>,
    presents: spec_fn(int, int) -> bool,
    d: int,
    f: int,
)
    requires
        is_choice(devices, presents, None),
        0 <= d < devices.len(),
        devices[d].suits(),
        0 <= f < devices[d].queue_families@.len(),
        queue_abilities(devices[d].queue_families@[f]).contains(QueueAbility::Graphics),
    ensures
        !presents(d, f),
{
    if presents(d, f) {
        let first = lemma_first_family(devices, presents, d, f);
        assert(is_family_of(devices, presents, d, first));
    }
}

/// One more device at the end of the list changes the choice only if it can be used and is of a
/// better kind; then it is the choice.
pub proof fn law_one_more_device(
    devices: Seq<DeviceProfile>,
    presents: spec_fn(int, int) -> bool,
    more: DeviceProfile,
    choice: Option<(int, int)>,
    after: Option<(int, int)>,
    f: int,
)
    requires
        is_choice(devices, presents, choice),
        is_choice(devices.push(more), presents, after),
    ensures
        after == choice || (after matches Some((d, _)) && d == devices.len()),
        !more.suits() ==> after == choice,
        choice matches Some((d, _)) ==> devices[d].kind.place() <= more.kind.place() ==> after
            == choice,
        more.suits() && 0 <= f < more.queue_families@.len() && queue_abilities(
            more.queue_families@[f],
        ).contains(QueueAbility::Graphics) && presents(devices.len() as int, f) && (
        choice matches Some((d, _)) ==> more.kind.place() < devices[d].kind.place())
            ==> after is Some && (after->0).0 == devices.len(),
{
    let all = devices.push(more);
    let n = devices.len() as int;
    assert(all[n] == more);
    if worth_asking(all, n, f) && presents(n, f) {
        let first = lemma_first_family(all, presents, n, f);
        assert(is_family_of(all, presents, n, first));
    }
    assert forall|d: int, f: int|
        #![trigger worth_asking(devices, d, f)]
        #![trigger worth_asking(all, d, f)]
        0 <= d < n implies worth_asking(devices, d, f) == worth_asking(all, d, f) by {
        assert(all[d] == devices[d]);
    }
    assert forall|d: int, f: int| 0 <= d < n implies is_family_of(devices, presents, d, f)
        == #[trigger] is_family_of(all, presents, d, f) by {}
    if let Some((d, f)) = choice {
        assert(is_family_of(devices, presents, d, f));
        assert(is_family_of(all, presents, d, f));
        assert(all[d] == devices[d]);
    }
    if let Some((d, f)) = after {
        assert(is_family_of(all, presents, d, f));
        if d < n {
            assert(all[d] == devices[d]);
            assert(is_choice(devices, presents, after)) by {
                assert forall|e: int, g: int|
                    0 <= e < n && #[trigger] is_family_of(devices, presents, e, g) implies {
                    ||| devices[d].kind.place() < devices[e].kind.place()
                    ||| devices[d].kind.place() == devices[e].kind.place() && d <= e
                } by {
                    assert(is_family_of(all, presents, e, g));
                    assert(all[e] == devices[e]);
                }
            }
            law_choice_is_unique(devices, presents, choice, after);
        } else {
            assert(worth_asking(all, n, f));
            assert(all[n] == more);
        }
    } else {
        assert(is_choice(devices, presents, None)) by {
            assert forall|e: int, g: int| 0 <= e < n implies !#[trigger] is_family_of(
                devices,
                presents,
                e,
                g,
            ) by {
                assert(!is_family_of(all, presents, e, g));
            }
        }
        law_choice_is_unique(devices, presents, choice, after);
    }
}

/// The selection names the device and the family of the choice, and there is one exactly if there
/// is a choice.
pub proof fn law_the_selection_names_the_choice(choice: Option<(int, int)>)
    requires
        choice matches Some((d, f)) ==> 0 <= d <= usize::MAX && 0 <= f <= u32::MAX,
    ensures
        selection_of(choice) is None <==> choice is None,
        choice matches Some((d, f)) ==> selection_of(choice)->0.device == d && selection_of(
            choice,
        )->0.queue_family_index == f,
{
}

/// What comes of a search rests on the answers that were given. The device that is selected is
/// suitable, its family does graphics and was said to present, and every family of it before that
/// one that does graphics was said not to. A device that would have been taken before it was passed
/// over because every family of it that does graphics was said not to present; if nothing is
/// selected, that is so of every suitable device.
pub proof fn law_what_is_selected_rests_on_the_answers<P: Fn(usize, usize) -> bool>(
    devices: Vec<DeviceProfile>,
    presents: P,
    r: Option<Selection>,
    d: usize,
    f: usize,
)
    requires
        call_ensures(choose_device::<P>, (devices, presents), r),
        forall|i: int|
            0 <= i < devices@.len() ==> (#[trigger] devices@[i]).queue_families@.len() <= u32::MAX,
    ensures
        r matches Some(chosen) ==> {
            &&& chosen.device < devices@.len()
            &&& chosen.queue_family_index < devices@[chosen.device as int].queue_families@.len()
            &&& devices@[chosen.device as int].suits()
            &&& queue_abilities(
                devices@[chosen.device as int].queue_families@[chosen.queue_family_index as int],
            ).contains(QueueAbility::Graphics)
            &&& call_ensures(presents, (chosen.device, chosen.queue_family_index as usize), true)
        },
        r matches Some(chosen) ==> f < chosen.queue_family_index && queue_abilities(
            devices@[chosen.device as int].queue_families@[f as int],
        ).contains(QueueAbility::Graphics) ==> call_ensures(presents, (chosen.device, f), false),
        d < devices@.len() && devices@[d as int].suits() && f
            < devices@[d as int].queue_families@.len() && queue_abilities(
            devices@[d as int].queue_families@[f as int],
        ).contains(QueueAbility::Graphics) && (r matches Some(chosen) ==> {
            ||| devices@[d as int].kind.place() < devices@[chosen.device as int].kind.place()
            ||| devices@[d as int].kind == devices@[chosen.device as int].kind && d < chosen.device
        }) ==> call_ensures(presents, (d, f), false),
{
    let all = devices@;
    let (truth, choice) = choose|truth: spec_fn(int, int) -> bool, choice: Option<(int, int)>|
        {
            &&& may_have_told(presents, all, truth)
            &&& #[trigger] is_choice(all, truth, choice)
            &&& r == selection_of(choice)
        };
    assert(all.len() == devices.len());
    if let Some((device, family)) = choice {
        law_the_choice_is_the_best_that_can_be_used(all, truth, device, family, d as int, f as int);
        assert(all[device].queue_families@.len() <= u32::MAX);
        law_the_selection_names_the_choice(choice);
        assert(is_family_of(all, truth, device, family));
        assert(is_asked(all, truth, device, family));
        assert(call_ensures(presents, (device as usize, family as usize), truth(device, family)));
        if f < family && worth_asking(all, device, f as int) {
            assert(is_asked(all, truth, device, f as int)) by {
                assert forall|earlier: int| 0 <= earlier < f implies !(#[trigger] worth_asking(
                    all,
                    device,
                    earlier,
                ) && truth(device, earlier)) by {}
            }
            assert(call_ensures(presents, (device as usize, f), truth(device, f as int)));
        }
    }
    if worth_asking(all, d as int, f as int) && (r matches Some(chosen) ==> {
        ||| all[d as int].kind.place() < all[chosen.device as int].kind.place()
        ||| all[d as int].kind == all[chosen.device as int].kind && d < chosen.device
    }) {
        assert forall|g: int| #[trigger] worth_asking(all, d as int, g) implies !truth(
            d as int,
            g,
        ) by {
            match choice {
                None => {
                    law_no_choice_without_reason(all, truth, d as int, g);
                },
                Some((device, family)) => {
                    law_the_choice_is_the_best_that_can_be_used(
                        all,
                        truth,
                        device,
                        family,
                        d as int,
                        g,
                    );
                },
            }
        }
        assert(is_asked(all, truth, d as int, f as int));
        assert(call_ensures(presents, (d, f), truth(d as int, f as int)));
    }
}

/// If every family presents, a suitable device with a family that does graphics is enough for a
/// selection.
pub proof fn law_a_suitable_device_is_found<P: Fn(usize, usize) -> bool>(
    devices: Vec<DeviceProfile>,
    presents: P,
    r: Option<Selection>,
    d: usize,
    f: usize,
)
    requires
        call_ensures(choose_device::<P>, (devices, presents), r),
        forall|e: usize, g: usize, answer: bool| #[trigger]
            call_ensures(presents, (e, g), answer) ==> answer,
        forall|i: int|
            0 <= i < devices@.len() ==> (#[trigger] devices@[i]).queue_families@.len() <= u32::MAX,
        d < devices@.len(),
        devices@[d as int].suits(),
        f < devices@[d as int].queue_families@.len(),
        queue_abilities(devices@[d as int].queue_families@[f as int]).contains(
            QueueAbility::Graphics,
        ),
    ensures
        r is Some,
        devices@[(r->0).device as int].kind.place() <= devices@[d as int].kind.place(),
        (r->0).device == d ==> (r->0).queue_family_index <= f,
{
    law_what_is_selected_rests_on_the_answers(devices, presents, r, d, f);
}

/// Answers that are always the same are taken for the truth.
pub proof fn law_fixed_answers_are_the_truth<P: Fn(usize, usize) -> bool>(
    presents: P,
    devices: Seq<DeviceProfile>,
    truth: spec_fn(int, int) -> bool,
)
    requires
        forall|d: usize, f: usize, answer: bool| #[trigger]
            call_ensures(presents, (d, f), answer) ==> answer == truth(d as int, f as int),
    ensures
        tells(presents, devices, truth),
{
}

/// A search asks only about a family that does graphics, of a suitable device, at its place or
/// behind it; and it passes over no such family.
pub proof fn law_a_search_asks_what_matters(
    search: &mut DeviceSearch,
    device: usize,
    family: usize,
    d: int,
    f: int,
)
    requires
        old(search)@.wf(),
        call_ensures(DeviceSearch::advance, (search,), SearchStep::Ask { device, family }),
    ensures
        device < old(search)@.devices.len(),
        old(search)@.devices[device as int].suits(),
        family < old(search)@.devices[device as int].queue_families@.len(),
        queue_abilities(
            old(search)@.devices[device as int].queue_families@[family as int],
        ).contains(QueueAbility::Graphics),
        old(search)@.device < device || (old(search)@.device == device && old(search)@.family
            <= family),
        0 <= d < old(search)@.devices.len() && old(search)@.devices[d].suits() && 0 <= f < old(
            search,
        )@.devices[d].queue_families@.len() && queue_abilities(
            old(search)@.devices[d].queue_families@[f],
        ).contains(QueueAbility::Graphics) && (d < device || (d == device && f < family)) ==> d
            < old(search)@.device || (d == old(search)@.device && f < old(search)@.family),
        final(search)@.best == old(search)@.best,
        final(search)@.devices == old(search)@.devices,
{
    if worth_asking(search@.devices, d, f) && stands_before(d, f, device as int, family as int) {
        assert(!search@.to_come(d, f));
    }
}

/// A search ends only when no family that does graphics, of a suitable device, is left to ask
/// about, and it ends with what was the best by then.
pub proof fn law_a_search_ends_when_all_is_asked(
    search: &mut DeviceSearch,
    selection: Option<Selection>,
    d: int,
    f: int,
)
    requires
        old(search)@.wf(),
        call_ensures(DeviceSearch::advance, (search,), SearchStep::Done(selection)),
    ensures
        0 <= d < old(search)@.devices.len() && old(search)@.devices[d].suits() && 0 <= f < old(
            search,
        )@.devices[d].queue_families@.len() && queue_abilities(
            old(search)@.devices[d].queue_families@[f],
        ).contains(QueueAbility::Graphics) ==> d < old(search)@.device || (d == old(search)@.device
            && f < old(search)@.family),
        selection is None <==> old(search)@.best is None,
        old(search)@.best matches Some((device, family)) ==> family <= u32::MAX
            ==> selection == Some(
            Selection { device: device as usize, queue_family_index: family as u32 },
        ) && device <= usize::MAX,
{
    if worth_asking(search@.devices, d, f) {
        assert(!search@.to_come(d, f));
    }
}

/// A no leaves the best as it is and moves on to the next family. A yes moves on to the next
/// device, and the device becomes the best if there was none, or if it is of a better kind than the
/// best so far.
pub proof fn law_what_an_answer_does(search: &mut DeviceSearch, presents: bool)
    requires
        old(search)@.wf(),
        worth_asking(old(search)@.devices, old(search)@.device, old(search)@.family),
        call_ensures(DeviceSearch::answer, (search, presents), ()),
    ensures
        final(search)@.devices == old(search)@.devices,
        !presents ==> final(search)@.best == old(search)@.best && final(search)@.device == old(
            search,
        )@.device && final(search)@.family == old(search)@.family + 1,
        presents ==> final(search)@.device == old(search)@.device + 1 && final(search)@.family == 0,
        presents && old(search)@.best is None ==> final(search)@.best == Some(
            (old(search)@.device, old(search)@.family),
        ),
        presents && old(search)@.best is Some ==> final(search)@.best == if old(
            search,
        )@.devices[old(search)@.device].kind.place() < old(search)@.devices[(old(
            search,
        )@.best->0).0].kind.place() {
            Some((old(search)@.device, old(search)@.family))
        } else {
            old(search)@.best
        },
{
}

/// A search begins before the first family of the first device, with everything still to come and
/// nothing chosen.
pub proof fn law_a_search_begins_at_the_front(
    devices: Vec<DeviceProfile>,
    search: DeviceSearch,
    d: int,
    f: int,
)
    requires
        call_ensures(DeviceSearch::new, (devices,), search),
    ensures
        search@.devices == devices@,
        search@.best is None,
        search@.to_come(d, f) <==> 0 <= d < devices@.len() && devices@[d].suits() && 0 <= f
            < devices@[d].queue_families@.len() && queue_abilities(
            devices@[d].queue_families@[f],
        ).contains(QueueAbility::Graphics),
{
}

} // verus!
