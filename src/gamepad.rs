use crate::config::UNIT;
use crate::event::PlayerSpawnEvent;
use crate::vector::Vec2;
use vstd::prelude::*;

verus! {

/// A connected controller.
#[derive(Clone, Copy, Debug, PartialEq, Eq, Hash, Structural)]
pub struct Gamepad {
    pub id: usize,
}

#[derive(Clone, Copy, Debug, PartialEq, Eq, Structural)]
pub enum GamepadEventType {
    Connected,
    Disconnected,
}

/// A controller was connected or disconnected.
#[derive(Clone, Copy, Debug, PartialEq, Eq, Structural)]
pub struct GamepadEvent {
    pub gamepad: Gamepad,
    pub event_type: GamepadEventType,
}

#[derive(Clone, Copy, Debug, PartialEq, Eq, Hash, Structural)]
pub enum ButtonCode {
    South,
    East,
    North,
    West,
    C,
    Z,
    LeftTrigger,
    LeftTrigger2,
    RightTrigger,
    RightTrigger2,
    Select,
    Start,
    Mode,
    LeftThumb,
    RightThumb,
    DPadUp,
    DPadDown,
    DPadLeft,
    DPadRight,
}

/// A button of one controller.
#[derive(Clone, Copy, Debug, PartialEq, Eq, Hash, Structural)]
pub struct GamepadButton {
    pub gamepad: Gamepad,
    pub code: ButtonCode,
}

impl GamepadButton {
    pub fn new(gamepad: Gamepad, code: ButtonCode) -> (r: GamepadButton)
        ensures
            r == (GamepadButton { gamepad, code }),
    {
        GamepadButton { gamepad, code }
    }
}

#[derive(Clone, Copy, Debug, PartialEq, Eq, Hash, Structural)]
pub enum AxisCode {
    LeftStickX,
    LeftStickY,
    LeftZ,
    RightStickX,
    RightStickY,
    RightZ,
    DPadX,
    DPadY,
}

/// An analog axis of one controller.
#[derive(Clone, Copy, Debug, PartialEq, Eq, Hash, Structural)]
pub struct GamepadAxis {
    pub gamepad: Gamepad,
    pub code: AxisCode,
}

impl GamepadAxis {
    pub fn new(gamepad: Gamepad, code: AxisCode) -> (r: GamepadAxis)
        ensures
            r == (GamepadAxis { gamepad, code }),
    {
        GamepadAxis { gamepad, code }
    }
}

/// One controller's input for the current frame: both sticks in thousandths
/// of full deflection, and the attack trigger.
#[derive(Clone, Copy, Debug, PartialEq, Eq, Structural)]
pub struct GamepadInput {
    pub left_stick: Vec2,
    pub right_stick: Vec2,
    pub right_trigger2: bool,
}

impl GamepadInput {
    pub open spec fn neutral_spec() -> GamepadInput {
        GamepadInput {
            left_stick: Vec2 { x: 0, y: 0 },
            right_stick: Vec2 { x: 0, y: 0 },
            right_trigger2: false,
        }
    }

    /// Sticks centered, trigger released.
    pub fn neutral() -> (r: GamepadInput)
        ensures
            r == GamepadInput::neutral_spec(),
    {
        GamepadInput {
            left_stick: Vec2 { x: 0, y: 0 },
            right_stick: Vec2 { x: 0, y: 0 },
            right_trigger2: false,
        }
    }

    /// Both sticks lie within full deflection on each axis.
    pub open spec fn in_range(self) -> bool {
        self.left_stick.within(UNIT as int) && self.right_stick.within(UNIT as int)
    }
}

/// Each controller id appears at most once.
pub open spec fn keys_distinct(s: Seq<(usize, GamepadInput)>) -> bool {
    forall|i: int, j: int| 0 <= i < j < s.len() ==> (#[trigger] s[i]).0 != (#[trigger] s[j]).0
}

/// The input recorded for controller `id`, or neutral input if there is none.
pub open spec fn input_for(s: Seq<(usize, GamepadInput)>, id: usize) -> GamepadInput {
    if exists|i: int| 0 <= i < s.len() && (#[trigger] s[i]).0 == id {
        s[choose|i: int| 0 <= i < s.len() && (#[trigger] s[i]).0 == id].1
    } else {
        GamepadInput::neutral_spec()
    }
}

proof fn lemma_input_at(s: Seq<(usize, GamepadInput)>, r: int)
    requires
        keys_distinct(s),
        0 <= r < s.len(),
    ensures
        input_for(s, s[r].0) == s[r].1,
{
    let id = s[r].0;
    let c = choose|i: int| 0 <= i < s.len() && (#[trigger] s[i]).0 == id;
    assert(c == r);
}

proof fn lemma_input_update(s: Seq<(usize, GamepadInput)>, r: int, v: GamepadInput)
    requires
        keys_distinct(s),
        0 <= r < s.len(),
    ensures
        keys_distinct(s.update(r, (s[r].0, v))),
        input_for(s.update(r, (s[r].0, v)), s[r].0) == v,
        forall|x: usize| x != s[r].0 ==> input_for(s.update(r, (s[r].0, v)), x) == input_for(s, x),
{
    let t = s.update(r, (s[r].0, v));
    lemma_input_at(t, r);
    assert forall|x: usize| x != s[r].0 implies input_for(t, x) == input_for(s, x) by {
        if exists|i: int| 0 <= i < s.len() && (#[trigger] s[i]).0 == x {
            let c = choose|i: int| 0 <= i < s.len() && (#[trigger] s[i]).0 == x;
            assert(t[c] == s[c]);
            lemma_input_at(s, c);
            lemma_input_at(t, c);
        } else {
            assert(!exists|i: int| 0 <= i < t.len() && (#[trigger] t[i]).0 == x) by {
                assert forall|i: int| 0 <= i < t.len() implies (#[trigger] t[i]).0 != x by {
                    if i != r {
                        assert(t[i] == s[i]);
                    }
                }
            }
        }
    }
}

/// The input of every connected controller, refreshed once per frame.
#[derive(Clone, Debug)]
pub struct GamepadInputs {
    pub inputs: Vec<(usize, GamepadInput)>,
}

impl GamepadInputs {
    pub open spec fn wf(&self) -> bool {
        keys_distinct(self.inputs@)
    }

    /// No input recorded yet.
    pub fn new() -> (r: GamepadInputs)
        ensures
            r.wf(),
            r.inputs@.len() == 0,
    {
        GamepadInputs { inputs: Vec::new() }
    }

    /// The input recorded for controller `id`; neutral when there is none.
    pub fn get(&self, id: usize) -> (r: GamepadInput)
        requires
            self.wf(),
        ensures
            r == input_for(self.inputs@, id),
    {
        let mut i: usize = 0;
        while i < self.inputs.len()
            invariant
                0 <= i <= self.inputs@.len(),
                keys_distinct(self.inputs@),
                forall|k: int| 0 <= k < i ==> (#[trigger] self.inputs@[k]).0 != id,
            decreases self.inputs@.len() - i,
        {
            if self.inputs[i].0 == id {
                proof {
                    lemma_input_at(self.inputs@, i as int);
                }
                return self.inputs[i].1;
            }
            i += 1;
        }
        GamepadInput::neutral()
    }

    /// Records `input` for controller `id`, replacing what was there.
    pub fn set(&mut self, id: usize, input: GamepadInput)
        requires
            old(self).wf(),
        ensures
            final(self).wf(),
            input_for(final(self).inputs@, id) == input,
            forall|x: usize| x != id ==> input_for(final(self).inputs@, x) == input_for(
                old(self).inputs@,
                x,
            ),
    {
        let mut i: usize = 0;
        while i < self.inputs.len()
            invariant
                0 <= i <= self.inputs@.len(),
                self.inputs@ == old(self).inputs@,
                keys_distinct(self.inputs@),
                forall|k: int| 0 <= k < i ==> (#[trigger] self.inputs@[k]).0 != id,
            decreases self.inputs@.len() - i,
        {
            if self.inputs[i].0 == id {
                proof {
                    lemma_input_update(self.inputs@, i as int, input);
                }
                self.inputs.set(i, (id, input));
                return;
            }
            i += 1;
        }
        let ghost s = self.inputs@;
        self.inputs.push((id, GamepadInput::neutral()));
        proof {
            let t = s.push((id, GamepadInput::neutral_spec()));
            assert(self.inputs@ == t);
            assert(keys_distinct(t)) by {
                assert forall|a: int, b: int| 0 <= a < b < t.len() implies (#[trigger] t[a]).0 != (
                #[trigger] t[b]).0 by {
                    if b < s.len() {
                        assert(t[a] == s[a] && t[b] == s[b]);
                    } else {
                        assert(t[a] == s[a]);
                    }
                }
            }
            assert forall|x: usize| x != id implies input_for(t, x) == input_for(s, x) by {
                if exists|k: int| 0 <= k < s.len() && (#[trigger] s[k]).0 == x {
                    let c = choose|k: int| 0 <= k < s.len() && (#[trigger] s[k]).0 == x;
                    lemma_input_at(s, c);
                    assert(t[c] == s[c]);
                    lemma_input_at(t, c);
                } else {
                    assert(!exists|k: int| 0 <= k < t.len() && (#[trigger] t[k]).0 == x) by {
                        assert forall|k: int| 0 <= k < t.len() implies (#[trigger] t[k]).0 != x by {
                            if k < s.len() {
                                assert(t[k] == s[k]);
                            }
                        }
                    }
                }
            }
            lemma_input_update(t, s.len() as int, input);
        }
        let last = self.inputs.len() - 1;
        self.inputs.set(last, (id, input));
    }
}

/// The controllers that are connected.
#[derive(Clone, Debug)]
pub struct GamepadManager {
    pub gamepad: Vec<Gamepad>,
}

impl GamepadManager {
    pub open spec fn connected(&self) -> Set<Gamepad> {
        Set::new(|g: Gamepad| self.gamepad@.contains(g))
    }

    /// No controller connected.
    pub fn new() -> (r: GamepadManager)
        ensures
            r.connected() == Set::<Gamepad>::empty(),
    {
        let r = GamepadManager { gamepad: Vec::new() };
        assert(r.connected() =~= Set::<Gamepad>::empty());
        r
    }

    /// Whether `g` is connected.
    pub fn contains(&self, g: Gamepad) -> (r: bool)
        ensures
            r == self.connected().contains(g),
    {
        let mut i: usize = 0;
        while i < self.gamepad.len()
            invariant
                0 <= i <= self.gamepad@.len(),
                forall|k: int| 0 <= k < i ==> self.gamepad@[k] != g,
            decreases self.gamepad@.len() - i,
        {
            if self.gamepad[i] == g {
                assert(self.gamepad@[i as int] == g);
                return true;
            }
            i += 1;
        }
        false
    }
}

/// The connected controllers after a run of connection events.
pub open spec fn connected_after(s: Set<Gamepad>, evs: Seq<GamepadEvent>) -> Set<Gamepad>
    decreases evs.len(),
{
    if evs.len() == 0 {
        s
    } else {
        let prev = connected_after(s, evs.drop_last());
        let e = evs.last();
        match e.event_type {
            GamepadEventType::Connected => prev.insert(e.gamepad),
            GamepadEventType::Disconnected => prev.remove(e.gamepad),
        }
    }
}

/// A player joins for every connection, in order.
pub open spec fn spawns_of(evs: Seq<GamepadEvent>) -> Seq<PlayerSpawnEvent>
    decreases evs.len(),
{
    if evs.len() == 0 {
        seq![]
    } else {
        let prev = spawns_of(evs.drop_last());
        if evs.last().event_type == GamepadEventType::Connected {
            prev.push(PlayerSpawnEvent { id: evs.last().gamepad.id })
        } else {
            prev
        }
    }
}

/// Tracks connections and disconnections, and asks for a player to join for
/// every controller that connects. Disconnected controllers stop being
/// tracked; their players stay in the game.
pub fn connection_system(manager: &mut GamepadManager, events: &Vec<GamepadEvent>) -> (r: Vec<
    PlayerSpawnEvent,
>)
    ensures
        final(manager).connected() == connected_after(old(manager).connected(), events@),
        r@ == spawns_of(events@),
{
    let ghost s0 = manager.connected();
    let mut out: Vec<PlayerSpawnEvent> = Vec::new();
    let mut i: usize = 0;
    while i < events.len()
        invariant
            0 <= i <= events@.len(),
            manager.connected() == connected_after(s0, events@.take(i as int)),
            out@ == spawns_of(events@.take(i as int)),
        decreases events@.len() - i,
    {
        let e = events[i];
        proof {
            assert(events@.take(i + 1).drop_last() == events@.take(i as int));
            assert(events@.take(i + 1).last() == e);
        }
        let ghost before = manager.gamepad@;
        match e.event_type {
            GamepadEventType::Connected => {
                if !manager.contains(e.gamepad) {
                    manager.gamepad.push(e.gamepad);
                    proof {
                        assert forall|g: Gamepad| #[trigger] manager.gamepad@.contains(g) == (
                        before.contains(g) || g == e.gamepad) by {
                            if before.contains(g) {
                                let k = choose|k: int| 0 <= k < before.len() && before[k] == g;
                                assert(manager.gamepad@[k] == g);
                            }
                            if g == e.gamepad {
                                assert(manager.gamepad@[before.len() as int] == g);
                            }
                            if manager.gamepad@.contains(g) {
                                let k = choose|k: int|
                                    0 <= k < manager.gamepad@.len() && manager.gamepad@[k] == g;
                                if k < before.len() {
                                    assert(before[k] == g);
                                }
                            }
                        }
                    }
                }
                assert(manager.connected() =~= connected_after(s0, events@.take(i as int)).insert(
                    e.gamepad,
                ));
                out.push(PlayerSpawnEvent { id: e.gamepad.id });
            },
            GamepadEventType::Disconnected => {
                let mut kept: Vec<Gamepad> = Vec::new();
                let mut j: usize = 0;
                while j < manager.gamepad.len()
                    invariant
                        0 <= j <= before.len(),
                        manager.gamepad@ == before,
                        forall|g: Gamepad|
                            #[trigger] kept@.contains(g) == (g != e.gamepad && exists|k: int|
                                0 <= k < j && before[k] == g),
                    decreases before.len() - j,
                {
                    let g = manager.gamepad[j];
                    let ghost kb = kept@;
                    if g != e.gamepad {
                        kept.push(g);
                    }
                    proof {
                        assert forall|x: Gamepad| #[trigger] kept@.contains(x) == (x != e.gamepad
                            && exists|k: int| 0 <= k < j + 1 && before[k] == x) by {
                            if kept@.contains(x) {
                                let k = choose|k: int| 0 <= k < kept@.len() && kept@[k] == x;
                                if k < kb.len() {
                                    assert(kb[k] == x);
                                    assert(kb.contains(x));
                                }
                            }
                            if x != e.gamepad && exists|k: int| 0 <= k < j + 1 && before[k] == x {
                                let k = choose|k: int| 0 <= k < j + 1 && before[k] == x;
                                if k < j {
                                    assert(kb.contains(x));
                                    let m = choose|m: int| 0 <= m < kb.len() && kb[m] == x;
                                    assert(kept@[m] == x);
                                } else {
                                    assert(kept@[kb.len() as int] == x);
                                }
                            }
                        }
                    }
                    j += 1;
                }
                manager.gamepad = kept;
                proof {
                    assert forall|g: Gamepad| #[trigger] manager.gamepad@.contains(g) == (
                    before.contains(g) && g != e.gamepad) by {
                        if before.contains(g) && g != e.gamepad {
                            let k = choose|k: int| 0 <= k < before.len() && before[k] == g;
                            assert(exists|k: int| 0 <= k < before.len() && before[k] == g);
                        }
                    }
                }
                assert(manager.connected() =~= connected_after(s0, events@.take(i as int)).remove(
                    e.gamepad,
                ));
            },
        }
        i += 1;
    }
    proof {
        assert(events@.take(events@.len() as int) == events@);
    }
    out
}

/// Whether `b` is among the pressed buttons.
fn is_pressed(pressed: &Vec<GamepadButton>, b: GamepadButton) -> (r: bool)
    ensures
        r == pressed@.contains(b),
{
    let mut i: usize = 0;
    while i < pressed.len()
        invariant
            0 <= i <= pressed@.len(),
            forall|k: int| 0 <= k < i ==> pressed@[k] != b,
        decreases pressed@.len() - i,
    {
        if pressed[i] == b {
            assert(pressed@[i as int] == b);
            return true;
        }
        i += 1;
    }
    false
}

/// Controller `id`'s input with the attack trigger as read from the buttons.
pub open spec fn with_buttons(
    cur: GamepadInput,
    pressed: Seq<GamepadButton>,
    id: usize,
) -> GamepadInput {
    GamepadInput {
        right_trigger2: pressed.contains(
            GamepadButton { gamepad: Gamepad { id }, code: ButtonCode::RightTrigger2 },
        ),
        ..cur
    }
}

/// Reads the buttons of every connected controller: the attack trigger is
/// recorded in its input, and the result says whether any of them pressed
/// Start, which asks to quit.
pub fn button_system(
    manager: &GamepadManager,
    pressed: &Vec<GamepadButton>,
    inputs: &mut GamepadInputs,
) -> (quit: bool)
    requires
        old(inputs).wf(),
    ensures
        final(inputs).wf(),
        forall|x: usize|
            #[trigger] input_for(final(inputs).inputs@, x) == if manager.connected().contains(
                Gamepad { id: x },
            ) {
                with_buttons(input_for(old(inputs).inputs@, x), pressed@, x)
            } else {
                input_for(old(inputs).inputs@, x)
            },
        quit == exists|g: Gamepad|
            manager.connected().contains(g) && #[trigger] pressed@.contains(
                GamepadButton { gamepad: g, code: ButtonCode::Start },
            ),
{
    let ghost s0 = inputs.inputs@;
    let mut quit = false;
    let mut i: usize = 0;
    while i < manager.gamepad.len()
        invariant
            0 <= i <= manager.gamepad@.len(),
            inputs.wf(),
            forall|x: usize|
                #[trigger] input_for(inputs.inputs@, x) == if exists|k: int|
                    0 <= k < i && manager.gamepad@[k] == (Gamepad { id: x }) {
                    with_buttons(input_for(s0, x), pressed@, x)
                } else {
                    input_for(s0, x)
                },
            quit == exists|k: int|
                0 <= k < i && #[trigger] pressed@.contains(
                    GamepadButton { gamepad: manager.gamepad@[k], code: ButtonCode::Start },
                ),
        decreases manager.gamepad@.len() - i,
    {
        let g = manager.gamepad[i];
        let rt2 = is_pressed(pressed, GamepadButton::new(g, ButtonCode::RightTrigger2));
        let start = is_pressed(pressed, GamepadButton::new(g, ButtonCode::Start));
        if start {
            quit = true;
        }
        let cur = inputs.get(g.id);
        inputs.set(g.id, GamepadInput { right_trigger2: rt2, ..cur });
        proof {
            assert(g == Gamepad { id: g.id });
            assert forall|x: usize| #[trigger] input_for(inputs.inputs@, x) == if exists|k: int|
                0 <= k < i + 1 && manager.gamepad@[k] == (Gamepad { id: x }) {
                with_buttons(input_for(s0, x), pressed@, x)
            } else {
                input_for(s0, x)
            } by {
                if x == g.id {
                    assert(manager.gamepad@[i as int] == (Gamepad { id: x }));
                } else {
                    if exists|k: int| 0 <= k < i + 1 && manager.gamepad@[k] == (Gamepad { id: x }) {
                        let k = choose|k: int|
                            0 <= k < i + 1 && manager.gamepad@[k] == (Gamepad { id: x });
                        assert(k < i);
                    }
                }
            }
        }
        i += 1;
    }
    proof {
        assert forall|x: usize|
            (exists|k: int|
                0 <= k < manager.gamepad@.len() && manager.gamepad@[k] == (Gamepad { id: x }))
                == manager.connected().contains(Gamepad { id: x }) by {}
        if quit {
            let k = choose|k: int|
                0 <= k < manager.gamepad@.len() && #[trigger] pressed@.contains(
                    GamepadButton { gamepad: manager.gamepad@[k], code: ButtonCode::Start },
                );
            assert(manager.connected().contains(manager.gamepad@[k]));
        }
        if exists|g: Gamepad|
            manager.connected().contains(g) && #[trigger] pressed@.contains(
                GamepadButton { gamepad: g, code: ButtonCode::Start },
            ) {
            let g = choose|g: Gamepad|
                manager.connected().contains(g) && #[trigger] pressed@.contains(
                    GamepadButton { gamepad: g, code: ButtonCode::Start },
                );
            let k = choose|k: int| 0 <= k < manager.gamepad@.len() && manager.gamepad@[k] == g;
            assert(pressed@.contains(
                GamepadButton { gamepad: manager.gamepad@[k], code: ButtonCode::Start },
            ));
        }
    }
    quit
}

/// The first value reported for axis `a`, if any.
pub open spec fn axis_value(axes: Seq<(GamepadAxis, i64)>, a: GamepadAxis) -> Option<i64>
    decreases axes.len(),
{
    if axes.len() == 0 {
        None
    } else if axes[0].0 == a {
        Some(axes[0].1)
    } else {
        axis_value(axes.drop_first(), a)
    }
}

/// Controller `id`'s input with the stick axes that were reported.
pub open spec fn with_axes(cur: GamepadInput, axes: Seq<(GamepadAxis, i64)>, id: usize) -> GamepadInput {
    let g = Gamepad { id };
    let lx = axis_value(axes, GamepadAxis { gamepad: g, code: AxisCode::LeftStickX });
    let ly = axis_value(axes, GamepadAxis { gamepad: g, code: AxisCode::LeftStickY });
    let rx = axis_value(axes, GamepadAxis { gamepad: g, code: AxisCode::RightStickX });
    let ry = axis_value(axes, GamepadAxis { gamepad: g, code: AxisCode::RightStickY });
    GamepadInput {
        left_stick: Vec2 {
            x: if lx.is_some() { lx.unwrap() } else { cur.left_stick.x },
            y: if ly.is_some() { ly.unwrap() } else { cur.left_stick.y },
        },
        right_stick: Vec2 {
            x: if rx.is_some() { rx.unwrap() } else { cur.right_stick.x },
            y: if ry.is_some() { ry.unwrap() } else { cur.right_stick.y },
        },
        ..cur
    }
}

/// The first value reported for axis `a`.
fn find_axis(axes: &Vec<(GamepadAxis, i64)>, a: GamepadAxis) -> (r: Option<i64>)
    ensures
        r == axis_value(axes@, a),
{
    let mut i: usize = 0;
    proof {
        assert(axes@.subrange(0, axes@.len() as int) == axes@);
    }
    while i < axes.len()
        invariant
            0 <= i <= axes@.len(),
            axis_value(axes@, a) == axis_value(axes@.subrange(i as int, axes@.len() as int), a),
        decreases axes@.len() - i,
    {
        proof {
            assert(axes@.subrange(i as int, axes@.len() as int).drop_first() == axes@.subrange(
                i + 1,
                axes@.len() as int,
            ));
        }
        if axes[i].0 == a {
            return Some(axes[i].1);
        }
        i += 1;
    }
    None
}

/// Reads both sticks of every connected controller, in thousandths of full
/// deflection; an axis with no reading keeps its last value.
pub fn axis_system(
    manager: &GamepadManager,
    axes: &Vec<(GamepadAxis, i64)>,
    inputs: &mut GamepadInputs,
)
    requires
        old(inputs).wf(),
    ensures
        final(inputs).wf(),
        forall|x: usize|
            #[trigger] input_for(final(inputs).inputs@, x) == if manager.connected().contains(
                Gamepad { id: x },
            ) {
                with_axes(input_for(old(inputs).inputs@, x), axes@, x)
            } else {
                input_for(old(inputs).inputs@, x)
            },
{
    let ghost s0 = inputs.inputs@;
    proof {
        assert(axes@.subrange(0, axes@.len() as int) == axes@);
    }
    let mut i: usize = 0;
    while i < manager.gamepad.len()
        invariant
            0 <= i <= manager.gamepad@.len(),
            inputs.wf(),
            forall|x: usize|
                #[trigger] input_for(inputs.inputs@, x) == if exists|k: int|
                    0 <= k < i && manager.gamepad@[k] == (Gamepad { id: x }) {
                    with_axes(input_for(s0, x), axes@, x)
                } else {
                    input_for(s0, x)
                },
        decreases manager.gamepad@.len() - i,
    {
        let g = manager.gamepad[i];
        let mut cur = inputs.get(g.id);
        let ghost first = cur;
        proof {
            assert(g == Gamepad { id: g.id });
        }
        if let Some(v) = find_axis(axes, GamepadAxis::new(g, AxisCode::LeftStickX)) {
            cur.left_stick.x = v;
        }
        if let Some(v) = find_axis(axes, GamepadAxis::new(g, AxisCode::LeftStickY)) {
            cur.left_stick.y = v;
        }
        if let Some(v) = find_axis(axes, GamepadAxis::new(g, AxisCode::RightStickX)) {
            cur.right_stick.x = v;
        }
        if let Some(v) = find_axis(axes, GamepadAxis::new(g, AxisCode::RightStickY)) {
            cur.right_stick.y = v;
        }
        let ghost done = with_axes(first, axes@, g.id);
        proof {
            if exists|k: int| 0 <= k < i && manager.gamepad@[k] == (Gamepad { id: g.id }) {
                assert(first == with_axes(input_for(s0, g.id), axes@, g.id));
            } else {
                assert(first == input_for(s0, g.id));
            }
            assert(cur == done);
        }
        inputs.set(g.id, cur);
        proof {
            assert forall|x: usize| #[trigger] input_for(inputs.inputs@, x) == if exists|k: int|
                0 <= k < i + 1 && manager.gamepad@[k] == (Gamepad { id: x }) {
                with_axes(input_for(s0, x), axes@, x)
            } else {
                input_for(s0, x)
            } by {
                if x == g.id {
                    assert(manager.gamepad@[i as int] == (Gamepad { id: x }));
                } else {
                    if exists|k: int| 0 <= k < i + 1 && manager.gamepad@[k] == (Gamepad { id: x }) {
                        let k = choose|k: int|
                            0 <= k < i + 1 && manager.gamepad@[k] == (Gamepad { id: x });
                        assert(k < i);
                    }
                }
            }
        }
        i += 1;
    }
    proof {
        assert forall|x: usize|
            (exists|k: int|
                0 <= k < manager.gamepad@.len() && manager.gamepad@[k] == (Gamepad { id: x }))
                == manager.connected().contains(Gamepad { id: x }) by {}
    }
}

} // verus!
